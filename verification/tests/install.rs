use gtlite_installer::config::{DownloadConfig, MODPACK_URL};
use gtlite_installer::error::{AppResult, IoFailure, IoFailureKind, RequestFailure};
use gtlite_installer::install::{build_client, install_outcome, Install};
use gtlite_installer::report::{DownloadEvent, InstallResult};
use gtlite_installer::response::ResponseHead;
use gtlite_installer::work::{Action, Event};
use std::collections::HashMap;

/// A disk and a server in memory.
struct World {
    files: HashMap<String, Vec<u8>>,
    remote: Vec<u8>,
    tells_size: bool,
    /// How many bytes too many the server tells.
    tells_extra: usize,
    honours_ranges: bool,
    status: Option<u16>,
    read_size: usize,
    elapsed_ms: u64,
    /// The kind of work that fails, and how often it is done before it does.
    fails: Option<(&'static str, usize)>,
    read_kind: IoFailureKind,
    request_timeout: bool,
    body: Vec<u8>,
    chunk: Vec<u8>,
    open: String,
    log: Vec<String>,
}

const TARGET: &str = "out/pack.zip";
const TEMP: &str = "out/pack.zip.part";

impl World {
    fn new(remote: &[u8]) -> World {
        World {
            files: HashMap::new(),
            remote: remote.to_vec(),
            tells_size: true,
            tells_extra: 0,
            honours_ranges: true,
            status: None,
            read_size: 4,
            elapsed_ms: 0,
            fails: None,
            read_kind: IoFailureKind::Other,
            request_timeout: false,
            body: Vec::new(),
            chunk: Vec::new(),
            open: String::new(),
            log: Vec::new(),
        }
    }

    fn with(mut self, path: &str, contents: &[u8]) -> World {
        self.files.insert(path.to_string(), contents.to_vec());
        self
    }

    fn failing(mut self, work: &'static str, after: usize) -> World {
        self.fails = Some((work, after));
        self
    }

    fn fails_now(&mut self, work: &str) -> bool {
        match &mut self.fails {
            Some((failing, after)) if *failing == work => {
                if *after == 0 {
                    return true;
                }
                *after -= 1;
                false
            }
            _ => false,
        }
    }

    fn head(&self, status: u16, length: usize, range: Option<String>) -> ResponseHead {
        let told = |text: String| if self.tells_size { Some(text.into_bytes()) } else { None };
        ResponseHead {
            status,
            content_length: told((length + self.tells_extra).to_string()),
            content_range: range.and_then(told),
        }
    }

    fn work(&mut self, action: Action) -> Event {
        let failure = || Err("boom".to_string());
        match action {
            Action::CreateDir { path } => {
                self.log.push(format!("mkdir {path}"));
                if self.fails_now("mkdir") {
                    return Event::Done(failure());
                }
                Event::Done(Ok(()))
            }
            Action::BuildClient => {
                if self.fails_now("client") {
                    return Event::Done(failure());
                }
                Event::Done(Ok(()))
            }
            Action::Probe { url } => {
                self.log.push(format!("head {url}"));
                if self.fails_now("probe") {
                    return Event::Probed(None);
                }
                Event::Probed(Some(self.head(200, self.remote.len(), None)))
            }
            Action::Exists { path } => Event::Exists(self.files.contains_key(&path)),
            Action::FileSize { path } => {
                if self.fails_now("size") {
                    return Event::Size(Err("boom".to_string()));
                }
                Event::Size(Ok(self.files[&path].len() as u64))
            }
            Action::Remove { path } => {
                self.log.push(format!("remove {path}"));
                if self.fails_now("remove") {
                    return Event::Done(failure());
                }
                self.files.remove(&path).unwrap();
                Event::Done(Ok(()))
            }
            Action::Send { url, range } => {
                self.log.push(format!("get {url} {range:?}"));
                if self.fails_now("send") {
                    return Event::Responded(Err(RequestFailure {
                        timeout: self.request_timeout,
                        connect: false,
                        body: false,
                        text: "boom".to_string(),
                    }));
                }
                if let Some(status) = self.status {
                    return Event::Responded(Ok(self.head(status, 0, None)));
                }
                match range {
                    Some(range) if self.honours_ranges => {
                        let offset: usize = range
                            .strip_prefix("bytes=")
                            .and_then(|rest| rest.strip_suffix('-'))
                            .unwrap()
                            .parse()
                            .unwrap();
                        self.body = self.remote[offset..].to_vec();
                        let total = self.remote.len();
                        let range = format!("bytes {offset}-{}/{total}", total - 1);
                        Event::Responded(Ok(self.head(206, total - offset, Some(range))))
                    }
                    _ => {
                        self.body = self.remote.clone();
                        Event::Responded(Ok(self.head(200, self.remote.len(), None)))
                    }
                }
            }
            Action::Open { path, append } => {
                self.log.push(format!("open {path} {append}"));
                if self.fails_now("open") {
                    return Event::Done(failure());
                }
                let file = self.files.entry(path.clone()).or_default();
                if !append {
                    file.clear();
                }
                self.open = path;
                Event::Done(Ok(()))
            }
            Action::Read => {
                if self.fails_now("read") {
                    return Event::Read(Err(IoFailure {
                        kind: self.read_kind,
                        text: "boom".to_string(),
                    }));
                }
                let count = self.body.len().min(self.read_size);
                self.chunk = self.body.drain(..count).collect();
                Event::Read(Ok(count))
            }
            Action::Write => {
                if self.fails_now("write") {
                    return Event::Written { outcome: failure(), elapsed_ms: 0 };
                }
                let file = self.files.get_mut(&self.open).unwrap();
                file.extend_from_slice(&self.chunk);
                Event::Written { outcome: Ok(()), elapsed_ms: self.elapsed_ms }
            }
            Action::Flush => Event::Flushed,
            Action::Rename { from, to } => {
                self.log.push(format!("rename {from} {to}"));
                if self.fails_now("rename") {
                    return Event::Done(failure());
                }
                let contents = self.files.remove(&from).unwrap();
                self.files.insert(to, contents);
                Event::Done(Ok(()))
            }
            Action::Finish => panic!("nothing is left to do"),
        }
    }
}

fn config() -> DownloadConfig {
    config_with(None, None)
}

fn config_with(mode: Option<&str>, proxy: Option<&str>) -> DownloadConfig {
    DownloadConfig::from_command(
        Some("out".to_string()),
        Some("pack.zip".to_string()),
        mode.map(str::to_string),
        proxy.map(str::to_string),
        String::new(),
    )
    .unwrap()
}

fn install_with(
    config: DownloadConfig,
    world: &mut World,
) -> (AppResult<InstallResult>, Vec<DownloadEvent>) {
    let mut install = Install::new(config);
    let mut told = Vec::new();
    loop {
        let action = install.action();
        if let Action::Finish = action {
            return (install.into_result().unwrap(), told);
        }
        let event = world.work(action);
        assert!(install.accepts(&event));
        told.extend(install.step(event));
    }
}

fn install(world: &mut World) -> (AppResult<InstallResult>, Vec<DownloadEvent>) {
    install_with(config(), world)
}

fn error_of(world: &mut World) -> String {
    let (outcome, told) = install(world);
    let line = outcome.unwrap_err().to_string();
    let last = told.last().unwrap();
    assert_eq!(last.stage, "error");
    assert_eq!(last.message.as_deref(), Some(line.as_str()));
    line
}

fn messages(told: &[DownloadEvent]) -> Vec<&str> {
    told.iter().filter_map(|report| report.message.as_deref()).collect()
}

fn counts(told: &[DownloadEvent]) -> Vec<(u64, Option<u64>)> {
    told.iter()
        .filter(|report| report.stage == "running")
        .map(|report| (report.downloaded_bytes.unwrap(), report.total_bytes))
        .collect()
}

fn is_done(told: &[DownloadEvent], message: &str, bytes: u64) {
    let last = told.last().unwrap();
    assert_eq!(last.stage, "completed");
    assert_eq!(last.message.as_deref(), Some(message));
    assert_eq!(last.downloaded_bytes, Some(bytes));
    assert_eq!(last.total_bytes, Some(bytes));
    assert_eq!(last.output_path.as_deref(), Some(TARGET));
}

#[test]
fn fresh_download_leaves_the_remote_file() {
    let mut world = World::new(b"0123456789");
    world.elapsed_ms = 120;
    let (outcome, told) = install(&mut world);
    assert_eq!(outcome.unwrap().output_path, TARGET);
    assert_eq!(world.files.len(), 1);
    assert_eq!(world.files[TARGET], b"0123456789");
    assert_eq!(messages(&told), ["准备下载", "开始下载", "下载完成"]);
    assert_eq!(counts(&told), [(0, Some(10)), (4, Some(10)), (8, Some(10)), (10, Some(10))]);
    is_done(&told, "下载完成", 10);
    assert_eq!(
        world.log,
        [
            "mkdir out".to_string(),
            format!("head {MODPACK_URL}"),
            format!("get {MODPACK_URL} None"),
            format!("open {TEMP} false"),
            format!("rename {TEMP} {TARGET}"),
        ]
    );
}

#[test]
fn progress_is_told_at_intervals() {
    let mut world = World::new(b"0123456789");
    world.elapsed_ms = 119;
    let (_, told) = install(&mut world);
    assert_eq!(counts(&told), [(0, Some(10)), (4, Some(10))]);
}

#[test]
fn first_chunk_is_told_at_once() {
    let mut world = World::new(b"0123456789").with(TEMP, b"01");
    world.read_size = 3;
    let (_, told) = install(&mut world);
    assert_eq!(counts(&told), [(2, Some(10)), (5, Some(10))]);
    world.files.clear();
    world.remote.clear();
    let (outcome, told) = install(&mut world);
    assert!(outcome.is_ok());
    assert_eq!(counts(&told), [(0, Some(0))]);
}

#[test]
fn told_counts_grow() {
    let mut world = World::new(b"0123456789");
    world.read_size = 1;
    world.elapsed_ms = 500;
    let (_, told) = install(&mut world);
    let told: Vec<u64> = counts(&told).into_iter().map(|(bytes, _)| bytes).collect();
    assert_eq!(told, [0, 1, 2, 3, 4, 5, 6, 7, 8, 9, 10]);
}

fn stages(told: &[DownloadEvent], stage: &str) -> usize {
    told.iter().filter(|report| report.stage == stage).count()
}

#[test]
fn end_is_told_once_and_last() {
    let (_, told) = install(&mut World::new(b"0123456789"));
    assert_eq!((stages(&told, "completed"), stages(&told, "error")), (1, 0));
    assert_eq!(told.last().unwrap().stage, "completed");
    for work in ["mkdir", "client", "send", "open", "read", "write", "rename"] {
        let (_, told) = install(&mut World::new(b"0123456789").failing(work, 0));
        assert_eq!((stages(&told, "completed"), stages(&told, "error")), (0, 1));
        assert_eq!(told.last().unwrap().stage, "error");
    }
}

#[test]
fn failed_transfer_keeps_what_was_received() {
    let mut world = World::new(b"0123456789").with(TARGET, b"old").with(TEMP, b"xy");
    world.fails = Some(("read", 1));
    assert!(error_of(&mut world).starts_with("[NET-004]"));
    assert_eq!(world.files[TARGET], b"old");
    assert_eq!(world.files[TEMP], b"xy2345");
    let mut world = World::new(b"0123456789").with(TARGET, b"old").failing("read", 2);
    assert!(error_of(&mut world).starts_with("[NET-004]"));
    assert!(!world.files.contains_key(TARGET));
    assert_eq!(world.files[TEMP], b"01234567");
    let mut world = World::new(b"0123456789").with(TARGET, b"0123456789abc");
    world.tells_extra = 3;
    let (outcome, told) = install(&mut world);
    assert!(outcome.is_ok());
    is_done(&told, "文件已存在", 13);
    world.tells_extra = 5;
    assert!(error_of(&mut world).starts_with("[NET-005]"));
    assert!(!world.files.contains_key(TARGET));
    assert_eq!(world.files[TEMP], b"0123456789");
}

#[test]
fn interrupted_download_is_resumed() {
    let mut world = World::new(b"0123456789").failing("read", 1);
    assert_eq!(error_of(&mut world), "[NET-004] 读取下载数据失败：boom");
    assert_eq!(world.files[TEMP], b"0123");
    world.fails = None;
    world.log.clear();
    let (outcome, told) = install(&mut world);
    assert!(outcome.is_ok());
    assert_eq!(world.files.len(), 1);
    assert_eq!(world.files[TARGET], b"0123456789");
    assert_eq!(messages(&told), ["准备下载", "继续下载（4 B）", "下载完成"]);
    assert_eq!(counts(&told), [(4, Some(10)), (8, Some(10))]);
    assert_eq!(world.log[2], format!("get {MODPACK_URL} Some(\"bytes=4-\")"));
    assert_eq!(world.log[3], format!("open {TEMP} true"));
    is_done(&told, "下载完成", 10);
}

#[test]
fn download_starts_over_where_ranges_are_ignored() {
    let mut world = World::new(b"0123456789").with(TEMP, b"0123");
    world.honours_ranges = false;
    let (outcome, told) = install(&mut world);
    assert!(outcome.is_ok());
    assert_eq!(world.files[TARGET], b"0123456789");
    assert_eq!(messages(&told), ["准备下载", "重新下载", "下载完成"]);
    assert_eq!(counts(&told), [(0, Some(10)), (4, Some(10))]);
    assert_eq!(world.log[3], format!("open {TEMP} false"));
}

#[test]
fn success_leaves_the_response() {
    let mut world = World::new(b"0123456789").with(TEMP, b"xyz").with(TARGET, b"old");
    world.honours_ranges = false;
    assert!(install(&mut world).0.is_ok());
    assert_eq!(world.files.len(), 1);
    assert_eq!(world.files[TARGET], b"0123456789");
    let mut world = World::new(b"0123456789").with(TEMP, b"xyz").with(TARGET, b"old");
    assert!(install(&mut world).0.is_ok());
    assert_eq!(world.files.len(), 1);
    assert_eq!(world.files[TARGET], b"xyz3456789");
}

#[test]
fn complete_partial_file_only_gets_its_name() {
    let mut world = World::new(b"0123456789").with(TEMP, b"0123456789").with(TARGET, b"old");
    let (outcome, told) = install(&mut world);
    assert!(outcome.is_ok());
    assert_eq!(world.files.len(), 1);
    assert_eq!(world.files[TARGET], b"0123456789");
    assert_eq!(world.log[2..], [format!("remove {TARGET}"), format!("rename {TEMP} {TARGET}")]);
    is_done(&told, "下载完成", 10);
}

#[test]
fn oversized_partial_file_is_removed() {
    let mut world = World::new(b"0123456789").with(TEMP, b"0123456789abc");
    let (outcome, _) = install(&mut world);
    assert!(outcome.is_ok());
    assert_eq!(world.files[TARGET], b"0123456789");
    assert_eq!(world.log[2], format!("remove {TEMP}"));
}

#[test]
fn current_target_is_kept() {
    let mut world = World::new(b"0123456789").with(TARGET, b"abcdefghij");
    let (outcome, told) = install(&mut world);
    assert_eq!(outcome.unwrap().output_path, TARGET);
    assert_eq!(world.files[TARGET], b"abcdefghij");
    is_done(&told, "文件已存在", 10);
}

#[test]
fn target_is_kept_where_the_size_is_unknown() {
    let mut world = World::new(b"0123456789").with(TARGET, b"abc").failing("probe", 0);
    let (outcome, told) = install(&mut world);
    assert!(outcome.is_ok());
    assert_eq!(world.files[TARGET], b"abc");
    is_done(&told, "文件已存在", 3);
}

#[test]
fn stale_target_is_replaced() {
    let mut world = World::new(b"0123456789").with(TARGET, b"abc");
    let (outcome, told) = install(&mut world);
    assert!(outcome.is_ok());
    assert_eq!(world.files[TARGET], b"0123456789");
    assert_eq!(world.log[2], format!("remove {TARGET}"));
    is_done(&told, "下载完成", 10);
}

#[test]
fn unknown_size_counts_what_came() {
    let mut world = World::new(b"0123456789").with(TEMP, b"01");
    world.tells_size = false;
    let (outcome, told) = install(&mut world);
    assert!(outcome.is_ok());
    assert_eq!(world.files[TARGET], b"0123456789");
    assert_eq!(counts(&told), [(2, None), (6, None)]);
    is_done(&told, "下载完成", 10);
}

#[test]
fn failed_replacement_keeps_the_complete_file() {
    let mut world =
        World::new(b"0123456789").with(TEMP, b"0123").with(TARGET, b"old").failing("rename", 0);
    assert_eq!(error_of(&mut world), format!("[FS-008] 写入目标文件失败 {TARGET}：boom"));
    assert_eq!(world.files[TEMP], b"0123456789");
}

#[test]
fn failed_download_keeps_the_target() {
    let mut world =
        World::new(b"0123456789").with(TEMP, b"0123").with(TARGET, b"old").failing("read", 0);
    error_of(&mut world);
    assert_eq!(world.files[TARGET], b"old");
    assert_eq!(world.files[TEMP], b"0123");
}

#[test]
fn other_files_are_untouched() {
    let mut world = World::new(b"0123456789").with("out/other", b"x").with(TARGET, b"abc");
    install(&mut world).0.unwrap();
    assert_eq!(world.files["out/other"], b"x");
}

#[test]
fn directory_failure_is_told() {
    let mut world = World::new(b"0").failing("mkdir", 0);
    assert_eq!(error_of(&mut world), "[FS-001] 无法创建下载目录 out：boom");
}

#[test]
fn blank_proxy_fails_after_the_directory() {
    let mut world = World::new(b"0");
    let (outcome, told) = install_with(config_with(Some("custom"), Some(" ")), &mut world);
    let line = outcome.unwrap_err().to_string();
    assert_eq!(line, "[CFG-003] 自定义代理地址不能为空");
    assert_eq!(told.len(), 1);
    assert_eq!(told[0].message.as_deref(), Some(line.as_str()));
    assert_eq!(world.log, ["mkdir out"]);
}

#[test]
fn client_failure_is_told() {
    let mut world = World::new(b"0").failing("client", 0);
    assert_eq!(error_of(&mut world), "[NET-001] 创建下载客户端失败：boom");
    assert!(build_client(Ok(())).is_ok());
}

#[test]
fn size_failures_name_the_file() {
    let mut world = World::new(b"0").with(TARGET, b"1").failing("size", 0);
    assert_eq!(error_of(&mut world), format!("[FS-009] 读取文件信息失败 {TARGET}：boom"));
    let mut world = World::new(b"0").with(TEMP, b"").failing("size", 0);
    assert_eq!(error_of(&mut world), format!("[FS-009] 读取文件信息失败 {TEMP}：boom"));
    let mut world = World::new(b"0").with(TEMP, b"").failing("size", 1);
    assert_eq!(error_of(&mut world), format!("[FS-009] 读取文件信息失败 {TEMP}：boom"));
}

#[test]
fn remove_failures_have_their_codes() {
    let mut world = World::new(b"0").with(TARGET, b"12").failing("remove", 0);
    assert_eq!(error_of(&mut world), format!("[FS-002] 清理旧文件失败 {TARGET}：boom"));
    let mut world = World::new(b"0").with(TEMP, b"12").failing("remove", 0);
    assert_eq!(error_of(&mut world), format!("[FS-003] 清理临时文件失败 {TEMP}：boom"));
    let mut world = World::new(b"0").with(TEMP, b"1").with(TARGET, b"12").failing("remove", 0);
    assert_eq!(error_of(&mut world), format!("[FS-007] 替换旧文件失败 {TARGET}：boom"));
}

#[test]
fn request_failures_name_the_address() {
    let mut world = World::new(b"0").failing("send", 0);
    assert_eq!(error_of(&mut world), format!("[NET-002] 下载请求失败：boom，地址：{MODPACK_URL}"));
    let mut world = World::new(b"0").failing("send", 0);
    world.request_timeout = true;
    assert_eq!(
        error_of(&mut world),
        format!("[NET-002] 下载请求失败：请求超时，地址：{MODPACK_URL}")
    );
}

#[test]
fn refused_requests_name_the_status() {
    for status in [199_u16, 304, 404, 416, 503] {
        let mut world = World::new(b"0");
        world.status = Some(status);
        assert_eq!(
            error_of(&mut world),
            format!("[NET-003] 下载被服务器拒绝：HTTP {status}，地址：{MODPACK_URL}")
        );
    }
}

#[test]
fn open_failures_depend_on_the_mode() {
    let mut world = World::new(b"012").with(TEMP, b"0").failing("open", 0);
    assert_eq!(error_of(&mut world), format!("[FS-004] 无法打开临时文件 {TEMP}：boom"));
    let mut world = World::new(b"012").failing("open", 0);
    assert_eq!(error_of(&mut world), format!("[FS-005] 无法创建临时文件 {TEMP}：boom"));
}

#[test]
fn transfer_failures_have_words() {
    let mut world = World::new(b"012").failing("read", 0);
    world.read_kind = IoFailureKind::UnexpectedEof;
    assert_eq!(error_of(&mut world), "[NET-004] 读取下载数据失败：连接被中断");
    let mut world = World::new(b"012").failing("write", 0);
    assert_eq!(error_of(&mut world), "[FS-006] 写入下载文件失败：boom");
}

#[test]
fn short_response_is_incomplete() {
    let mut install = Install::new(config());
    let head = || ResponseHead {
        status: 200,
        content_length: Some(b"2048".to_vec()),
        content_range: None,
    };
    for event in [
        Event::Done(Ok(())),
        Event::Done(Ok(())),
        Event::Probed(None),
        Event::Exists(false),
        Event::Exists(false),
        Event::Responded(Ok(head())),
        Event::Done(Ok(())),
        Event::Read(Ok(7)),
        Event::Written { outcome: Ok(()), elapsed_ms: 0 },
        Event::Read(Ok(0)),
        Event::Flushed,
    ] {
        assert!(install.accepts(&event));
        install.step(event);
    }
    let error = install.into_result().unwrap().unwrap_err();
    assert_eq!(error.to_string(), "[NET-005] 下载不完整：已下载 7 B，预期 2.0 KB");
}

#[test]
fn events_out_of_place_are_not_accepted() {
    let install = Install::new(config());
    assert!(!install.accepts(&Event::Flushed));
    assert!(!install.accepts(&Event::Exists(true)));
    assert!(install.accepts(&Event::Done(Err("x".to_string()))));
    assert!(install.into_result().is_none());
}

#[test]
fn overflowing_counts_are_not_accepted() {
    let mut install = Install::new(config());
    for event in [
        Event::Done(Ok(())),
        Event::Done(Ok(())),
        Event::Probed(None),
        Event::Exists(false),
        Event::Exists(true),
        Event::Size(Ok(5)),
    ] {
        install.step(event);
    }
    let longest = |range: Option<Vec<u8>>| {
        Event::Responded(Ok(ResponseHead {
            status: 206,
            content_length: Some(u64::MAX.to_string().into_bytes()),
            content_range: range,
        }))
    };
    assert!(!install.accepts(&longest(None)));
    assert!(install.accepts(&longest(Some(b"bytes 5-9/10".to_vec()))));
}

#[test]
fn outcome_is_a_result_or_a_line() {
    let result = InstallResult { output_path: "p".to_string() };
    assert_eq!(install_outcome(Ok(Ok(result))).unwrap().output_path, "p");
    let mut world = World::new(b"0").failing("mkdir", 0);
    let (outcome, _) = install(&mut world);
    assert_eq!(
        install_outcome(Ok(outcome)).unwrap_err(),
        "[FS-001] 无法创建下载目录 out：boom"
    );
    assert_eq!(
        install_outcome(Err("panic".to_string())).unwrap_err(),
        "[SYS-001] 下载任务异常退出：panic"
    );
}
