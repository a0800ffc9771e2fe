//! One download, from the first look at the disk to the finished file.
//!
//! A [`Downloader`] names the work to do next ([`Downloader::action`]) and
//! takes back what came of it ([`Downloader::step`]).

use crate::error;
use crate::error::{AppError, AppResult, IoFailure, RequestFailure};
use crate::paths;
use crate::paths::DownloadPaths;
use crate::report;
use crate::report::{DownloadEvent, EventView, Reporter};
use crate::response;
use crate::response::ResponseHead;
use crate::size;
use crate::text;
use crate::work::{Action, ActionView, Event, PROGRESS_INTERVAL_MS};
use vstd::prelude::*;

verus! {

/// How a response is turned into a file.
#[derive(Debug)]
pub struct DownloadPlan {
    /// The bytes of the incomplete file that are kept.
    pub resumed_bytes: u64,
    /// The size of the whole file, if it is known.
    pub total_bytes: Option<u64>,
    /// The response is appended to the incomplete file.
    pub append_mode: bool,
    /// What the user is told about it.
    pub status_message: String,
}

/// A plan by what it says.
pub struct PlanView {
    pub resumed_bytes: u64,
    pub total_bytes: Option<u64>,
    pub append_mode: bool,
    pub status_message: Seq<char>,
}

impl View for DownloadPlan {
    type V = PlanView;

    open spec fn view(&self) -> PlanView {
        PlanView {
            resumed_bytes: self.resumed_bytes,
            total_bytes: self.total_bytes,
            append_mode: self.append_mode,
            status_message: self.status_message@,
        }
    }
}

/// The incomplete file can be continued: there is something in it, and the
/// server sends only the rest.
pub open spec fn can_resume(response: ResponseHead, resumed_bytes: u64) -> bool {
    resumed_bytes > 0 && response.status == response::PARTIAL_CONTENT
}

/// The bytes of the incomplete file that are kept.
pub open spec fn kept_bytes(response: ResponseHead, resumed_bytes: u64) -> u64 {
    if can_resume(response, resumed_bytes) {
        resumed_bytes
    } else {
        0
    }
}

/// The plan for a response to a request that resumes after `resumed_bytes`
/// bytes. What the response says about the size comes before what was known.
pub open spec fn planned(
    response: ResponseHead,
    remote_total: Option<u64>,
    resumed_bytes: u64,
) -> PlanView {
    PlanView {
        resumed_bytes: kept_bytes(response, resumed_bytes),
        total_bytes: match response.whole_size(kept_bytes(response, resumed_bytes) as nat) {
            Some(total) => Some(total as u64),
            None => remote_total,
        },
        append_mode: can_resume(response, resumed_bytes),
        status_message: if resumed_bytes == 0 {
            "开始下载"@
        } else if can_resume(response, resumed_bytes) {
            "继续下载（"@ + size::size_text(resumed_bytes as nat) + "）"@
        } else {
            "重新下载"@
        },
    }
}

/// What is to be done about a file that is already at the target.
#[derive(Debug, Clone, Copy, PartialEq, Eq, Structural)]
pub enum ExistingTarget {
    /// It is the file: nothing is left to download.
    Current,
    /// It has another size than the remote file, and makes way for it.
    Stale,
}

/// What is to be done about an incomplete file when the total is known.
#[derive(Debug, Clone, Copy, PartialEq, Eq, Structural)]
pub enum PartialFile {
    /// It has the full size and only needs its final name.
    Complete,
    /// It is larger than the remote file and makes way for it.
    Oversized,
    /// It can be continued.
    Incomplete,
}

/// The error for a file whose size could not be looked up.
pub open spec fn file_size_error(path: Seq<char>, cause: Seq<char>) -> (Seq<char>, Seq<char>) {
    ("FS-009"@, error::sourced("读取文件信息失败 "@ + path, cause))
}

/// The size of the file at `path`, where `size` is what the system says about it.
pub fn file_size(path: &str, size: Result<u64, String>) -> (res: AppResult<u64>)
    ensures
        error::outcome(res) == match size {
            Ok(bytes) => Ok(bytes),
            Err(cause) => Err(file_size_error(path@, cause@)),
        },
{
    match size {
        Ok(bytes) => Ok(bytes),
        Err(cause) => {
            let mut message: String = "读取文件信息失败 ".to_owned();
            message.append(path);
            Err(AppError::with_source("FS-009", message, cause.as_str()))
        },
    }
}

/// The error for a file that could not be removed.
pub open spec fn remove_error(
    code: Seq<char>,
    message: Seq<char>,
    path: Seq<char>,
    cause: Seq<char>,
) -> (Seq<char>, Seq<char>) {
    (code, error::sourced(message + " "@ + path, cause))
}

/// What came of removing the file at `path`, where `removed` is what the system
/// says about it.
pub fn remove_file(
    path: &str,
    code: &'static str,
    message: &str,
    removed: Result<(), String>,
) -> (res: AppResult<()>)
    ensures
        error::outcome(res) == match removed {
            Ok(_) => Ok(()),
            Err(cause) => Err(remove_error(code@, message@, path@, cause@)),
        },
{
    match removed {
        Ok(_) => Ok(()),
        Err(cause) => {
            let mut full: String = message.to_owned();
            full.append(" ");
            full.append(path);
            Err(AppError::with_source(code, full, cause.as_str()))
        },
    }
}

/// How far a download has come: which piece of work is next, and what is known
/// by then. `remote_total` is the size of the remote file, if it is known.
#[derive(Debug)]
pub enum Phase {
    /// Ask for the size of the remote file.
    Probing,
    /// Look whether there is a file at the target.
    CheckingTarget { remote_total: Option<u64> },
    /// There is one: look whether there is an incomplete file beside it.
    CheckingBeside { remote_total: Option<u64> },
    /// There is none: look up the size of the target.
    SizingTarget { remote_total: Option<u64> },
    /// The target is stale: remove it.
    RemovingStale { remote_total: Option<u64> },
    /// Look whether there is an incomplete file that may be complete.
    CheckingComplete { total: u64 },
    /// Look up its size.
    SizingComplete { total: u64 },
    /// It is too large: remove it.
    RemovingOversized { total: u64 },
    /// Look whether there is an incomplete file to continue.
    CheckingPartial { remote_total: Option<u64> },
    /// Look up its size.
    SizingPartial { remote_total: Option<u64> },
    /// Request what comes after `resumed_bytes` bytes.
    Requesting { remote_total: Option<u64>, resumed_bytes: u64 },
    /// Open the incomplete file.
    Opening { plan: DownloadPlan },
    /// Read from the response; `downloaded_bytes` bytes are in the file, and
    /// `reported` says whether a chunk of the response was reported yet.
    Reading { downloaded_bytes: u64, total_bytes: Option<u64>, reported: bool },
    /// Write the `chunk` bytes that were read.
    Writing { downloaded_bytes: u64, total_bytes: Option<u64>, reported: bool, chunk: usize },
    /// The response is at its end: flush the file.
    Flushing { downloaded_bytes: u64, total_bytes: Option<u64> },
    /// The file is complete: look whether there is a file at the target.
    CheckingReplaced { downloaded_bytes: u64, total_bytes: Option<u64> },
    /// There is one: remove it.
    RemovingReplaced { downloaded_bytes: u64, total_bytes: Option<u64> },
    /// Give the file its final name.
    Renaming { downloaded_bytes: u64, total_bytes: Option<u64> },
    /// The file is at the target, or the download failed.
    Finished { outcome: AppResult<()> },
}

/// A phase by what it says.
pub enum PhaseView {
    Probing,
    CheckingTarget { remote_total: Option<u64> },
    CheckingBeside { remote_total: Option<u64> },
    SizingTarget { remote_total: Option<u64> },
    RemovingStale { remote_total: Option<u64> },
    CheckingComplete { total: u64 },
    SizingComplete { total: u64 },
    RemovingOversized { total: u64 },
    CheckingPartial { remote_total: Option<u64> },
    SizingPartial { remote_total: Option<u64> },
    Requesting { remote_total: Option<u64>, resumed_bytes: u64 },
    Opening { plan: PlanView },
    Reading { downloaded_bytes: u64, total_bytes: Option<u64>, reported: bool },
    Writing { downloaded_bytes: u64, total_bytes: Option<u64>, reported: bool, chunk: usize },
    Flushing { downloaded_bytes: u64, total_bytes: Option<u64> },
    CheckingReplaced { downloaded_bytes: u64, total_bytes: Option<u64> },
    RemovingReplaced { downloaded_bytes: u64, total_bytes: Option<u64> },
    Renaming { downloaded_bytes: u64, total_bytes: Option<u64> },
    Finished { outcome: Result<(), (Seq<char>, Seq<char>)> },
}

impl View for Phase {
    type V = PhaseView;

    open spec fn view(&self) -> PhaseView {
        match *self {
            Phase::Probing => PhaseView::Probing,
            Phase::CheckingTarget { remote_total } => PhaseView::CheckingTarget { remote_total },
            Phase::CheckingBeside { remote_total } => PhaseView::CheckingBeside { remote_total },
            Phase::SizingTarget { remote_total } => PhaseView::SizingTarget { remote_total },
            Phase::RemovingStale { remote_total } => PhaseView::RemovingStale { remote_total },
            Phase::CheckingComplete { total } => PhaseView::CheckingComplete { total },
            Phase::SizingComplete { total } => PhaseView::SizingComplete { total },
            Phase::RemovingOversized { total } => PhaseView::RemovingOversized { total },
            Phase::CheckingPartial { remote_total } => PhaseView::CheckingPartial { remote_total },
            Phase::SizingPartial { remote_total } => PhaseView::SizingPartial { remote_total },
            Phase::Requesting { remote_total, resumed_bytes } => PhaseView::Requesting {
                remote_total,
                resumed_bytes,
            },
            Phase::Opening { plan } => PhaseView::Opening { plan: plan@ },
            Phase::Reading { downloaded_bytes, total_bytes, reported } => PhaseView::Reading {
                downloaded_bytes,
                total_bytes,
                reported,
            },
            Phase::Writing { downloaded_bytes, total_bytes, reported, chunk } => {
                PhaseView::Writing { downloaded_bytes, total_bytes, reported, chunk }
            },
            Phase::Flushing { downloaded_bytes, total_bytes } => PhaseView::Flushing {
                downloaded_bytes,
                total_bytes,
            },
            Phase::CheckingReplaced { downloaded_bytes, total_bytes } => {
                PhaseView::CheckingReplaced { downloaded_bytes, total_bytes }
            },
            Phase::RemovingReplaced { downloaded_bytes, total_bytes } => {
                PhaseView::RemovingReplaced { downloaded_bytes, total_bytes }
            },
            Phase::Renaming { downloaded_bytes, total_bytes } => PhaseView::Renaming {
                downloaded_bytes,
                total_bytes,
            },
            Phase::Finished { outcome } => PhaseView::Finished { outcome: error::outcome(outcome) },
        }
    }
}

/// A download.
#[derive(Debug)]
pub struct Downloader {
    pub url: String,
    pub paths: DownloadPaths,
    pub phase: Phase,
}

/// A download by what it says.
pub struct DownloaderView {
    pub url: Seq<char>,
    pub target: Seq<char>,
    pub temp: Seq<char>,
    pub phase: PhaseView,
}

impl View for Downloader {
    type V = DownloaderView;

    open spec fn view(&self) -> DownloaderView {
        DownloaderView {
            url: self.url@,
            target: self.paths.target@,
            temp: self.paths.temp@,
            phase: self.phase@,
        }
    }
}

/// The `Range` header of a request that resumes after `resumed_bytes` bytes.
pub open spec fn range_of(resumed_bytes: u64) -> Option<Seq<char>> {
    if resumed_bytes > 0 {
        Some("bytes="@ + text::decimal(resumed_bytes as nat) + "-"@)
    } else {
        None
    }
}

/// The phase after a look at the target that left the download to be done.
pub open spec fn past_target(remote_total: Option<u64>) -> PhaseView {
    match remote_total {
        Some(total) => PhaseView::CheckingComplete { total },
        None => PhaseView::CheckingPartial { remote_total },
    }
}

/// What is to be done about a file of the given size at the target.
pub open spec fn existing_target(remote_total: Option<u64>, existing_size: u64) -> ExistingTarget {
    if remote_total is Some && remote_total != Some(existing_size) {
        ExistingTarget::Stale
    } else {
        ExistingTarget::Current
    }
}

/// What is to be done about an incomplete file of the given size.
pub open spec fn partial_file(total: u64, partial_size: u64) -> PartialFile {
    if partial_size == total {
        PartialFile::Complete
    } else if partial_size > total {
        PartialFile::Oversized
    } else {
        PartialFile::Incomplete
    }
}

/// The status of a response whose body is the file, or the rest of it.
pub open spec fn is_accepted(status: u16) -> bool {
    response::is_success(status) || status == response::PARTIAL_CONTENT
}

/// The error for a file that could not be opened.
pub open spec fn open_error(
    append: bool,
    path: Seq<char>,
    cause: Seq<char>,
) -> (Seq<char>, Seq<char>) {
    if append {
        ("FS-004"@, error::sourced("无法打开临时文件 "@ + path, cause))
    } else {
        ("FS-005"@, error::sourced("无法创建临时文件 "@ + path, cause))
    }
}

/// The error for a response that ended too early or too late.
pub open spec fn size_error(downloaded_bytes: u64, total: u64) -> (Seq<char>, Seq<char>) {
    (
        "NET-005"@,
        "下载不完整：已下载 "@ + size::size_text(downloaded_bytes as nat) + "，预期 "@ + size::size_text(
            total as nat,
        ),
    )
}

impl DownloaderView {
    /// The work to do next.
    pub open spec fn action(self) -> ActionView {
        match self.phase {
            PhaseView::Probing => ActionView::Probe { url: self.url },
            PhaseView::CheckingTarget { .. } => ActionView::Exists { path: self.target },
            PhaseView::CheckingBeside { .. } => ActionView::Exists { path: self.temp },
            PhaseView::SizingTarget { .. } => ActionView::FileSize { path: self.target },
            PhaseView::RemovingStale { .. } => ActionView::Remove { path: self.target },
            PhaseView::CheckingComplete { .. } => ActionView::Exists { path: self.temp },
            PhaseView::SizingComplete { .. } => ActionView::FileSize { path: self.temp },
            PhaseView::RemovingOversized { .. } => ActionView::Remove { path: self.temp },
            PhaseView::CheckingPartial { .. } => ActionView::Exists { path: self.temp },
            PhaseView::SizingPartial { .. } => ActionView::FileSize { path: self.temp },
            PhaseView::Requesting { resumed_bytes, .. } => ActionView::Send {
                url: self.url,
                range: range_of(resumed_bytes),
            },
            PhaseView::Opening { plan } => ActionView::Open {
                path: self.temp,
                append: plan.append_mode,
            },
            PhaseView::Reading { .. } => ActionView::Read,
            PhaseView::Writing { .. } => ActionView::Write,
            PhaseView::Flushing { .. } => ActionView::Flush,
            PhaseView::CheckingReplaced { .. } => ActionView::Exists { path: self.target },
            PhaseView::RemovingReplaced { .. } => ActionView::Remove { path: self.target },
            PhaseView::Renaming { .. } => ActionView::Rename { from: self.temp, to: self.target },
            PhaseView::Finished { .. } => ActionView::Finish,
        }
    }

    /// The event can answer the work that is next, and every byte count that
    /// follows from it fits in 64 bits.
    pub open spec fn accepts(self, event: Event) -> bool {
        match self.phase {
            PhaseView::Probing => event is Probed,
            PhaseView::CheckingTarget { .. } => event is Exists,
            PhaseView::CheckingBeside { .. } => event is Exists,
            PhaseView::SizingTarget { .. } => event is Size,
            PhaseView::RemovingStale { .. } => event is Done,
            PhaseView::CheckingComplete { .. } => event is Exists,
            PhaseView::SizingComplete { .. } => event is Size,
            PhaseView::RemovingOversized { .. } => event is Done,
            PhaseView::CheckingPartial { .. } => event is Exists,
            PhaseView::SizingPartial { .. } => event is Size,
            PhaseView::Requesting { resumed_bytes, .. } => {
                &&& event is Responded
                &&& event matches Event::Responded(Ok(head)) ==> is_accepted(head.status)
                    ==> head.size_fits(kept_bytes(head, resumed_bytes) as nat)
            },
            PhaseView::Opening { .. } => event is Done,
            PhaseView::Reading { downloaded_bytes, .. } => {
                &&& event is Read
                &&& event matches Event::Read(Ok(n)) ==> downloaded_bytes + n <= u64::MAX
            },
            PhaseView::Writing { downloaded_bytes, chunk, .. } => {
                &&& event is Written
                &&& downloaded_bytes + chunk <= u64::MAX
            },
            PhaseView::Flushing { .. } => event is Flushed,
            PhaseView::CheckingReplaced { .. } => event is Exists,
            PhaseView::RemovingReplaced { .. } => event is Done,
            PhaseView::Renaming { .. } => event is Done,
            PhaseView::Finished { .. } => false,
        }
    }

    /// The phase after an event, and what the user is told about it.
    pub open spec fn next(self, event: Event) -> (PhaseView, Seq<EventView>) {
        match (self.phase, event) {
            (PhaseView::Probing, Event::Probed(head)) => silent(
                PhaseView::CheckingTarget { remote_total: response::probed_size(head) },
            ),
            (PhaseView::CheckingTarget { remote_total }, Event::Exists(there)) => silent(
                if there {
                    PhaseView::CheckingBeside { remote_total }
                } else {
                    past_target(remote_total)
                },
            ),
            (PhaseView::CheckingBeside { remote_total }, Event::Exists(there)) => silent(
                if there {
                    past_target(remote_total)
                } else {
                    PhaseView::SizingTarget { remote_total }
                },
            ),
            (PhaseView::SizingTarget { remote_total }, Event::Size(Ok(bytes))) => match existing_target(
                remote_total,
                bytes,
            ) {
                ExistingTarget::Stale => silent(PhaseView::RemovingStale { remote_total }),
                ExistingTarget::Current => (
                    PhaseView::Finished { outcome: Ok(()) },
                    seq![report::done_event("文件已存在"@, self.target, bytes, remote_total)],
                ),
            },
            (PhaseView::SizingTarget { .. }, Event::Size(Err(cause))) => failed(
                file_size_error(self.target, cause@),
            ),
            (PhaseView::RemovingStale { remote_total }, Event::Done(Ok(_))) => silent(
                past_target(remote_total),
            ),
            (PhaseView::RemovingStale { .. }, Event::Done(Err(cause))) => failed(
                remove_error("FS-002"@, "清理旧文件失败"@, self.target, cause@),
            ),
            (PhaseView::CheckingComplete { total }, Event::Exists(there)) => silent(
                if there {
                    PhaseView::SizingComplete { total }
                } else {
                    PhaseView::CheckingPartial { remote_total: Some(total) }
                },
            ),
            (PhaseView::SizingComplete { total }, Event::Size(Ok(bytes))) => silent(
                match partial_file(total, bytes) {
                    PartialFile::Complete => PhaseView::CheckingReplaced {
                        downloaded_bytes: total,
                        total_bytes: Some(total),
                    },
                    PartialFile::Oversized => PhaseView::RemovingOversized { total },
                    PartialFile::Incomplete => PhaseView::CheckingPartial {
                        remote_total: Some(total),
                    },
                },
            ),
            (PhaseView::SizingComplete { .. }, Event::Size(Err(cause))) => failed(
                file_size_error(self.temp, cause@),
            ),
            (PhaseView::RemovingOversized { total }, Event::Done(Ok(_))) => silent(
                PhaseView::CheckingPartial { remote_total: Some(total) },
            ),
            (PhaseView::RemovingOversized { .. }, Event::Done(Err(cause))) => failed(
                remove_error("FS-003"@, "清理临时文件失败"@, self.temp, cause@),
            ),
            (PhaseView::CheckingPartial { remote_total }, Event::Exists(there)) => silent(
                if there {
                    PhaseView::SizingPartial { remote_total }
                } else {
                    PhaseView::Requesting { remote_total, resumed_bytes: 0 }
                },
            ),
            (PhaseView::SizingPartial { remote_total }, Event::Size(Ok(bytes))) => silent(
                PhaseView::Requesting { remote_total, resumed_bytes: bytes },
            ),
            (PhaseView::SizingPartial { .. }, Event::Size(Err(cause))) => failed(
                file_size_error(self.temp, cause@),
            ),
            (PhaseView::Requesting { remote_total, resumed_bytes }, Event::Responded(Ok(head))) => {
                if is_accepted(head.status) {
                    silent(PhaseView::Opening { plan: planned(head, remote_total, resumed_bytes) })
                } else {
                    failed(refused_error(head.status, self.url))
                }
            },
            (PhaseView::Requesting { .. }, Event::Responded(Err(failure))) => failed(
                request_error(failure, self.url),
            ),
            (PhaseView::Opening { plan }, Event::Done(Ok(_))) => (
                PhaseView::Reading {
                    downloaded_bytes: plan.resumed_bytes,
                    total_bytes: plan.total_bytes,
                    reported: false,
                },
                seq![
                    report::info_event(plan.status_message),
                    report::progress_event(plan.resumed_bytes, plan.total_bytes),
                ],
            ),
            (PhaseView::Opening { plan }, Event::Done(Err(cause))) => failed(
                open_error(plan.append_mode, self.temp, cause@),
            ),
            (
                PhaseView::Reading { downloaded_bytes, total_bytes, reported },
                Event::Read(Ok(chunk)),
            ) => silent(
                if chunk == 0 {
                    PhaseView::Flushing { downloaded_bytes, total_bytes }
                } else {
                    PhaseView::Writing { downloaded_bytes, total_bytes, reported, chunk }
                },
            ),
            (PhaseView::Reading { .. }, Event::Read(Err(failure))) => failed(
                read_error(failure),
            ),
            (
                PhaseView::Writing { downloaded_bytes, total_bytes, reported, chunk },
                Event::Written { outcome: Ok(_), elapsed_ms },
            ) => {
                let downloaded_bytes = (downloaded_bytes + chunk) as u64;
                (
                    PhaseView::Reading { downloaded_bytes, total_bytes, reported: true },
                    if !reported || elapsed_ms >= PROGRESS_INTERVAL_MS {
                        seq![report::progress_event(downloaded_bytes, total_bytes)]
                    } else {
                        seq![]
                    },
                )
            },
            (PhaseView::Writing { .. }, Event::Written { outcome: Err(cause), .. }) => failed(
                write_error(cause@),
            ),
            (PhaseView::Flushing { downloaded_bytes, total_bytes }, Event::Flushed) => {
                if total_bytes is Some && total_bytes != Some(downloaded_bytes) {
                    failed(size_error(downloaded_bytes, total_bytes->0))
                } else {
                    silent(PhaseView::CheckingReplaced { downloaded_bytes, total_bytes })
                }
            },
            (
                PhaseView::CheckingReplaced { downloaded_bytes, total_bytes },
                Event::Exists(there),
            ) => silent(
                if there {
                    PhaseView::RemovingReplaced { downloaded_bytes, total_bytes }
                } else {
                    PhaseView::Renaming { downloaded_bytes, total_bytes }
                },
            ),
            (
                PhaseView::RemovingReplaced { downloaded_bytes, total_bytes },
                Event::Done(Ok(_)),
            ) => silent(PhaseView::Renaming { downloaded_bytes, total_bytes }),
            (PhaseView::RemovingReplaced { .. }, Event::Done(Err(cause))) => failed(
                remove_error("FS-007"@, "替换旧文件失败"@, self.target, cause@),
            ),
            (PhaseView::Renaming { downloaded_bytes, total_bytes }, Event::Done(Ok(_))) => (
                PhaseView::Finished { outcome: Ok(()) },
                seq![
                    report::done_event("下载完成"@, self.target, downloaded_bytes, total_bytes),
                ],
            ),
            (PhaseView::Renaming { .. }, Event::Done(Err(cause))) => failed(
                rename_error(self.target, cause@),
            ),
            _ => silent(self.phase),
        }
    }
}

/// A new phase about which the user is told nothing.
pub open spec fn silent(phase: PhaseView) -> (PhaseView, Seq<EventView>) {
    (phase, seq![])
}

/// The end of a download that failed.
pub open spec fn failed(error: (Seq<char>, Seq<char>)) -> (PhaseView, Seq<EventView>) {
    silent(PhaseView::Finished { outcome: Err(error) })
}

/// The error for a response that could not be read.
pub open spec fn read_error(failure: IoFailure) -> (Seq<char>, Seq<char>) {
    ("NET-004"@, "读取下载数据失败："@ + error::io_failure_text(failure))
}

/// The error for a file that could not be written.
pub open spec fn write_error(cause: Seq<char>) -> (Seq<char>, Seq<char>) {
    ("FS-006"@, error::sourced("写入下载文件失败"@, cause))
}

/// The error for a file that could not be given its final name.
pub open spec fn rename_error(target: Seq<char>, cause: Seq<char>) -> (Seq<char>, Seq<char>) {
    ("FS-008"@, error::sourced("写入目标文件失败 "@ + target, cause))
}

/// The error for a request that got no response.
pub open spec fn request_error(failure: RequestFailure, url: Seq<char>) -> (Seq<char>, Seq<char>) {
    ("NET-002"@, "下载请求失败："@ + error::request_failure_text(failure) + "，地址："@ + url)
}

/// The error for a request that the server refused.
pub open spec fn refused_error(status: u16, url: Seq<char>) -> (Seq<char>, Seq<char>) {
    ("NET-003"@, "下载被服务器拒绝：HTTP "@ + text::decimal(status as nat) + "，地址："@ + url)
}

/// A list of one report.
fn one(report: DownloadEvent) -> (reports: Vec<DownloadEvent>)
    ensures
        report::views(reports@) == seq![report@],
{
    let mut reports: Vec<DownloadEvent> = Vec::new();
    reports.push(report);
    assert(report::views(reports@) =~= seq![report@]);
    reports
}

/// A list of no reports.
fn none() -> (reports: Vec<DownloadEvent>)
    ensures
        report::views(reports@) == Seq::<EventView>::empty(),
{
    let reports: Vec<DownloadEvent> = Vec::new();
    assert(report::views(reports@) =~= Seq::<EventView>::empty());
    reports
}

impl Downloader {
    /// A download of `url` to `target`, at its start.
    pub fn new(url: String, target: String) -> (downloader: Self)
        ensures
            downloader@.url == url@,
            downloader@.target == target@,
            paths::is_partial_path(target@, downloader@.temp),
            downloader@.temp != target@,
            downloader@.phase == PhaseView::Probing,
    {
        Downloader { url, paths: DownloadPaths::new(target), phase: Phase::Probing }
    }

    /// What is to be done about a file of `existing_size` bytes at the target.
    pub fn handle_existing_target(
        &self,
        remote_total: Option<u64>,
        existing_size: u64,
    ) -> (res: ExistingTarget)
        ensures
            res == existing_target(remote_total, existing_size),
    {
        match remote_total {
            Some(total) => if total != existing_size {
                ExistingTarget::Stale
            } else {
                ExistingTarget::Current
            },
            None => ExistingTarget::Current,
        }
    }

    /// What is to be done about an incomplete file of `partial_size` bytes when
    /// the whole file has `total`.
    pub fn handle_completed_partial(&self, total: u64, partial_size: u64) -> (res: PartialFile)
        ensures
            res == partial_file(total, partial_size),
    {
        if partial_size == total {
            return PartialFile::Complete;
        }
        if partial_size > total {
            return PartialFile::Oversized;
        }
        PartialFile::Incomplete
    }

    /// The bytes in the incomplete file: none where there is no such file, and
    /// else what the system says about it.
    pub fn partial_size(&self, size: Option<Result<u64, String>>) -> (res: AppResult<u64>)
        ensures
            error::outcome(res) == match size {
                Some(Ok(bytes)) => Ok(bytes),
                Some(Err(cause)) => Err(file_size_error(self@.temp, cause@)),
                None => Ok(0),
            },
    {
        match size {
            Some(size) => file_size(self.paths.temp.as_str(), size),
            None => Ok(0),
        }
    }

    /// The `Range` header of a request that resumes after `resumed_bytes` bytes.
    pub fn range_header(&self, resumed_bytes: u64) -> (res: Option<String>)
        ensures
            text::chars_or_none(res) == range_of(resumed_bytes),
    {
        if resumed_bytes > 0 {
            let mut range: String = "bytes=".to_owned();
            range.append(text::decimal_text(resumed_bytes).as_str());
            range.append("-");
            Some(range)
        } else {
            None
        }
    }

    /// The response to the request for the file, where `sent` is what came of it.
    pub fn request_download(&self, sent: Result<ResponseHead, RequestFailure>) -> (res: AppResult<
        ResponseHead,
    >)
        ensures
            error::outcome(res) == match sent {
                Ok(head) => if is_accepted(head.status) {
                    Ok(head)
                } else {
                    Err(refused_error(head.status, self@.url))
                },
                Err(failure) => Err(request_error(failure, self@.url)),
            },
    {
        match sent {
            Ok(head) => {
                if !response::status_is_success(head.status) && head.status
                    != response::PARTIAL_CONTENT {
                    let mut message: String = "下载被服务器拒绝：HTTP ".to_owned();
                    message.append(text::decimal_text(head.status as u64).as_str());
                    message.append("，地址：");
                    message.append(self.url.as_str());
                    return Err(AppError::new("NET-003", message));
                }
                Ok(head)
            },
            Err(failure) => {
                let mut message: String = "下载请求失败：".to_owned();
                message.append(error::describe_reqwest_error(&failure).as_str());
                message.append("，地址：");
                message.append(self.url.as_str());
                Err(AppError::new("NET-002", message))
            },
        }
    }

    /// How the response is turned into a file.
    pub fn build_plan(
        &self,
        response: &ResponseHead,
        remote_total: Option<u64>,
        resumed_bytes: u64,
    ) -> (plan: DownloadPlan)
        requires
            response.size_fits(kept_bytes(*response, resumed_bytes) as nat),
        ensures
            plan@ == planned(*response, remote_total, resumed_bytes),
    {
        let can_resume: bool = resumed_bytes > 0 && response.status == response::PARTIAL_CONTENT;
        let effective_resumed: u64 = if can_resume {
            resumed_bytes
        } else {
            0
        };
        let total_bytes: Option<u64> = match response::total_bytes_from_response(
            response,
            effective_resumed,
        ) {
            Some(total) => Some(total),
            None => remote_total,
        };
        let status_message: String = if resumed_bytes == 0 {
            "开始下载".to_owned()
        } else if can_resume {
            let mut message: String = "继续下载（".to_owned();
            message.append(size::format_bytes(resumed_bytes).as_str());
            message.append("）");
            message
        } else {
            "重新下载".to_owned()
        };
        DownloadPlan {
            resumed_bytes: effective_resumed,
            total_bytes,
            append_mode: can_resume,
            status_message,
        }
    }

    /// What came of opening the incomplete file, where `opened` is what the
    /// system says about it.
    pub fn open_partial_file(&self, append_mode: bool, opened: Result<(), String>) -> (res:
        AppResult<()>)
        ensures
            error::outcome(res) == match opened {
                Ok(_) => Ok(()),
                Err(cause) => Err(open_error(append_mode, self@.temp, cause@)),
            },
    {
        match opened {
            Ok(_) => Ok(()),
            Err(cause) => if append_mode {
                let mut message: String = "无法打开临时文件 ".to_owned();
                message.append(self.paths.temp.as_str());
                Err(AppError::with_source("FS-004", message, cause.as_str()))
            } else {
                let mut message: String = "无法创建临时文件 ".to_owned();
                message.append(self.paths.temp.as_str());
                Err(AppError::with_source("FS-005", message, cause.as_str()))
            },
        }
    }

    /// What came of reading from the response.
    pub fn read_chunk(&self, read: Result<usize, IoFailure>) -> (res: AppResult<usize>)
        ensures
            error::outcome(res) == match read {
                Ok(chunk) => Ok(chunk),
                Err(failure) => Err(read_error(failure)),
            },
    {
        match read {
            Ok(chunk) => Ok(chunk),
            Err(failure) => {
                let mut message: String = "读取下载数据失败：".to_owned();
                message.append(error::describe_io_error(&failure).as_str());
                Err(AppError::new("NET-004", message))
            },
        }
    }

    /// What came of writing to the incomplete file.
    pub fn write_chunk(&self, written: Result<(), String>) -> (res: AppResult<()>)
        ensures
            error::outcome(res) == match written {
                Ok(_) => Ok(()),
                Err(cause) => Err(write_error(cause@)),
            },
    {
        match written {
            Ok(_) => Ok(()),
            Err(cause) => Err(
                AppError::with_source("FS-006", "写入下载文件失败".to_owned(), cause.as_str()),
            ),
        }
    }

    /// What a response at its end has brought: the bytes in the file, unless
    /// another number was expected.
    pub fn check_complete(&self, downloaded_bytes: u64, total_bytes: Option<u64>) -> (res:
        AppResult<u64>)
        ensures
            error::outcome(res) == if total_bytes is Some && total_bytes != Some(
                downloaded_bytes,
            ) {
                Err(size_error(downloaded_bytes, total_bytes->0))
            } else {
                Ok(downloaded_bytes)
            },
    {
        if let Some(total) = total_bytes {
            if downloaded_bytes != total {
                let mut message: String = "下载不完整：已下载 ".to_owned();
                message.append(size::format_bytes(downloaded_bytes).as_str());
                message.append("，预期 ");
                message.append(size::format_bytes(total).as_str());
                return Err(AppError::new("NET-005", message));
            }
        }
        Ok(downloaded_bytes)
    }

    /// What came of giving the file its final name.
    pub fn finalize(&self, renamed: Result<(), String>) -> (res: AppResult<()>)
        ensures
            error::outcome(res) == match renamed {
                Ok(_) => Ok(()),
                Err(cause) => Err(rename_error(self@.target, cause@)),
            },
    {
        match renamed {
            Ok(_) => Ok(()),
            Err(cause) => {
                let mut message: String = "写入目标文件失败 ".to_owned();
                message.append(self.paths.target.as_str());
                Err(AppError::with_source("FS-008", message, cause.as_str()))
            },
        }
    }

    /// The work to do next.
    pub fn action(&self) -> (action: Action)
        ensures
            action@ == self@.action(),
    {
        match &self.phase {
            Phase::Probing => Action::Probe { url: self.url.clone() },
            Phase::CheckingTarget { .. } => Action::Exists { path: self.paths.target.clone() },
            Phase::CheckingBeside { .. } => Action::Exists { path: self.paths.temp.clone() },
            Phase::SizingTarget { .. } => Action::FileSize { path: self.paths.target.clone() },
            Phase::RemovingStale { .. } => Action::Remove { path: self.paths.target.clone() },
            Phase::CheckingComplete { .. } => Action::Exists { path: self.paths.temp.clone() },
            Phase::SizingComplete { .. } => Action::FileSize { path: self.paths.temp.clone() },
            Phase::RemovingOversized { .. } => Action::Remove { path: self.paths.temp.clone() },
            Phase::CheckingPartial { .. } => Action::Exists { path: self.paths.temp.clone() },
            Phase::SizingPartial { .. } => Action::FileSize { path: self.paths.temp.clone() },
            Phase::Requesting { resumed_bytes, .. } => Action::Send {
                url: self.url.clone(),
                range: self.range_header(*resumed_bytes),
            },
            Phase::Opening { plan } => Action::Open {
                path: self.paths.temp.clone(),
                append: plan.append_mode,
            },
            Phase::Reading { .. } => Action::Read,
            Phase::Writing { .. } => Action::Write,
            Phase::Flushing { .. } => Action::Flush,
            Phase::CheckingReplaced { .. } => Action::Exists { path: self.paths.target.clone() },
            Phase::RemovingReplaced { .. } => Action::Remove { path: self.paths.target.clone() },
            Phase::Renaming { .. } => Action::Rename {
                from: self.paths.temp.clone(),
                to: self.paths.target.clone(),
            },
            Phase::Finished { .. } => Action::Finish,
        }
    }
}

/// The phase after a look at the target that left the download to be done.
fn past_target_phase(remote_total: Option<u64>) -> (phase: Phase)
    ensures
        phase@ == past_target(remote_total),
{
    match remote_total {
        Some(total) => Phase::CheckingComplete { total },
        None => Phase::CheckingPartial { remote_total: None },
    }
}

impl Downloader {
    /// Whether the event can answer the work that is next, and every byte count
    /// that follows from it fits in 64 bits.
    pub fn accepts(&self, event: &Event) -> (res: bool)
        ensures
            res == self@.accepts(*event),
    {
        match (&self.phase, event) {
            (Phase::Probing, Event::Probed(_)) => true,
            (Phase::CheckingTarget { .. }, Event::Exists(_)) => true,
            (Phase::CheckingBeside { .. }, Event::Exists(_)) => true,
            (Phase::SizingTarget { .. }, Event::Size(_)) => true,
            (Phase::RemovingStale { .. }, Event::Done(_)) => true,
            (Phase::CheckingComplete { .. }, Event::Exists(_)) => true,
            (Phase::SizingComplete { .. }, Event::Size(_)) => true,
            (Phase::RemovingOversized { .. }, Event::Done(_)) => true,
            (Phase::CheckingPartial { .. }, Event::Exists(_)) => true,
            (Phase::SizingPartial { .. }, Event::Size(_)) => true,
            (Phase::Requesting { resumed_bytes, .. }, Event::Responded(sent)) => match sent {
                Ok(head) => {
                    if response::status_is_success(head.status) || head.status
                        == response::PARTIAL_CONTENT {
                        let kept: u64 = if *resumed_bytes > 0 && head.status
                            == response::PARTIAL_CONTENT {
                            *resumed_bytes
                        } else {
                            0
                        };
                        response::total_fits(head, kept)
                    } else {
                        true
                    }
                },
                Err(_) => true,
            },
            (Phase::Opening { .. }, Event::Done(_)) => true,
            (Phase::Reading { downloaded_bytes, .. }, Event::Read(read)) => match read {
                Ok(chunk) => *chunk as u64 <= u64::MAX - *downloaded_bytes,
                Err(_) => true,
            },
            (Phase::Writing { downloaded_bytes, chunk, .. }, Event::Written { .. }) => *chunk as u64
                <= u64::MAX - *downloaded_bytes,
            (Phase::Flushing { .. }, Event::Flushed) => true,
            (Phase::CheckingReplaced { .. }, Event::Exists(_)) => true,
            (Phase::RemovingReplaced { .. }, Event::Done(_)) => true,
            (Phase::Renaming { .. }, Event::Done(_)) => true,
            _ => false,
        }
    }

    /// The phase after `phase`, given the event that answers its work, and what
    /// the user is told about it.
    fn advance(&self, phase: Phase, event: Event) -> (res: (Phase, Vec<DownloadEvent>))
        requires
            (DownloaderView { phase: phase@, ..self@ }).accepts(event),
        ensures
            (res.0@, report::views(res.1@)) == (DownloaderView { phase: phase@, ..self@ }).next(
                event,
            ),
    {
        let reporter: Reporter = Reporter;
        match (phase, event) {
            (Phase::Probing, Event::Probed(head)) => (
                Phase::CheckingTarget { remote_total: response::probe_remote_size(&head) },
                none(),
            ),
            (Phase::CheckingTarget { remote_total }, Event::Exists(there)) => (
                if there {
                    Phase::CheckingBeside { remote_total }
                } else {
                    past_target_phase(remote_total)
                },
                none(),
            ),
            (Phase::CheckingBeside { remote_total }, Event::Exists(there)) => (
                if there {
                    past_target_phase(remote_total)
                } else {
                    Phase::SizingTarget { remote_total }
                },
                none(),
            ),
            (Phase::SizingTarget { remote_total }, Event::Size(size)) => match file_size(
                self.paths.target.as_str(),
                size,
            ) {
                Ok(bytes) => match self.handle_existing_target(remote_total, bytes) {
                    ExistingTarget::Stale => (Phase::RemovingStale { remote_total }, none()),
                    ExistingTarget::Current => (
                        Phase::Finished { outcome: Ok(()) },
                        one(
                            reporter.done(
                                "文件已存在",
                                self.paths.target.as_str(),
                                bytes,
                                remote_total,
                            ),
                        ),
                    ),
                },
                Err(error) => (Phase::Finished { outcome: Err(error) }, none()),
            },
            (Phase::RemovingStale { remote_total }, Event::Done(removed)) => match remove_file(
                self.paths.target.as_str(),
                "FS-002",
                "清理旧文件失败",
                removed,
            ) {
                Ok(_) => (past_target_phase(remote_total), none()),
                Err(error) => (Phase::Finished { outcome: Err(error) }, none()),
            },
            (Phase::CheckingComplete { total }, Event::Exists(there)) => (
                if there {
                    Phase::SizingComplete { total }
                } else {
                    Phase::CheckingPartial { remote_total: Some(total) }
                },
                none(),
            ),
            (Phase::SizingComplete { total }, Event::Size(size)) => match file_size(
                self.paths.temp.as_str(),
                size,
            ) {
                Ok(bytes) => match self.handle_completed_partial(total, bytes) {
                    PartialFile::Complete => (
                        Phase::CheckingReplaced {
                            downloaded_bytes: total,
                            total_bytes: Some(total),
                        },
                        none(),
                    ),
                    PartialFile::Oversized => (Phase::RemovingOversized { total }, none()),
                    PartialFile::Incomplete => (
                        Phase::CheckingPartial { remote_total: Some(total) },
                        none(),
                    ),
                },
                Err(error) => (Phase::Finished { outcome: Err(error) }, none()),
            },
            (Phase::RemovingOversized { total }, Event::Done(removed)) => match remove_file(
                self.paths.temp.as_str(),
                "FS-003",
                "清理临时文件失败",
                removed,
            ) {
                Ok(_) => (Phase::CheckingPartial { remote_total: Some(total) }, none()),
                Err(error) => (Phase::Finished { outcome: Err(error) }, none()),
            },
            (Phase::CheckingPartial { remote_total }, Event::Exists(there)) => {
                if there {
                    return (Phase::SizingPartial { remote_total }, none());
                }
                match self.partial_size(None) {
                    Ok(resumed_bytes) => (Phase::Requesting { remote_total, resumed_bytes }, none()),
                    Err(error) => (Phase::Finished { outcome: Err(error) }, none()),
                }
            },
            (Phase::SizingPartial { remote_total }, Event::Size(size)) => match self.partial_size(
                Some(size),
            ) {
                Ok(resumed_bytes) => (Phase::Requesting { remote_total, resumed_bytes }, none()),
                Err(error) => (Phase::Finished { outcome: Err(error) }, none()),
            },
            (Phase::Requesting { remote_total, resumed_bytes }, Event::Responded(sent)) => {
                match self.request_download(sent) {
                    Ok(head) => (
                        Phase::Opening { plan: self.build_plan(&head, remote_total, resumed_bytes) },
                        none(),
                    ),
                    Err(error) => (Phase::Finished { outcome: Err(error) }, none()),
                }
            },
            (Phase::Opening { plan }, Event::Done(opened)) => match self.open_partial_file(
                plan.append_mode,
                opened,
            ) {
                Ok(_) => {
                    let info: DownloadEvent = reporter.info(plan.status_message.as_str());
                    let progress: DownloadEvent = reporter.progress(
                        plan.resumed_bytes,
                        plan.total_bytes,
                    );
                    let mut reports: Vec<DownloadEvent> = Vec::new();
                    reports.push(info);
                    reports.push(progress);
                    assert(report::views(reports@) =~= seq![info@, progress@]);
                    (
                        Phase::Reading {
                            downloaded_bytes: plan.resumed_bytes,
                            total_bytes: plan.total_bytes,
                            reported: false,
                        },
                        reports,
                    )
                },
                Err(error) => (Phase::Finished { outcome: Err(error) }, none()),
            },
            (Phase::Reading { downloaded_bytes, total_bytes, reported }, Event::Read(read)) => {
                match self.read_chunk(read) {
                    Ok(chunk) => (
                        if chunk == 0 {
                            Phase::Flushing { downloaded_bytes, total_bytes }
                        } else {
                            Phase::Writing { downloaded_bytes, total_bytes, reported, chunk }
                        },
                        none(),
                    ),
                    Err(error) => (Phase::Finished { outcome: Err(error) }, none()),
                }
            },
            (
                Phase::Writing { downloaded_bytes, total_bytes, reported, chunk },
                Event::Written { outcome, elapsed_ms },
            ) => match self.write_chunk(outcome) {
                Ok(_) => {
                    let downloaded_bytes: u64 = downloaded_bytes + chunk as u64;
                    let reports: Vec<DownloadEvent> = if !reported || elapsed_ms
                        >= PROGRESS_INTERVAL_MS {
                        one(reporter.progress(downloaded_bytes, total_bytes))
                    } else {
                        none()
                    };
                    (Phase::Reading { downloaded_bytes, total_bytes, reported: true }, reports)
                },
                Err(error) => (Phase::Finished { outcome: Err(error) }, none()),
            },
            (Phase::Flushing { downloaded_bytes, total_bytes }, Event::Flushed) => {
                match self.check_complete(downloaded_bytes, total_bytes) {
                    Ok(downloaded_bytes) => (
                        Phase::CheckingReplaced { downloaded_bytes, total_bytes },
                        none(),
                    ),
                    Err(error) => (Phase::Finished { outcome: Err(error) }, none()),
                }
            },
            (Phase::CheckingReplaced { downloaded_bytes, total_bytes }, Event::Exists(there)) => (
                if there {
                    Phase::RemovingReplaced { downloaded_bytes, total_bytes }
                } else {
                    Phase::Renaming { downloaded_bytes, total_bytes }
                },
                none(),
            ),
            (Phase::RemovingReplaced { downloaded_bytes, total_bytes }, Event::Done(removed)) => {
                match remove_file(
                    self.paths.target.as_str(),
                    "FS-007",
                    "替换旧文件失败",
                    removed,
                ) {
                    Ok(_) => (Phase::Renaming { downloaded_bytes, total_bytes }, none()),
                    Err(error) => (Phase::Finished { outcome: Err(error) }, none()),
                }
            },
            (Phase::Renaming { downloaded_bytes, total_bytes }, Event::Done(renamed)) => {
                match self.finalize(renamed) {
                    Ok(_) => (
                        Phase::Finished { outcome: Ok(()) },
                        one(
                            reporter.done(
                                "下载完成",
                                self.paths.target.as_str(),
                                downloaded_bytes,
                                total_bytes,
                            ),
                        ),
                    ),
                    Err(error) => (Phase::Finished { outcome: Err(error) }, none()),
                }
            },
            (phase, _) => (phase, none()),
        }
    }

    /// Takes the event that answers the work that was next, and gives what the
    /// user is told about it.
    pub fn step(&mut self, event: Event) -> (reports: Vec<DownloadEvent>)
        requires
            old(self)@.accepts(event),
        ensures
            final(self)@ == (DownloaderView { phase: old(self)@.next(event).0, ..old(self)@ }),
            report::views(reports@) == old(self)@.next(event).1,
    {
        let mut phase: Phase = Phase::Probing;
        std::mem::swap(&mut self.phase, &mut phase);
        let (phase, reports) = self.advance(phase, event);
        self.phase = phase;
        reports
    }
}

} // verus!
