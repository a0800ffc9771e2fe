use gtlite_installer::config::{
    apply_proxy_prefix, DownloadConfig, ProxyMode, MODPACK_URL, PRESET_PROXY_PREFIX,
};
use gtlite_installer::error::{
    describe_io_error, describe_reqwest_error, AppError, IoFailure, IoFailureKind, RequestFailure,
};
use gtlite_installer::paths::{
    default_output_dir, partial_file_name, partial_path, DownloadPaths, DEFAULT_FILENAME,
};
use std::path::Path;

fn request(filename: Option<&str>, mode: Option<&str>, proxy: Option<&str>) -> DownloadConfig {
    DownloadConfig::from_command(
        Some("out".to_string()),
        filename.map(str::to_string),
        mode.map(str::to_string),
        proxy.map(str::to_string),
        "unused".to_string(),
    )
    .unwrap()
}

#[test]
fn proxy_modes_parse() {
    assert!(matches!(ProxyMode::parse(None), Ok(ProxyMode::Direct)));
    assert!(matches!(ProxyMode::parse(Some("")), Ok(ProxyMode::Direct)));
    assert!(matches!(ProxyMode::parse(Some("  ")), Ok(ProxyMode::Direct)));
    assert!(matches!(ProxyMode::parse(Some("none")), Ok(ProxyMode::Direct)));
    assert!(matches!(ProxyMode::parse(Some(" preset\n")), Ok(ProxyMode::Preset)));
    assert!(matches!(ProxyMode::parse(Some("custom")), Ok(ProxyMode::Custom)));
}

#[test]
fn unknown_proxy_mode_is_an_error() {
    let error = ProxyMode::parse(Some(" Preset ")).unwrap_err();
    assert_eq!(error.to_string(), "[CFG-001] 未知代理模式：Preset");
}

#[test]
fn request_without_choices_gets_the_defaults() {
    let config =
        DownloadConfig::from_command(None, None, None, None, "/home/u/GTLite".to_string()).unwrap();
    assert_eq!(config.output_dir, "/home/u/GTLite");
    assert_eq!(config.output_filename, "gregtech-lite-nightly-curseforge.zip");
    assert!(matches!(config.proxy_mode, ProxyMode::Direct));
    assert_eq!(config.custom_proxy, "");
}

#[test]
fn file_name_is_trimmed_and_must_not_be_empty() {
    assert_eq!(request(Some("  pack.zip\t"), None, None).output_filename, "pack.zip");
    let error = DownloadConfig::from_command(
        None,
        Some(" \u{3000} ".to_string()),
        Some("wrong".to_string()),
        None,
        ".".to_string(),
    )
    .unwrap_err();
    assert_eq!(error.to_string(), "[CFG-002] 文件名不能为空");
}

#[test]
fn wrong_proxy_mode_refuses_the_request() {
    let error = DownloadConfig::from_command(
        None,
        None,
        Some("socks".to_string()),
        None,
        ".".to_string(),
    )
    .unwrap_err();
    assert_eq!(error.to_string(), "[CFG-001] 未知代理模式：socks");
}

#[test]
fn download_url_follows_the_proxy() {
    assert_eq!(request(None, None, Some("https://p")).download_url().unwrap(), MODPACK_URL);
    assert_eq!(
        request(None, Some("preset"), None).download_url().unwrap(),
        format!("https://gh-proxy.org/{MODPACK_URL}")
    );
    assert_eq!(
        request(None, Some("custom"), Some(" https://p// ")).download_url().unwrap(),
        format!("https://p/{MODPACK_URL}")
    );
    assert_eq!(
        request(None, Some("custom"), Some("https://p/?u={url}&x")).download_url().unwrap(),
        format!("https://p/?u={MODPACK_URL}&x")
    );
}

#[test]
fn blank_custom_proxy_is_an_error() {
    let error = request(None, Some("custom"), Some(" \t")).download_url().unwrap_err();
    assert_eq!(error.to_string(), "[CFG-003] 自定义代理地址不能为空");
    assert!(request(None, Some("custom"), None).download_url().is_err());
}

#[test]
fn proxy_prefix_is_joined_by_one_slash() {
    assert_eq!(apply_proxy_prefix("https://p", "u"), "https://p/u");
    assert_eq!(apply_proxy_prefix("https://p/", "u"), "https://p/u");
    assert_eq!(apply_proxy_prefix("https://p///", "u"), "https://p/u");
    assert_eq!(apply_proxy_prefix(PRESET_PROXY_PREFIX, "u"), "https://gh-proxy.org/u");
    assert_eq!(apply_proxy_prefix("", "u"), "/u");
}

#[test]
fn placeholder_is_replaced_everywhere() {
    assert_eq!(apply_proxy_prefix("{url}", "u"), "u");
    assert_eq!(apply_proxy_prefix("a{url}b{url}/", "u"), "aubu/");
}

#[test]
fn every_download_url_holds_the_modpack_url() {
    for (mode, proxy) in [("none", ""), ("preset", ""), ("custom", "p"), ("custom", "<{url}>")] {
        let url = request(None, Some(mode), Some(proxy)).download_url().unwrap();
        assert!(url.contains(MODPACK_URL));
    }
}

#[test]
fn output_dir_error_names_the_directory() {
    let config = request(None, None, None);
    assert!(config.ensure_output_dir(Ok(())).is_ok());
    let error = config.ensure_output_dir(Err("denied".to_string())).unwrap_err();
    assert_eq!(error.to_string(), "[FS-001] 无法创建下载目录 out：denied");
}

#[test]
fn output_path_is_the_file_in_the_directory() {
    let config = request(Some("pack.zip"), None, None);
    assert_eq!(Path::new(&config.output_path()), Path::new("out").join("pack.zip"));
    assert!(config.output_path().ends_with("pack.zip"));
    assert!(config.output_path().starts_with("out"));
    let config = request(Some("sub/pack.zip"), None, None);
    assert_eq!(Path::new(&config.output_path()), Path::new("out").join("sub").join("pack.zip"));
}

#[test]
fn default_dir_prefers_the_download_directory() {
    let downloads = Some("/home/u/Downloads".to_string());
    let current = Some("/work".to_string());
    assert_eq!(
        Path::new(&default_output_dir(downloads, current.clone())),
        Path::new("/home/u/Downloads").join("GTLite")
    );
    assert_eq!(default_output_dir(None, current), "/work");
    assert_eq!(default_output_dir(None, None), ".");
}

#[test]
fn partial_path_is_beside_the_target() {
    assert_eq!(Path::new(&partial_path("out/pack.zip")), Path::new("out/pack.zip.part"));
    assert_eq!(partial_path("pack.zip"), "pack.zip.part");
    assert_eq!(Path::new(&partial_path("out/pack/")), Path::new("out/pack.part"));
    assert_eq!(Path::new(&partial_path("out/..")), Path::new("out/..").join(format!("{DEFAULT_FILENAME}.part")));
}

#[test]
fn partial_path_is_not_the_target() {
    for target in [
        "a", "a.part", "d/a", "d/part", "d/part.part", "d/.part", "d/a:b", "a:b", "d/a\\b", "a\\b",
        "d/..", "..", ".", "/", "", "d/a/", "d/a/.", "C:", "//d/a", "\\\\?\\a", "\\\\?\\d\\a/b",
        "//s/gregtech-lite-nightly-curseforge.zip.part",
        "\\\\s\\gregtech-lite-nightly-curseforge.zip.part",
    ] {
        let paths = DownloadPaths::new(target.to_string());
        assert_eq!(paths.target, target);
        assert_ne!(paths.temp, paths.target);
    }
}

#[test]
fn targets_do_not_share_a_partial_file() {
    let targets = ["a", "a.part", "b", "d/a", "d/b", "d/e/a", "d/a.part", "/a", "../a"];
    for first in targets {
        for second in targets {
            assert_eq!(partial_path(first) == partial_path(second), first == second);
        }
    }
    assert_eq!(partial_path("d//a"), partial_path("d/a"));
    assert_ne!(partial_path("C:\\d\\a.zip"), partial_path("C:\\d\\a.tar"));
}

#[test]
fn partial_path_keeps_directory_and_name() {
    for target in ["a", "/a", "./a", "../a", "d/a.zip", "d/e/a.", "d/../a.tar", "C:/d/a", "d/.a"] {
        let expected = format!("{target}.part").replace('/', std::path::MAIN_SEPARATOR_STR);
        assert_eq!(partial_path(target).replace('/', std::path::MAIN_SEPARATOR_STR), expected);
    }
}

#[test]
fn target_without_a_name_gets_the_default_one_below_it() {
    let partial = format!("{DEFAULT_FILENAME}.part");
    for target in ["..", "d/..", "/", ".", "", "d/../"] {
        assert_eq!(Path::new(&partial_path(target)), Path::new(target).join(&partial));
        assert_eq!(
            Path::new(&partial_path(target)),
            Path::new(target).with_file_name(&partial)
        );
    }
}

#[test]
fn partial_name_appends_a_suffix() {
    assert_eq!(partial_file_name(Some("x.zip".to_string())), "x.zip.part");
    assert_eq!(partial_file_name(None), "gregtech-lite-nightly-curseforge.zip.part");
}

#[test]
fn errors_read_as_one_line() {
    assert_eq!(AppError::new("X-1", "m".to_string()).to_string(), "[X-1] m");
    let error = AppError::with_source("X-2", "m".to_string(), "why");
    assert_eq!(error.code, "X-2");
    assert_eq!(error.message, "m：why");
}

#[test]
fn request_failures_have_words() {
    let failure = |timeout, connect, body| RequestFailure {
        timeout,
        connect,
        body,
        text: "boom".to_string(),
    };
    assert_eq!(describe_reqwest_error(&failure(true, true, true)), "请求超时");
    assert_eq!(describe_reqwest_error(&failure(false, true, true)), "连接失败 (boom)");
    assert_eq!(describe_reqwest_error(&failure(false, false, true)), "响应体读取失败 (boom)");
    assert_eq!(describe_reqwest_error(&failure(false, false, false)), "boom");
}

#[test]
fn read_failures_have_words() {
    let failure = |kind| IoFailure { kind, text: "boom".to_string() };
    assert_eq!(describe_io_error(&failure(IoFailureKind::UnexpectedEof)), "连接被中断");
    assert_eq!(describe_io_error(&failure(IoFailureKind::TimedOut)), "读取超时");
    assert_eq!(describe_io_error(&failure(IoFailureKind::Other)), "boom");
}
