//! What the user asked for: where the file goes, and through which proxy it comes.

use crate::error;
use crate::error::{AppError, AppResult};
use crate::paths;
use crate::text;
use vstd::prelude::*;

verus! {

/// Where the modpack is published.
pub const MODPACK_URL: &'static str = "https://github.com/GregTechLite/GregTech-Lite-Modpack/releases/download/nightly/gregtech-lite-nightly-curseforge.zip";

/// The proxy that the installer offers by itself.
pub const PRESET_PROXY_PREFIX: &'static str = "https://gh-proxy.org/";

/// The proxy mode where the user chose none.
pub const DEFAULT_PROXY_MODE: &'static str = "none";

/// What stands in a custom proxy address for the address of the modpack.
pub const URL_PLACEHOLDER: &'static str = "{url}";

/// Through which proxy the modpack is fetched.
#[derive(Debug, Clone, Copy, PartialEq, Eq, Structural)]
pub enum ProxyMode {
    /// Through none.
    Direct,
    /// Through the one that the installer offers.
    Preset,
    /// Through the one that the user gave.
    Custom,
}

impl ProxyMode {
    /// The mode that a text names, white space around it aside, and the error
    /// for a text that names none.
    pub open spec fn named(value: Option<Seq<char>>) -> Result<ProxyMode, (Seq<char>, Seq<char>)> {
        let name = text::trimmed(
            match value {
                Some(chars) => chars,
                None => DEFAULT_PROXY_MODE@,
            },
        );
        if name == ""@ || name == "none"@ {
            Ok(ProxyMode::Direct)
        } else if name == "preset"@ {
            Ok(ProxyMode::Preset)
        } else if name == "custom"@ {
            Ok(ProxyMode::Custom)
        } else {
            Err(("CFG-001"@, "未知代理模式："@ + name))
        }
    }

    /// The mode that `value` names.
    pub fn parse(value: Option<&str>) -> (res: AppResult<Self>)
        ensures
            error::outcome(res) == Self::named(
                match value {
                    Some(chars) => Some(chars@),
                    None => None,
                },
            ),
    {
        let chosen: &str = match value {
            Some(chars) => chars,
            None => DEFAULT_PROXY_MODE,
        };
        let name: &str = text::trim(chosen);
        if text::same_text(name, "") || text::same_text(name, "none") {
            return Ok(ProxyMode::Direct);
        }
        if text::same_text(name, "preset") {
            return Ok(ProxyMode::Preset);
        }
        if text::same_text(name, "custom") {
            return Ok(ProxyMode::Custom);
        }
        let mut message: String = "未知代理模式：".to_owned();
        message.append(name);
        Err(AppError::new("CFG-001", message))
    }
}

/// The address of `url` behind the proxy `prefix`: in the place that the prefix
/// marks, or after the prefix and one slash where it marks none.
pub open spec fn proxied(prefix: Seq<char>, url: Seq<char>) -> Seq<char> {
    if text::occurs(prefix, URL_PLACEHOLDER@) {
        text::replaced(prefix, URL_PLACEHOLDER@, url)
    } else {
        text::without_trailing(prefix, '/') + "/"@ + url
    }
}

/// The address of `source_url` behind the proxy `prefix`.
pub fn apply_proxy_prefix(prefix: &str, source_url: &str) -> (url: String)
    ensures
        url@ == proxied(prefix@, source_url@),
{
    if text::contains(prefix, URL_PLACEHOLDER) {
        proof {
            reveal_strlit("{url}");
        }
        text::replace(prefix, URL_PLACEHOLDER, source_url)
    } else {
        let mut url: String = text::trim_end_matches(prefix, '/').to_owned();
        url.append("/");
        url.append(source_url);
        url
    }
}

/// The text that was given, or else the default.
pub open spec fn given_or(value: Option<String>, default: Seq<char>) -> Seq<char> {
    match value {
        Some(chars) => chars@,
        None => default,
    }
}

/// What the user asked for.
#[derive(Debug)]
pub struct DownloadConfig {
    pub output_dir: String,
    pub output_filename: String,
    pub proxy_mode: ProxyMode,
    pub custom_proxy: String,
}

impl DownloadConfig {
    /// The name of the file and a valid proxy mode, or the first of the two
    /// errors that a request can hold.
    pub open spec fn checked(
        output_filename: Option<String>,
        proxy_mode: Option<String>,
    ) -> Result<(Seq<char>, ProxyMode), (Seq<char>, Seq<char>)> {
        let name = text::trimmed(given_or(output_filename, paths::DEFAULT_FILENAME@));
        if name.len() == 0 {
            Err(("CFG-002"@, "文件名不能为空"@))
        } else {
            match ProxyMode::named(text::chars_or_none(proxy_mode)) {
                Ok(mode) => Ok((name, mode)),
                Err(error) => Err(error),
            }
        }
    }

    /// `res` is the configuration that a request asks for, or its first error.
    pub open spec fn is_requested(
        output_dir: Option<String>,
        output_filename: Option<String>,
        proxy_mode: Option<String>,
        custom_proxy: Option<String>,
        default_dir: Seq<char>,
        res: AppResult<Self>,
    ) -> bool {
        match res {
            Ok(config) => {
                &&& Self::checked(output_filename, proxy_mode) == Ok::<_, (Seq<char>, Seq<char>)>(
                    (config.output_filename@, config.proxy_mode),
                )
                &&& config.output_dir@ == given_or(output_dir, default_dir)
                &&& config.custom_proxy@ == given_or(custom_proxy, ""@)
            },
            Err(error) => Self::checked(output_filename, proxy_mode) == Err::<
                (Seq<char>, ProxyMode),
                _,
            >(error@),
        }
    }

    /// The configuration that a request of the user asks for. `default_dir` is
    /// the directory for a request that names none.
    pub fn from_command(
        output_dir: Option<String>,
        output_filename: Option<String>,
        proxy_mode: Option<String>,
        custom_proxy: Option<String>,
        default_dir: String,
    ) -> (res: AppResult<Self>)
        ensures
            Self::is_requested(
                output_dir,
                output_filename,
                proxy_mode,
                custom_proxy,
                default_dir@,
                res,
            ),
    {
        let chosen: String = match output_filename {
            Some(name) => name,
            None => paths::DEFAULT_FILENAME.to_owned(),
        };
        let output_filename: String = text::trim(chosen.as_str()).to_owned();
        if output_filename.as_str().is_empty() {
            return Err(AppError::new("CFG-002", "文件名不能为空".to_owned()));
        }
        let output_dir: String = match output_dir {
            Some(dir) => dir,
            None => default_dir,
        };
        let mode: Option<&str> = match &proxy_mode {
            Some(mode) => Some(mode.as_str()),
            None => None,
        };
        match ProxyMode::parse(mode) {
            Ok(proxy_mode) => Ok(
                DownloadConfig {
                    output_dir,
                    output_filename,
                    proxy_mode,
                    custom_proxy: match custom_proxy {
                        Some(proxy) => proxy,
                        None => "".to_owned(),
                    },
                },
            ),
            Err(error) => Err(error),
        }
    }

    /// The path of the downloaded file.
    pub fn output_path(&self) -> (path: String)
        ensures
            paths::is_joined(self.output_dir@, self.output_filename@, path@),
    {
        paths::path_join(self.output_dir.as_str(), self.output_filename.as_str())
    }

    /// The address from which the modpack is fetched, or the error for a custom
    /// proxy that is blank.
    pub open spec fn source(self) -> Result<Seq<char>, (Seq<char>, Seq<char>)> {
        match self.proxy_mode {
            ProxyMode::Direct => Ok(MODPACK_URL@),
            ProxyMode::Preset => Ok(proxied(PRESET_PROXY_PREFIX@, MODPACK_URL@)),
            ProxyMode::Custom => {
                let prefix = text::trimmed(self.custom_proxy@);
                if prefix.len() == 0 {
                    Err(("CFG-003"@, "自定义代理地址不能为空"@))
                } else {
                    Ok(proxied(prefix, MODPACK_URL@))
                }
            },
        }
    }

    /// The address from which the modpack is fetched.
    pub fn download_url(&self) -> (res: AppResult<String>)
        ensures
            match res {
                Ok(url) => self.source() == Ok::<_, (Seq<char>, Seq<char>)>(url@),
                Err(error) => self.source() == Err::<Seq<char>, _>(error@),
            },
    {
        match self.proxy_mode {
            ProxyMode::Direct => Ok(MODPACK_URL.to_owned()),
            ProxyMode::Preset => Ok(apply_proxy_prefix(PRESET_PROXY_PREFIX, MODPACK_URL)),
            ProxyMode::Custom => {
                let prefix: &str = text::trim(self.custom_proxy.as_str());
                if prefix.is_empty() {
                    return Err(AppError::new("CFG-003", "自定义代理地址不能为空".to_owned()));
                }
                Ok(apply_proxy_prefix(prefix, MODPACK_URL))
            },
        }
    }

    /// The error for an output directory that could not be created.
    pub open spec fn output_dir_error(self, cause: Seq<char>) -> (Seq<char>, Seq<char>) {
        ("FS-001"@, error::sourced("无法创建下载目录 "@ + self.output_dir@, cause))
    }

    /// What came of creating the output directory, where `created` is what the
    /// system says about it.
    pub fn ensure_output_dir(&self, created: Result<(), String>) -> (res: AppResult<()>)
        ensures
            error::outcome(res) == match created {
                Ok(_) => Ok(()),
                Err(cause) => Err(self.output_dir_error(cause@)),
            },
    {
        match created {
            Ok(_) => Ok(()),
            Err(cause) => {
                let mut message: String = "无法创建下载目录 ".to_owned();
                message.append(self.output_dir.as_str());
                Err(AppError::with_source("FS-001", message, cause.as_str()))
            },
        }
    }
}

} // verus!
