//! A whole installation: the directory, the address, the client, the download.

use crate::config::DownloadConfig;
use crate::download::{Downloader, DownloaderView, Phase, PhaseView};
use crate::error;
use crate::error::{AppError, AppResult};
use crate::paths;
use crate::report;
use crate::report::{DownloadEvent, EventView, InstallResult, Reporter};
use crate::work::{Action, ActionView, Event};
use vstd::prelude::*;

verus! {

/// How far an installation has come.
#[derive(Debug)]
pub enum Stage {
    /// Create the output directory.
    CreatingDir,
    /// Set up the client for a download of `url` to `target`.
    BuildingClient { url: String, target: String },
    /// Download.
    Downloading { downloader: Downloader },
    /// The file is there, or the installation failed.
    Finished { outcome: AppResult<InstallResult> },
}

/// A stage by what it says. A finished installation gives the path of the file.
pub enum StageView {
    CreatingDir,
    BuildingClient { url: Seq<char>, target: Seq<char> },
    Downloading { downloader: DownloaderView },
    Finished { outcome: Result<Seq<char>, (Seq<char>, Seq<char>)> },
}

/// The path of the file, or the error.
pub open spec fn result_of(outcome: AppResult<InstallResult>) -> Result<
    Seq<char>,
    (Seq<char>, Seq<char>),
> {
    match outcome {
        Ok(result) => Ok(result.output_path@),
        Err(error) => Err(error@),
    }
}

impl View for Stage {
    type V = StageView;

    open spec fn view(&self) -> StageView {
        match *self {
            Stage::CreatingDir => StageView::CreatingDir,
            Stage::BuildingClient { url, target } => StageView::BuildingClient {
                url: url@,
                target: target@,
            },
            Stage::Downloading { downloader } => StageView::Downloading { downloader: downloader@ },
            Stage::Finished { outcome } => StageView::Finished { outcome: result_of(outcome) },
        }
    }
}

/// The error for a client that could not be set up.
pub open spec fn client_error(cause: Seq<char>) -> (Seq<char>, Seq<char>) {
    ("NET-001"@, error::sourced("创建下载客户端失败"@, cause))
}

/// The error for an installation that ended without a result.
pub open spec fn task_error(cause: Seq<char>) -> (Seq<char>, Seq<char>) {
    ("SYS-001"@, error::sourced("下载任务异常退出"@, cause))
}

/// What came of setting up the client, where `built` is what the client says about it.
pub fn build_client(built: Result<(), String>) -> (res: AppResult<()>)
    ensures
        error::outcome(res) == match built {
            Ok(_) => Ok(()),
            Err(cause) => Err(client_error(cause@)),
        },
{
    match built {
        Ok(_) => Ok(()),
        Err(cause) => Err(
            AppError::with_source("NET-001", "创建下载客户端失败".to_owned(), cause.as_str()),
        ),
    }
}

/// An installation.
#[derive(Debug)]
pub struct Install {
    pub config: DownloadConfig,
    pub stage: Stage,
}

impl Install {
    /// The work to do next.
    pub open spec fn next_action(self) -> ActionView {
        match self.stage@ {
            StageView::CreatingDir => ActionView::CreateDir { path: self.config.output_dir@ },
            StageView::BuildingClient { .. } => ActionView::BuildClient,
            StageView::Downloading { downloader } => downloader.action(),
            StageView::Finished { .. } => ActionView::Finish,
        }
    }

    /// The event can answer the work that is next.
    pub open spec fn takes(self, event: Event) -> bool {
        match self.stage@ {
            StageView::CreatingDir => event is Done,
            StageView::BuildingClient { .. } => event is Done,
            StageView::Downloading { downloader } => downloader.accepts(event),
            StageView::Finished { .. } => false,
        }
    }

    /// The installation ends with `error`, and the user is told so after `told`.
    pub open spec fn fails(
        next: StageView,
        reports: Seq<EventView>,
        told: Seq<EventView>,
        error: (Seq<char>, Seq<char>),
    ) -> bool {
        &&& next == StageView::Finished { outcome: Err(error) }
        &&& reports == told.push(report::fail_event(error))
    }

    /// `next` is the stage after an event, and `reports` is what the user is
    /// told about it.
    pub open spec fn leads_to(
        self,
        event: Event,
        next: StageView,
        reports: Seq<EventView>,
    ) -> bool {
        match (self.stage@, event) {
            (StageView::CreatingDir, Event::Done(Ok(_))) => match self.config.source() {
                Ok(url) => {
                    &&& next matches StageView::BuildingClient { url: from, target }
                    &&& from == url
                    &&& paths::is_joined(
                        self.config.output_dir@,
                        self.config.output_filename@,
                        target,
                    )
                    &&& reports == seq![report::info_event("准备下载"@)]
                },
                Err(error) => Self::fails(next, reports, seq![], error),
            },
            (StageView::CreatingDir, Event::Done(Err(cause))) => Self::fails(
                next,
                reports,
                seq![],
                self.config.output_dir_error(cause@),
            ),
            (StageView::BuildingClient { url, target }, Event::Done(Ok(_))) => {
                &&& next matches StageView::Downloading { downloader }
                &&& downloader.url == url
                &&& downloader.target == target
                &&& paths::is_partial_path(target, downloader.temp)
                &&& downloader.phase == PhaseView::Probing
                &&& reports == Seq::<EventView>::empty()
            },
            (StageView::BuildingClient { .. }, Event::Done(Err(cause))) => Self::fails(
                next,
                reports,
                seq![],
                client_error(cause@),
            ),
            (StageView::Downloading { downloader }, event) => {
                let (phase, told) = downloader.next(event);
                match phase {
                    PhaseView::Finished { outcome: Ok(_) } => {
                        &&& next == StageView::Finished { outcome: Ok(downloader.target) }
                        &&& reports == told
                    },
                    PhaseView::Finished { outcome: Err(error) } => Self::fails(
                        next,
                        reports,
                        told,
                        error,
                    ),
                    _ => {
                        &&& next == StageView::Downloading {
                            downloader: DownloaderView { phase, ..downloader },
                        }
                        &&& reports == told
                    },
                }
            },
            _ => next == self.stage@ && reports == Seq::<EventView>::empty(),
        }
    }

    /// An installation of what `config` asks for, at its start.
    pub fn new(config: DownloadConfig) -> (install: Self)
        ensures
            install.config == config,
            install.stage@ == StageView::CreatingDir,
    {
        Install { config, stage: Stage::CreatingDir }
    }

    /// The work to do next.
    pub fn action(&self) -> (action: Action)
        ensures
            action@ == self.next_action(),
    {
        match &self.stage {
            Stage::CreatingDir => Action::CreateDir { path: self.config.output_dir.clone() },
            Stage::BuildingClient { .. } => Action::BuildClient,
            Stage::Downloading { downloader } => downloader.action(),
            Stage::Finished { .. } => Action::Finish,
        }
    }

    /// Whether the event can answer the work that is next.
    pub fn accepts(&self, event: &Event) -> (res: bool)
        ensures
            res == self.takes(*event),
    {
        match (&self.stage, event) {
            (Stage::CreatingDir, Event::Done(_)) => true,
            (Stage::BuildingClient { .. }, Event::Done(_)) => true,
            (Stage::Downloading { downloader }, event) => downloader.accepts(event),
            _ => false,
        }
    }

    /// Ends the installation with `error`, and tells the user so after `told`.
    fn fail(error: AppError, told: Vec<DownloadEvent>) -> (res: (Stage, Vec<DownloadEvent>))
        ensures
            Self::fails(res.0@, report::views(res.1@), report::views(told@), error@),
    {
        let report: DownloadEvent = Reporter.fail(&error);
        let mut reports: Vec<DownloadEvent> = told;
        reports.push(report);
        assert(report::views(reports@) =~= report::views(told@).push(report@));
        (Stage::Finished { outcome: Err(error) }, reports)
    }

    /// The stage after `stage`, given the event that answers its work, and what
    /// the user is told about it.
    fn advance(&self, stage: Stage, event: Event) -> (res: (Stage, Vec<DownloadEvent>))
        requires
            (Install { stage, config: self.config }).takes(event),
        ensures
            (Install { stage, config: self.config }).leads_to(
                event,
                res.0@,
                report::views(res.1@),
            ),
    {
        let nothing: Vec<DownloadEvent> = Vec::new();
        assert(report::views(nothing@) =~= Seq::<EventView>::empty());
        match (stage, event) {
            (Stage::CreatingDir, Event::Done(created)) => match self.config.ensure_output_dir(
                created,
            ) {
                Ok(_) => match self.config.download_url() {
                    Ok(url) => {
                        let target: String = self.config.output_path();
                        let report: DownloadEvent = Reporter.info("准备下载");
                        let mut reports: Vec<DownloadEvent> = nothing;
                        reports.push(report);
                        assert(report::views(reports@) =~= seq![report@]);
                        (Stage::BuildingClient { url, target }, reports)
                    },
                    Err(error) => Self::fail(error, nothing),
                },
                Err(error) => Self::fail(error, nothing),
            },
            (Stage::BuildingClient { url, target }, Event::Done(built)) => match build_client(
                built,
            ) {
                Ok(_) => (
                    Stage::Downloading { downloader: Downloader::new(url, target) },
                    nothing,
                ),
                Err(error) => Self::fail(error, nothing),
            },
            (Stage::Downloading { downloader }, event) => {
                let mut downloader: Downloader = downloader;
                let reports: Vec<DownloadEvent> = downloader.step(event);
                let Downloader { url, paths, phase } = downloader;
                match phase {
                    Phase::Finished { outcome } => match outcome {
                        Ok(_) => (
                            Stage::Finished {
                                outcome: Ok(InstallResult { output_path: paths.target }),
                            },
                            reports,
                        ),
                        Err(error) => Self::fail(error, reports),
                    },
                    phase => (
                        Stage::Downloading { downloader: Downloader { url, paths, phase } },
                        reports,
                    ),
                }
            },
            (stage, _) => (stage, nothing),
        }
    }

    /// Takes the event that answers the work that was next, and gives what the
    /// user is told about it.
    pub fn step(&mut self, event: Event) -> (reports: Vec<DownloadEvent>)
        requires
            old(self).takes(event),
        ensures
            final(self).config == old(self).config,
            old(self).leads_to(event, final(self).stage@, report::views(reports@)),
    {
        let mut stage: Stage = Stage::CreatingDir;
        std::mem::swap(&mut self.stage, &mut stage);
        let (stage, reports) = self.advance(stage, event);
        self.stage = stage;
        reports
    }

    /// The result of the installation, if it is finished.
    pub fn into_result(self) -> (res: Option<AppResult<InstallResult>>)
        ensures
            match res {
                Some(outcome) => self.stage@ == (StageView::Finished {
                    outcome: result_of(outcome),
                }),
                None => !(self.stage@ is Finished),
            },
    {
        match self.stage {
            Stage::Finished { outcome } => Some(outcome),
            _ => None,
        }
    }
}

/// `res` is what the user interface gets for `task`: the result of the
/// installation, or its error or the reason why it has no result, as one line.
pub open spec fn is_outcome(
    task: Result<AppResult<InstallResult>, String>,
    res: Result<InstallResult, String>,
) -> bool {
    match task {
        Ok(Ok(result)) => res == Ok::<InstallResult, String>(result),
        Ok(Err(error)) => res matches Err(line) && line@ == error::error_line(error@),
        Err(cause) => res matches Err(line) && line@ == error::error_line(task_error(cause@)),
    }
}

/// What the user interface gets for its request, where `task` is the result of
/// the installation, or the reason why it ended without one.
pub fn install_outcome(task: Result<AppResult<InstallResult>, String>) -> (res: Result<
    InstallResult,
    String,
>)
    ensures
        is_outcome(task, res),
{
    match task {
        Ok(Ok(result)) => Ok(result),
        Ok(Err(error)) => Err(error.to_string()),
        Err(cause) => Err(
            AppError::with_source(
                "SYS-001",
                "下载任务异常退出".to_owned(),
                cause.as_str(),
            ).to_string(),
        ),
    }
}

} // verus!
