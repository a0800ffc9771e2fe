//! What the user interface is told about an installation.

use crate::error;
use crate::error::AppError;
use crate::text;
use vstd::prelude::*;

verus! {

/// The name under which the user interface gets each [`DownloadEvent`].
pub const DOWNLOAD_EVENT: &'static str = "download-progress";

/// What a finished installation gives back.
#[derive(Debug)]
pub struct InstallResult {
    pub output_path: String,
}

/// One report to the user interface.
#[derive(Debug)]
pub struct DownloadEvent {
    pub stage: &'static str,
    pub message: Option<String>,
    pub downloaded_bytes: Option<u64>,
    pub total_bytes: Option<u64>,
    pub output_path: Option<String>,
}

/// A report by what it says.
pub struct EventView {
    pub stage: Seq<char>,
    pub message: Option<Seq<char>>,
    pub downloaded_bytes: Option<u64>,
    pub total_bytes: Option<u64>,
    pub output_path: Option<Seq<char>>,
}

impl View for DownloadEvent {
    type V = EventView;

    open spec fn view(&self) -> EventView {
        EventView {
            stage: self.stage@,
            message: text::chars_or_none(self.message),
            downloaded_bytes: self.downloaded_bytes,
            total_bytes: self.total_bytes,
            output_path: text::chars_or_none(self.output_path),
        }
    }
}

/// Reports by what they say.
pub open spec fn views(reports: Seq<DownloadEvent>) -> Seq<EventView> {
    reports.map_values(|report: DownloadEvent| report@)
}

/// A word on what is about to happen.
pub open spec fn info_event(message: Seq<char>) -> EventView {
    EventView {
        stage: "preparing"@,
        message: Some(message),
        downloaded_bytes: None,
        total_bytes: None,
        output_path: None,
    }
}

/// How far the download has come.
pub open spec fn progress_event(downloaded_bytes: u64, total_bytes: Option<u64>) -> EventView {
    EventView {
        stage: "running"@,
        message: None,
        downloaded_bytes: Some(downloaded_bytes),
        total_bytes,
        output_path: None,
    }
}

/// The file is there. Where the total is unknown, what was downloaded is the total.
pub open spec fn done_event(
    message: Seq<char>,
    output_path: Seq<char>,
    bytes: u64,
    total: Option<u64>,
) -> EventView {
    EventView {
        stage: "completed"@,
        message: Some(message),
        downloaded_bytes: Some(bytes),
        total_bytes: match total {
            Some(_) => total,
            None => Some(bytes),
        },
        output_path: Some(output_path),
    }
}

/// The installation failed.
pub open spec fn fail_event(error: (Seq<char>, Seq<char>)) -> EventView {
    EventView {
        stage: "error"@,
        message: Some(error::error_line(error)),
        downloaded_bytes: None,
        total_bytes: None,
        output_path: None,
    }
}

/// A report tells by its stage which kind of report it is.
pub(crate) proof fn lemma_stages_differ()
    ensures
        "completed"@ != "preparing"@,
        "completed"@ != "running"@,
        "error"@ != "preparing"@,
        "error"@ != "running"@,
        "error"@ != "completed"@,
{
    reveal_strlit("preparing");
    reveal_strlit("running");
    reveal_strlit("completed");
    reveal_strlit("error");
    assert("preparing"@[0] == 'p');
    assert("running"@[0] == 'r');
    assert("completed"@[0] == 'c');
    assert("error"@[0] == 'e');
}

/// Makes the reports of an installation.
#[derive(Debug, Clone, Copy)]
pub struct Reporter;

impl Reporter {
    /// A word on what is about to happen.
    pub fn info(&self, message: &str) -> (report: DownloadEvent)
        ensures
            report@ == info_event(message@),
    {
        self.emit("preparing", Some(message.to_owned()), None, None, None)
    }

    /// How far the download has come.
    pub fn progress(&self, downloaded_bytes: u64, total_bytes: Option<u64>) -> (report:
        DownloadEvent)
        ensures
            report@ == progress_event(downloaded_bytes, total_bytes),
    {
        self.emit("running", None, Some(downloaded_bytes), total_bytes, None)
    }

    /// The file is there.
    pub fn done(&self, message: &str, output_path: &str, bytes: u64, total: Option<u64>) -> (report:
        DownloadEvent)
        ensures
            report@ == done_event(message@, output_path@, bytes, total),
    {
        let total_bytes: Option<u64> = match total {
            Some(known) => Some(known),
            None => Some(bytes),
        };
        self.emit(
            "completed",
            Some(message.to_owned()),
            Some(bytes),
            total_bytes,
            Some(output_path.to_owned()),
        )
    }

    /// The installation failed.
    pub fn fail(&self, error: &AppError) -> (report: DownloadEvent)
        ensures
            report@ == fail_event(error@),
    {
        self.emit("error", Some(error.to_string()), None, None, None)
    }

    /// A report with the given contents.
    pub fn emit(
        &self,
        stage: &'static str,
        message: Option<String>,
        downloaded_bytes: Option<u64>,
        total_bytes: Option<u64>,
        output_path: Option<String>,
    ) -> (report: DownloadEvent)
        ensures
            report == (DownloadEvent {
                stage,
                message,
                downloaded_bytes,
                total_bytes,
                output_path,
            }),
    {
        DownloadEvent { stage, message, downloaded_bytes, total_bytes, output_path }
    }
}

} // verus!
