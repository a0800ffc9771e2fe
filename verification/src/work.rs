//! The pieces of outside work that an installation consists of, and what comes of them.

use crate::error::{IoFailure, RequestFailure};
use crate::response::ResponseHead;
use crate::text;
use vstd::prelude::*;

verus! {

/// The bytes that are read from a response at once.
pub const BUFFER_SIZE: usize = 65536;

/// How many redirects the client follows.
pub const MAX_REDIRECTS: usize = 10;

/// The browser that the client passes for.
pub const USER_AGENT: &'static str = "Mozilla/5.0 (Windows NT 10.0; Win64; x64) AppleWebKit/537.36 (KHTML, like Gecko) Chrome/146.0.0.0 Safari/537.36";

/// The least time between two reports of progress in a transfer, in milliseconds.
pub const PROGRESS_INTERVAL_MS: u64 = 120;

/// A piece of outside work.
#[derive(Debug)]
pub enum Action {
    /// Create a directory and its parents; answered by `Done`.
    CreateDir { path: String },
    /// Set up the HTTP client; answered by `Done`.
    BuildClient,
    /// Request the head of a resource; answered by `Probed`.
    Probe { url: String },
    /// Look whether a file exists; answered by `Exists`.
    Exists { path: String },
    /// Look up the size of a file; answered by `Size`.
    FileSize { path: String },
    /// Remove a file; answered by `Done`.
    Remove { path: String },
    /// Request a resource, with a `Range` header if one is given; answered by `Responded`.
    Send { url: String, range: Option<String> },
    /// Open a file, to append to it or to write it anew; answered by `Done`.
    Open { path: String, append: bool },
    /// Read at most a buffer full of the response; answered by `Read`.
    Read,
    /// Write what was read last to the open file; answered by `Written`.
    Write,
    /// Flush the open file to the disk; answered by `Flushed`.
    Flush,
    /// Rename a file; answered by `Done`.
    Rename { from: String, to: String },
    /// Nothing is left to do.
    Finish,
}

/// A piece of outside work by what it says.
pub enum ActionView {
    CreateDir { path: Seq<char> },
    BuildClient,
    Probe { url: Seq<char> },
    Exists { path: Seq<char> },
    FileSize { path: Seq<char> },
    Remove { path: Seq<char> },
    Send { url: Seq<char>, range: Option<Seq<char>> },
    Open { path: Seq<char>, append: bool },
    Read,
    Write,
    Flush,
    Rename { from: Seq<char>, to: Seq<char> },
    Finish,
}

impl View for Action {
    type V = ActionView;

    open spec fn view(&self) -> ActionView {
        match *self {
            Action::CreateDir { path } => ActionView::CreateDir { path: path@ },
            Action::BuildClient => ActionView::BuildClient,
            Action::Probe { url } => ActionView::Probe { url: url@ },
            Action::Exists { path } => ActionView::Exists { path: path@ },
            Action::FileSize { path } => ActionView::FileSize { path: path@ },
            Action::Remove { path } => ActionView::Remove { path: path@ },
            Action::Send { url, range } => ActionView::Send {
                url: url@,
                range: text::chars_or_none(range),
            },
            Action::Open { path, append } => ActionView::Open { path: path@, append },
            Action::Read => ActionView::Read,
            Action::Write => ActionView::Write,
            Action::Flush => ActionView::Flush,
            Action::Rename { from, to } => ActionView::Rename { from: from@, to: to@ },
            Action::Finish => ActionView::Finish,
        }
    }
}

/// What came of a piece of outside work. A failure carries the system's words for it.
#[derive(Debug)]
pub enum Event {
    /// The work is done, or it failed.
    Done(Result<(), String>),
    /// The head of the resource, `None` if there was no response.
    Probed(Option<ResponseHead>),
    /// Whether the file exists.
    Exists(bool),
    /// The size of the file.
    Size(Result<u64, String>),
    /// The head of the response.
    Responded(Result<ResponseHead, RequestFailure>),
    /// The bytes that were read, 0 at the end of the response.
    Read(Result<usize, IoFailure>),
    /// The bytes are written, `elapsed_ms` milliseconds after the last report
    /// that followed such a write. For the first write of a response, which is
    /// reported in any case, the time does not matter.
    Written { outcome: Result<(), String>, elapsed_ms: u64 },
    /// The file is flushed, as far as that was possible.
    Flushed,
}

} // verus!
