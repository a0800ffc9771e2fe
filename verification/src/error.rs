//! Errors as the user sees them, and the outside failures they come from.

use vstd::prelude::*;

verus! {

/// What an operation of the installer gives: a value, or an error to show.
pub type AppResult<T> = Result<T, AppError>;

/// An error with a stable code and a message for the user.
#[derive(Debug)]
pub struct AppError {
    pub code: &'static str,
    pub message: String,
}

impl View for AppError {
    type V = (Seq<char>, Seq<char>);

    open spec fn view(&self) -> (Seq<char>, Seq<char>) {
        (self.code@, self.message@)
    }
}

/// A result with its error taken by its view.
pub open spec fn outcome<T>(res: AppResult<T>) -> Result<T, (Seq<char>, Seq<char>)> {
    match res {
        Ok(value) => Ok(value),
        Err(error) => Err(error@),
    }
}

/// A message followed by what caused the error.
pub open spec fn sourced(message: Seq<char>, source: Seq<char>) -> Seq<char> {
    message + "："@ + source
}

/// An error as one line: its code in brackets, a blank, and its message.
pub open spec fn error_line(error: (Seq<char>, Seq<char>)) -> Seq<char> {
    "["@ + error.0 + "] "@ + error.1
}

impl AppError {
    /// An error with the given code and message.
    pub fn new(code: &'static str, message: String) -> (error: Self)
        ensures
            error@ == (code@, message@),
    {
        AppError { code, message }
    }

    /// An error whose message ends with the text of what caused it.
    pub fn with_source(code: &'static str, message: String, source: &str) -> (error: Self)
        ensures
            error@ == (code@, sourced(message@, source@)),
    {
        let mut full: String = message;
        full.append("：");
        full.append(source);
        Self::new(code, full)
    }

    /// The error as one line of text.
    pub fn to_string(&self) -> (line: String)
        ensures
            line@ == error_line(self@),
    {
        let mut line: String = "[".to_owned();
        line.append(self.code);
        line.append("] ");
        line.append(self.message.as_str());
        line
    }
}

/// A request that got no response: what the transport says about it.
#[derive(Debug)]
pub struct RequestFailure {
    /// The request ran out of time.
    pub timeout: bool,
    /// The connection could not be made.
    pub connect: bool,
    /// The body could not be transferred.
    pub body: bool,
    /// The failure in the transport's own words.
    pub text: String,
}

/// What `describe_reqwest_error` says: a timeout comes before a failed
/// connection, and that before a failed transfer.
pub open spec fn request_failure_text(failure: RequestFailure) -> Seq<char> {
    if failure.timeout {
        "请求超时"@
    } else if failure.connect {
        "连接失败 ("@ + failure.text@ + ")"@
    } else if failure.body {
        "响应体读取失败 ("@ + failure.text@ + ")"@
    } else {
        failure.text@
    }
}

/// A failed request in words for the user.
pub fn describe_reqwest_error(error: &RequestFailure) -> (text: String)
    ensures
        text@ == request_failure_text(*error),
{
    if error.timeout {
        return "请求超时".to_owned();
    }
    if error.connect {
        let mut text: String = "连接失败 (".to_owned();
        text.append(error.text.as_str());
        text.append(")");
        return text;
    }
    if error.body {
        let mut text: String = "响应体读取失败 (".to_owned();
        text.append(error.text.as_str());
        text.append(")");
        return text;
    }
    error.text.clone()
}

/// The kinds of read failure that have words of their own.
#[derive(Debug, Clone, Copy, PartialEq, Eq, Structural)]
pub enum IoFailureKind {
    /// The stream ended before it should have.
    UnexpectedEof,
    /// The read ran out of time.
    TimedOut,
    /// Any other kind.
    Other,
}

/// A failed read from a stream.
#[derive(Debug)]
pub struct IoFailure {
    pub kind: IoFailureKind,
    /// The failure in the system's own words.
    pub text: String,
}

/// What `describe_io_error` says.
pub open spec fn io_failure_text(failure: IoFailure) -> Seq<char> {
    match failure.kind {
        IoFailureKind::UnexpectedEof => "连接被中断"@,
        IoFailureKind::TimedOut => "读取超时"@,
        IoFailureKind::Other => failure.text@,
    }
}

/// A failed read in words for the user.
pub fn describe_io_error(error: &IoFailure) -> (text: String)
    ensures
        text@ == io_failure_text(*error),
{
    match error.kind {
        IoFailureKind::UnexpectedEof => "连接被中断".to_owned(),
        IoFailureKind::TimedOut => "读取超时".to_owned(),
        IoFailureKind::Other => error.text.clone(),
    }
}

} // verus!
