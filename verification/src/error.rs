//! What can go wrong with one measurement attempt.

use std::string::FromUtf8Error;
use vstd::prelude::*;
use vstd::std_specs::convert::FromSpecImpl;
use vstd::string::to_string_from_display_ensures;

verus! {

/// `std::io::Error`, carried through as an opaque value.
#[verifier::external_type_specification]
#[verifier::external_body]
pub struct ExIoError(std::io::Error);

/// `std::string::FromUtf8Error`, carried through as an opaque value.
#[verifier::external_type_specification]
#[verifier::external_body]
pub struct ExFromUtf8Error(FromUtf8Error);

/// `serde_json::Error`, carried through as an opaque value.
#[verifier::external_type_specification]
#[verifier::external_body]
pub struct ExJsonError(serde_json::Error);

/// The outcome of an attempt, or of a part of one.
pub type SpeedtestResult<T> = Result<T, SpeedtestError>;

/// Why a measurement attempt produced no result.
#[derive(Debug)]
pub enum SpeedtestError {
    /// The tool ran and ended unsuccessfully; holds what it wrote to its
    /// standard error.
    CLIError(String),
    /// The tool's output was not the expected structured text; holds the
    /// parser's message.
    JSONError(String),
    /// The tool could not be located or launched.
    IOError(std::io::Error),
    /// The tool's output was not valid UTF-8.
    UTF8Error(FromUtf8Error),
}

/// The three classes of failure of an attempt.
#[derive(Debug, Clone, Copy, PartialEq, Eq, Structural)]
pub enum FailureKind {
    /// The tool could not be launched.
    ToolInvocationFailed,
    /// The tool ran but reported failure.
    ToolReportedFailure,
    /// The tool's output did not have the expected form.
    MalformedOutput,
}

impl SpeedtestError {
    /// The class of this failure.
    pub open spec fn spec_kind(&self) -> FailureKind {
        match self {
            SpeedtestError::CLIError(_) => FailureKind::ToolReportedFailure,
            SpeedtestError::JSONError(_) => FailureKind::MalformedOutput,
            SpeedtestError::IOError(_) => FailureKind::ToolInvocationFailed,
            SpeedtestError::UTF8Error(_) => FailureKind::MalformedOutput,
        }
    }

    /// The class of this failure.
    #[verifier::when_used_as_spec(spec_kind)]
    pub fn kind(&self) -> (kind: FailureKind)
        ensures
            kind == self.spec_kind(),
    {
        match self {
            SpeedtestError::CLIError(_) => FailureKind::ToolReportedFailure,
            SpeedtestError::JSONError(_) => FailureKind::MalformedOutput,
            SpeedtestError::IOError(_) => FailureKind::ToolInvocationFailed,
            SpeedtestError::UTF8Error(_) => FailureKind::MalformedOutput,
        }
    }

    /// `text` is the reason this failure is reported with: the text it
    /// holds, or the display form of the error it wraps.
    pub open spec fn is_message(&self, text: String) -> bool {
        match self {
            SpeedtestError::CLIError(reason) => text@ == reason@,
            SpeedtestError::JSONError(reason) => text@ == reason@,
            SpeedtestError::IOError(error) => to_string_from_display_ensures::<std::io::Error>(
                error,
                text,
            ),
            SpeedtestError::UTF8Error(error) => to_string_from_display_ensures::<FromUtf8Error>(
                error,
                text,
            ),
        }
    }

    /// The reason of this failure as text.
    pub fn message(&self) -> (text: String)
        ensures
            self.is_message(text),
    {
        match self {
            SpeedtestError::CLIError(reason) => reason.clone(),
            SpeedtestError::JSONError(reason) => reason.clone(),
            SpeedtestError::IOError(error) => error.to_string(),
            SpeedtestError::UTF8Error(error) => error.to_string(),
        }
    }
}

impl From<serde_json::Error> for SpeedtestError {
    /// A parser error becomes `JSONError` with the parser's message.
    fn from(err: serde_json::Error) -> (error: SpeedtestError)
        ensures
            error matches SpeedtestError::JSONError(text) && to_string_from_display_ensures::<
                serde_json::Error,
            >(&err, text),
    {
        SpeedtestError::JSONError(err.to_string())
    }
}

impl FromSpecImpl<serde_json::Error> for SpeedtestError {
    open spec fn obeys_from_spec() -> bool {
        false
    }

    open spec fn from_spec(err: serde_json::Error) -> Self {
        SpeedtestError::JSONError(
            choose|text: String| to_string_from_display_ensures::<serde_json::Error>(&err, text),
        )
    }
}

impl From<std::io::Error> for SpeedtestError {
    fn from(err: std::io::Error) -> (error: SpeedtestError) {
        SpeedtestError::IOError(err)
    }
}

impl FromSpecImpl<std::io::Error> for SpeedtestError {
    open spec fn obeys_from_spec() -> bool {
        true
    }

    open spec fn from_spec(err: std::io::Error) -> Self {
        SpeedtestError::IOError(err)
    }
}

impl From<FromUtf8Error> for SpeedtestError {
    fn from(err: FromUtf8Error) -> (error: SpeedtestError) {
        SpeedtestError::UTF8Error(err)
    }
}

impl FromSpecImpl<FromUtf8Error> for SpeedtestError {
    open spec fn obeys_from_spec() -> bool {
        true
    }

    open spec fn from_spec(err: FromUtf8Error) -> Self {
        SpeedtestError::UTF8Error(err)
    }
}

} // verus!
