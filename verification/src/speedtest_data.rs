//! One measurement as the external tool reports it, and how the tool's raw
//! output is told apart into a report text or a failure.

use crate::error::{SpeedtestError, SpeedtestResult};
use std::string::FromUtf8Error;
use vstd::prelude::*;
use vstd::utf8::{decode_utf8, valid_utf8};

verus! {

/// One completed measurement.
///
/// Quantities that the tool reports as decimal fractions (the latencies and
/// jitters, in milliseconds) are held as the decimal text in which they are
/// written to the record.
#[derive(Debug, Clone, PartialEq, Eq)]
pub struct SpeedtestStruct {
    pub test_type: String,
    pub timestamp: String,
    pub ping: Ping,
    pub download: Transfer,
    pub upload: Transfer,
    pub packet_loss: Option<u64>,
    pub isp: String,
    pub interface: Interface,
    pub server: Server,
    pub result: TestResult,
}

/// Where the measurement can be looked up.
#[derive(Debug, Clone, PartialEq, Eq)]
pub struct TestResult {
    pub id: String,
    pub url: String,
    pub persisted: bool,
}

/// Round-trip times in milliseconds, each as decimal text.
#[derive(Debug, Clone, PartialEq, Eq)]
pub struct Ping {
    pub jitter: String,
    pub latency: String,
    pub low: String,
    pub high: String,
}

/// One direction of transfer; `bandwidth` is in bytes per second.
#[derive(Debug, Clone, PartialEq, Eq)]
pub struct Transfer {
    pub bandwidth: u64,
    pub bytes: u64,
    pub elapsed: u64,
    pub latency: Latency,
}

/// Latency under load in milliseconds, each as decimal text.
#[derive(Debug, Clone, PartialEq, Eq)]
pub struct Latency {
    pub iqm: String,
    pub low: String,
    pub jitter: String,
    pub high: String,
}

/// The network interface that the measurement went through.
#[derive(Debug, Clone, PartialEq, Eq)]
pub struct Interface {
    pub internal_ip: String,
    pub name: String,
    pub mac_addr: String,
    pub is_vpn: bool,
    pub external_ip: String,
}

/// The server that the measurement was taken against.
#[derive(Debug, Clone, PartialEq, Eq)]
pub struct Server {
    pub id: u64,
    pub host: String,
    pub port: u64,
    pub name: String,
    pub location: String,
    pub country: String,
    pub ip: String,
}

/// How the measurement tool is started: the executable's file name, looked
/// for beside the running program, and its arguments.
#[derive(Debug, Clone, PartialEq, Eq)]
pub struct ToolCommand {
    pub program: String,
    pub arguments: Vec<String>,
}

/// The command that runs one measurement: the tool `speedtest`, told to
/// accept the license and to report as JSON.
pub fn tool_command() -> (command: ToolCommand)
    ensures
        command.program@ == "speedtest"@,
        command.arguments@.len() == 2,
        command.arguments@[0]@ == "--accept-license"@,
        command.arguments@[1]@ == "--format=json"@,
{
    let mut arguments: Vec<String> = Vec::new();
    arguments.push("--accept-license".to_owned());
    arguments.push("--format=json".to_owned());
    ToolCommand { program: "speedtest".to_owned(), arguments }
}

/// What one run of the tool left behind.
#[derive(Debug, Clone, PartialEq, Eq)]
pub struct ToolOutput {
    /// Whether the tool ended with a successful exit status.
    pub success: bool,
    /// What it wrote to standard output.
    pub stdout: Vec<u8>,
    /// What it wrote to standard error.
    pub stderr: Vec<u8>,
}

/// The text that `String::from_utf8_lossy` makes of `bytes`: their decoding
/// as UTF-8, with each ill-formed part replaced by U+FFFD.
pub uninterp spec fn utf8_lossy(bytes: Seq<u8>) -> Seq<char>;

/// `String::from_utf8` turns the bytes into a string if and only if they are
/// valid UTF-8; the string is then their decoding.
pub assume_specification[ String::from_utf8 ](bytes: Vec<u8>) -> (text: Result<String, FromUtf8Error>)
    ensures
        text is Ok <==> valid_utf8(bytes@),
        text is Ok ==> text->Ok_0@ == decode_utf8(bytes@),
;

/// `String::from_utf8_lossy` decodes the bytes as UTF-8 and replaces what is
/// ill-formed; on valid UTF-8 the text is the plain decoding.
#[verifier::external_body]
fn lossy_text(bytes: &[u8]) -> (text: String)
    ensures
        text@ == utf8_lossy(bytes@),
        valid_utf8(bytes@) ==> text@ == decode_utf8(bytes@),
{
    String::from_utf8_lossy(bytes).into_owned()
}

/// The outcome that `output` stands for, as far as the raw output decides
/// it: a failure, or the report text that is still to be parsed.
pub open spec fn report_text_of(output: ToolOutput, outcome: SpeedtestResult<String>) -> bool {
    if !output.success {
        outcome matches Err(SpeedtestError::CLIError(reason)) && reason@ == utf8_lossy(
            output.stderr@,
        ) && (valid_utf8(output.stderr@) ==> reason@ == decode_utf8(output.stderr@))
    } else if valid_utf8(output.stdout@) {
        outcome matches Ok(text) && text@ == decode_utf8(output.stdout@)
    } else {
        outcome matches Err(SpeedtestError::UTF8Error(_))
    }
}

/// Tells a run of the tool apart: an unsuccessful exit is a failure that
/// carries the tool's standard error, decoded with what is ill-formed
/// replaced (the plain decoding where it is valid UTF-8); otherwise standard output must be
/// UTF-8 and is handed on as the report text.
pub fn report_text(output: ToolOutput) -> (outcome: SpeedtestResult<String>)
    ensures
        report_text_of(output, outcome),
{
    if !output.success {
        return Err(SpeedtestError::CLIError(lossy_text(output.stderr.as_slice())));
    }
    match String::from_utf8(output.stdout) {
        Ok(text) => Ok(text),
        Err(error) => Err(SpeedtestError::from(error)),
    }
}

} // verus!
