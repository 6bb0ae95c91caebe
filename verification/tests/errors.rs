use speedtest_logger::error::{FailureKind, SpeedtestError};
use speedtest_logger::speedtest_data::{report_text, tool_command, ToolOutput};

fn parser_error() -> serde_json::Error {
    match serde_json::from_str::<serde_json::Value>("{\"type\": ") {
        Ok(_) => panic!("the text is not valid JSON"),
        Err(error) => error,
    }
}

fn utf8_error() -> std::string::FromUtf8Error {
    match String::from_utf8(vec![0x66, 0x6f, 0xff]) {
        Ok(_) => panic!("the bytes are not valid UTF-8"),
        Err(error) => error,
    }
}

#[test]
fn tool_failure_keeps_its_reason() {
    let error = SpeedtestError::CLIError(String::from("no network"));
    assert_eq!(error.kind(), FailureKind::ToolReportedFailure);
    assert_eq!(error.message(), "no network");
}

#[test]
fn parser_error_becomes_json_error_with_its_text() {
    let source = parser_error();
    let text = source.to_string();
    assert!(!text.is_empty());
    let error = SpeedtestError::from(source);
    assert_eq!(error.kind(), FailureKind::MalformedOutput);
    assert_eq!(error.message(), text);
    match error {
        SpeedtestError::JSONError(reason) => assert_eq!(reason, text),
        other => panic!("unexpected {:?}", other),
    }
}

#[test]
fn io_error_becomes_io_error() {
    let source = std::io::Error::new(std::io::ErrorKind::NotFound, "speedtest is missing");
    let error = SpeedtestError::from(source);
    assert_eq!(error.kind(), FailureKind::ToolInvocationFailed);
    assert_eq!(error.message(), "speedtest is missing");
    assert!(matches!(error, SpeedtestError::IOError(_)));
}

#[test]
fn utf8_error_becomes_utf8_error() {
    let source = utf8_error();
    let text = source.to_string();
    let error = SpeedtestError::from(source);
    assert_eq!(error.kind(), FailureKind::MalformedOutput);
    assert_eq!(error.message(), text);
    assert!(matches!(error, SpeedtestError::UTF8Error(_)));
}

fn launch_that_fails() -> Result<(), SpeedtestError> {
    Err(std::io::Error::new(std::io::ErrorKind::Other, "launch failed"))?;
    Ok(())
}

#[test]
fn question_mark_converts_errors() {
    match launch_that_fails() {
        Err(SpeedtestError::IOError(inner)) => assert_eq!(inner.to_string(), "launch failed"),
        other => panic!("unexpected {:?}", other),
    }
}

#[test]
fn tool_is_run_with_license_and_json_flags() {
    let command = tool_command();
    assert_eq!(command.program, "speedtest");
    assert_eq!(command.arguments, vec!["--accept-license".to_string(), "--format=json".to_string()]);
}

#[test]
fn successful_run_hands_on_its_output() {
    let output = ToolOutput {
        success: true,
        stdout: "{\"type\":\"result\"}".as_bytes().to_vec(),
        stderr: b"ignored".to_vec(),
    };
    match report_text(output) {
        Ok(text) => assert_eq!(text, "{\"type\":\"result\"}"),
        Err(error) => panic!("unexpected {:?}", error),
    }
}

#[test]
fn successful_run_decodes_multibyte_output() {
    let output = ToolOutput {
        success: true,
        stdout: "Zürich ✓".as_bytes().to_vec(),
        stderr: Vec::new(),
    };
    match report_text(output) {
        Ok(text) => assert_eq!(text, "Zürich ✓"),
        Err(error) => panic!("unexpected {:?}", error),
    }
}

#[test]
fn failed_run_reports_standard_error() {
    let output = ToolOutput {
        success: false,
        stdout: b"{\"type\":\"result\"}".to_vec(),
        stderr: b"Configuration - Couldn't resolve host name".to_vec(),
    };
    match report_text(output) {
        Err(SpeedtestError::CLIError(reason)) => {
            assert_eq!(reason, "Configuration - Couldn't resolve host name")
        },
        other => panic!("unexpected {:?}", other),
    }
}

#[test]
fn failed_run_replaces_ill_formed_standard_error() {
    let output = ToolOutput { success: false, stdout: Vec::new(), stderr: vec![0x6f, 0x68, 0xff, 0x21] };
    match report_text(output) {
        Err(SpeedtestError::CLIError(reason)) => assert_eq!(reason, "oh\u{fffd}!"),
        other => panic!("unexpected {:?}", other),
    }
}

#[test]
fn failed_run_with_empty_standard_error() {
    let output = ToolOutput { success: false, stdout: Vec::new(), stderr: Vec::new() };
    match report_text(output) {
        Err(SpeedtestError::CLIError(reason)) => assert_eq!(reason, ""),
        other => panic!("unexpected {:?}", other),
    }
}

#[test]
fn output_that_is_not_utf8_is_malformed() {
    let output = ToolOutput { success: true, stdout: vec![0x7b, 0xc3, 0x28, 0x7d], stderr: Vec::new() };
    match report_text(output) {
        Err(error) => {
            assert!(matches!(error, SpeedtestError::UTF8Error(_)));
            assert_eq!(error.kind(), FailureKind::MalformedOutput);
        },
        Ok(text) => panic!("unexpected {:?}", text),
    }
}
