use speedtest_logger::error::{SpeedtestError, SpeedtestResult};
use speedtest_logger::pipeline::{
    conclude_attempt, on_scheduler_event, report_line, AttemptAction, AttemptReport, Config,
    SchedulerAction, SchedulerEvent, Writer, WriterAction, WriterEvent,
};
use speedtest_logger::record::csv_header;
use speedtest_logger::speedtest_data::{
    Interface, Latency, Ping, Server, SpeedtestStruct, TestResult, Transfer,
};
use speedtest_logger::totals::RunningTotals;

fn transfer(bandwidth: u64) -> Transfer {
    Transfer {
        bandwidth,
        bytes: 1,
        elapsed: 1,
        latency: Latency {
            iqm: "1".to_string(),
            low: "1".to_string(),
            jitter: "1".to_string(),
            high: "1".to_string(),
        },
    }
}

fn result_with(tag: &str, download: u64, upload: u64) -> SpeedtestStruct {
    SpeedtestStruct {
        test_type: "result".to_string(),
        timestamp: tag.to_string(),
        ping: Ping {
            jitter: "0.1".to_string(),
            latency: "9.5".to_string(),
            low: "9".to_string(),
            high: "10".to_string(),
        },
        download: transfer(download),
        upload: transfer(upload),
        packet_loss: None,
        isp: "ISP".to_string(),
        interface: Interface {
            internal_ip: "10.0.0.2".to_string(),
            name: "wlan0".to_string(),
            mac_addr: "aa:bb:cc:dd:ee:ff".to_string(),
            is_vpn: false,
            external_ip: "198.51.100.1".to_string(),
        },
        server: Server {
            id: 1,
            host: "host".to_string(),
            port: 8080,
            name: "name".to_string(),
            location: "Town".to_string(),
            country: "Land".to_string(),
            ip: "198.51.100.2".to_string(),
        },
        result: TestResult { id: "id".to_string(), url: "url".to_string(), persisted: true },
    }
}

fn delivered(result: SpeedtestStruct) -> WriterEvent {
    WriterEvent::Result { result, record_exists: true }
}

/// Runs the attempts through the pipeline in the order given, then
/// interrupts; returns every line of the record.
fn record_of(outcomes: Vec<SpeedtestResult<SpeedtestStruct>>) -> (Vec<String>, Writer) {
    let mut lines = vec![csv_header()];
    let mut writer = Writer::new();
    for outcome in outcomes {
        match conclude_attempt(outcome) {
            AttemptAction::Enqueue(result) => match writer.handle(delivered(result)) {
                WriterAction::AppendRow(row) => lines.push(row),
                other => panic!("unexpected {:?}", other),
            },
            AttemptAction::Discard(_) => {},
        }
    }
    match writer.handle(WriterEvent::Interrupt) {
        WriterAction::Finish(summary) => lines.extend(summary),
        other => panic!("unexpected {:?}", other),
    }
    (lines, writer)
}

#[test]
fn default_settings() {
    let config = Config::default();
    assert_eq!(config.run_interval_secs, 300);
    assert_eq!(config.channel_capacity, 32);
    assert_eq!(config.app_name, "send comic feet pics");
}

#[test]
fn nothing_is_launched_before_the_first_tick() {
    assert_eq!(on_scheduler_event(SchedulerEvent::Started), SchedulerAction::AwaitTick);
}

#[test]
fn every_tick_launches_one_attempt() {
    let mut launched = 0;
    let events = [
        SchedulerEvent::Started,
        SchedulerEvent::Tick,
        SchedulerEvent::Tick,
        SchedulerEvent::Tick,
    ];
    for event in events {
        if on_scheduler_event(event) == SchedulerAction::LaunchAttempt {
            launched += 1;
        }
    }
    assert_eq!(launched, 3);
}

#[test]
fn successful_attempt_is_enqueued() {
    let result = result_with("t1", 1, 2);
    match conclude_attempt(Ok(result.clone())) {
        AttemptAction::Enqueue(sent) => assert_eq!(sent, result),
        other => panic!("unexpected {:?}", other),
    }
}

#[test]
fn failed_attempt_is_discarded_with_its_reason() {
    let failure = SpeedtestError::CLIError("boom".to_string());
    match conclude_attempt(Err(failure)) {
        AttemptAction::Discard(SpeedtestError::CLIError(reason)) => assert_eq!(reason, "boom"),
        other => panic!("unexpected {:?}", other),
    }
}

#[test]
fn console_lines_carry_the_unix_time() {
    assert_eq!(
        report_line(1_709_210_096, &AttemptReport::Started),
        "[1709210096] Running speed test..."
    );
    assert_eq!(
        report_line(0, &AttemptReport::Succeeded),
        "[0] Successfully ran a speedtest. You may quit at any time with Ctrl+C."
    );
    assert_eq!(
        report_line(u64::MAX, &AttemptReport::Failed("no network".to_string())),
        "[18446744073709551615] Speedtest has failed: no network"
    );
}

#[test]
fn totals_grow_by_one_per_result_in_order() {
    let bandwidths: [(u64, u64); 4] =
        [(12_500_000, 1_250_000), (1, 0), (u64::MAX, 7), (25_000_000, 625_000)];
    let mut writer = Writer::new();
    let mut count = 0;
    for (download, upload) in bandwidths {
        assert_eq!(writer.totals().len(), count);
        let action = writer.handle(delivered(result_with("t", download, upload)));
        assert!(matches!(action, WriterAction::AppendRow(_)));
        count += 1;
    }
    let totals = writer.totals();
    assert_eq!(totals.len(), 4);
    for (index, (download, upload)) in bandwidths.into_iter().enumerate() {
        assert_eq!(totals.download_at(index), Some(download as u128 * 8));
        assert_eq!(totals.upload_at(index), Some(upload as u128 * 8));
    }
    assert_eq!(totals.download_at(4), None);
    assert_eq!(totals.upload_at(4), None);
    assert_eq!(totals.download_at(0), Some(100_000_000));
    assert_eq!(totals.download_at(3), Some(200_000_000));
}

#[test]
fn average_is_the_arithmetic_mean() {
    let mut totals = RunningTotals::new();
    totals.record(&result_with("a", 12_500_000, 0));
    totals.record(&result_with("b", 25_000_000, 0));
    assert_eq!(totals.download_at(0), Some(100_000_000));
    assert_eq!(totals.download_at(1), Some(200_000_000));
    assert_eq!(totals.average_download(), Some(150_000_000));
    assert_eq!(totals.average_upload(), Some(0));
}

#[test]
fn average_is_rounded_down() {
    let mut totals = RunningTotals::new();
    totals.record(&result_with("a", 1, 1));
    totals.record(&result_with("b", 1, 2));
    totals.record(&result_with("c", 2, 2));
    assert_eq!(totals.average_download(), Some(10));
    assert_eq!(totals.average_upload(), Some(13));
}

#[test]
fn average_of_the_largest_bandwidths_does_not_overflow() {
    let mut totals = RunningTotals::new();
    totals.record(&result_with("a", u64::MAX, u64::MAX));
    totals.record(&result_with("b", u64::MAX, u64::MAX - 1));
    totals.record(&result_with("c", u64::MAX, u64::MAX));
    assert_eq!(totals.average_download(), Some(8 * (u64::MAX as u128)));
    assert_eq!(totals.average_upload(), Some(8 * (u64::MAX as u128) - 3));
}

#[test]
fn average_of_nothing_is_undefined() {
    let totals = RunningTotals::new();
    assert_eq!(totals.len(), 0);
    assert_eq!(totals.average_download(), None);
    assert_eq!(totals.average_upload(), None);
}

#[test]
fn failure_never_reaches_the_totals() {
    let mut writer = Writer::new();
    let outcomes: Vec<SpeedtestResult<SpeedtestStruct>> = vec![
        Err(SpeedtestError::CLIError("tool failed".to_string())),
        Ok(result_with("t1", 5, 5)),
        Err(SpeedtestError::CLIError("tool failed again".to_string())),
    ];
    let mut sent = 0;
    for outcome in outcomes {
        let before = writer.totals().len();
        match conclude_attempt(outcome) {
            AttemptAction::Enqueue(result) => {
                sent += 1;
                writer.handle(delivered(result));
                assert_eq!(writer.totals().len(), before + 1);
            },
            AttemptAction::Discard(error) => {
                assert!(matches!(error, SpeedtestError::CLIError(_)));
                assert_eq!(writer.totals().len(), before);
            },
        }
    }
    assert_eq!(sent, 1);
    assert_eq!(writer.totals().len(), 1);
}

#[test]
fn interrupt_without_results_still_writes_the_summary() {
    let mut writer = Writer::new();
    match writer.handle(WriterEvent::Interrupt) {
        WriterAction::Finish(lines) => assert_eq!(
            lines,
            vec![
                String::new(),
                "Average Download Speed (Mbps), Average Upload Speed (Mbps)".to_string(),
                "NaN,NaN".to_string(),
            ]
        ),
        other => panic!("unexpected {:?}", other),
    }
    assert!(!writer.is_running());
}

#[test]
fn two_successes_and_a_failure_end_to_end() {
    let outcomes: Vec<SpeedtestResult<SpeedtestStruct>> = vec![
        Ok(result_with("first", 1_250_000, 625_000)),
        Err(SpeedtestError::CLIError("failed".to_string())),
        Ok(result_with("second", 2_500_000, 1_875_000)),
    ];
    let (lines, writer) = record_of(outcomes);
    assert_eq!(
        lines,
        vec![
            "Timestamp,Latency,Download (Mbps),Upload (Mbps),ISP,Server Location,Result URL"
                .to_string(),
            "first,9.5,10,5,ISP,Town,url".to_string(),
            "second,9.5,20,15,ISP,Town,url".to_string(),
            String::new(),
            "Average Download Speed (Mbps), Average Upload Speed (Mbps)".to_string(),
            "15,10".to_string(),
        ]
    );
    assert_eq!(writer.totals().len(), 2);
    assert!(!writer.is_running());
}

#[test]
fn second_interrupt_is_ignored() {
    let mut writer = Writer::new();
    writer.handle(delivered(result_with("t", 1, 1)));
    assert!(matches!(writer.handle(WriterEvent::Interrupt), WriterAction::Finish(_)));
    assert_eq!(writer.handle(WriterEvent::Interrupt), WriterAction::Ignored);
    assert_eq!(writer.handle(WriterEvent::Closed), WriterAction::Ignored);
    assert_eq!(writer.handle(delivered(result_with("late", 9, 9))), WriterAction::Ignored);
    assert_eq!(writer.totals().len(), 1);
    assert!(!writer.is_running());
}

#[test]
fn closed_channel_ends_the_loop_without_a_summary() {
    let mut writer = Writer::new();
    assert!(writer.is_running());
    assert_eq!(writer.handle(WriterEvent::Closed), WriterAction::StopProducersClosed);
    assert!(!writer.is_running());
    assert_eq!(writer.handle(WriterEvent::Interrupt), WriterAction::Ignored);
}

#[test]
fn vanished_record_ends_the_loop_without_a_row() {
    let mut writer = Writer::new();
    let event = WriterEvent::Result { result: result_with("t", 3, 4), record_exists: false };
    assert_eq!(writer.handle(event), WriterAction::StopRecordMissing);
    assert!(!writer.is_running());
    assert_eq!(writer.totals().len(), 1);
    assert_eq!(writer.handle(delivered(result_with("t", 3, 4))), WriterAction::Ignored);
}

#[test]
fn row_is_built_from_the_result() {
    let mut writer = Writer::new();
    let mut result = result_with("2024-01-01T00:00:00Z", 12_500_000, 6_250_001);
    result.isp = "Net, \"The\" ISP".to_string();
    match writer.handle(delivered(result)) {
        WriterAction::AppendRow(row) => assert_eq!(
            row,
            "2024-01-01T00:00:00Z,9.5,100,50.000008,\"Net, \"\"The\"\" ISP\",Town,url"
        ),
        other => panic!("unexpected {:?}", other),
    }
    assert!(writer.is_running());
}
