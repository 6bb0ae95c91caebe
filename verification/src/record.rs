//! The text of the persisted record: its header, one row per result, the
//! trailing summary, and the name of the file that holds them.

use crate::speedtest_data::SpeedtestStruct;
use crate::text::{decimal, fraction, padded_decimal, pow10, push_decimal, push_padded};
use crate::totals::{mbps_millionths, mean, to_mbps_millionths, RunningTotals};
use crate::utils::{escape_csv_field, escaped_field, UtcTime};
use vstd::prelude::*;
use vstd::string::StringExecFns;

verus! {

/// The header of the record.
pub open spec fn header_text() -> Seq<char> {
    "Timestamp,Latency,Download (Mbps),Upload (Mbps),ISP,Server Location,Result URL"@
}

/// The header of the summary that closes the record.
pub open spec fn summary_header_text() -> Seq<char> {
    "Average Download Speed (Mbps), Average Upload Speed (Mbps)"@
}

/// What stands for a mean that does not exist, because nothing was
/// observed.
pub open spec fn undefined_text() -> Seq<char> {
    "NaN"@
}

/// A throughput given in millionths of a megabit per second, written in
/// megabits per second: the whole part, then, unless the value is whole, a
/// point and up to six decimals without trailing zeros.
pub open spec fn mbps_text(millionths: nat) -> Seq<char> {
    let whole = millionths / 1_000_000;
    let frac = millionths % 1_000_000;
    if frac == 0 {
        decimal(whole)
    } else {
        decimal(whole) + seq!['.'] + fraction(frac, 6)
    }
}

/// The row of one result: timestamp, latency, download and upload
/// throughput in megabits per second, provider, server location and result
/// URL, separated by commas, each text field quoted where it needs it.
pub open spec fn data_row_text(result: SpeedtestStruct) -> Seq<char> {
    escaped_field(result.timestamp@) + seq![','] + escaped_field(result.ping.latency@) + seq![
        ',',
    ] + mbps_text(mbps_millionths(result.download.bandwidth)) + seq![','] + mbps_text(
        mbps_millionths(result.upload.bandwidth),
    ) + seq![','] + escaped_field(result.isp@) + seq![','] + escaped_field(
        result.server.location@,
    ) + seq![','] + escaped_field(result.result.url@)
}

/// The mean of `values`, given in millionths of a megabit per second,
/// written in megabits per second; `NaN` when there are no values.
pub open spec fn average_text(values: Seq<nat>) -> Seq<char> {
    match mean(values) {
        Some(value) => mbps_text(value),
        None => undefined_text(),
    }
}

/// The row of the summary: mean download and mean upload throughput.
pub open spec fn summary_row_text(downloads: Seq<nat>, uploads: Seq<nat>) -> Seq<char> {
    average_text(downloads) + seq![','] + average_text(uploads)
}

/// The lines that close the record: a blank line, the summary's header and
/// its row.
pub open spec fn summary_text(downloads: Seq<nat>, uploads: Seq<nat>) -> Seq<Seq<char>> {
    seq![Seq::<char>::empty(), summary_header_text(), summary_row_text(downloads, uploads)]
}

/// The name of the record's file for a run that started at `time`.
pub open spec fn file_name_text(time: UtcTime) -> Seq<char> {
    padded_decimal(time.0 as nat, 4) + seq!['-'] + padded_decimal(time.1 as nat, 2) + seq!['-']
        + padded_decimal(time.2 as nat, 2) + seq![' '] + padded_decimal(time.3 as nat, 2) + seq![
        '-',
    ] + padded_decimal(time.4 as nat, 2) + seq!['-'] + padded_decimal(time.5 as nat, 2) + ".csv"@
}

/// The header line of the record.
pub fn csv_header() -> (line: String)
    ensures
        line@ == header_text(),
{
    String::from_str(
        "Timestamp,Latency,Download (Mbps),Upload (Mbps),ISP,Server Location,Result URL",
    )
}

/// Appends a throughput, given in millionths of a megabit per second, in
/// megabits per second.
pub fn push_mbps(text: &mut String, millionths: u128)
    ensures
        final(text)@ == old(text)@ + mbps_text(millionths as nat),
{
    let ghost start = text@;
    push_decimal(text, millionths / 1_000_000);
    let mut frac: u128 = millionths % 1_000_000;
    if frac != 0 {
        text.push('.');
        let mut width: usize = 6;
        proof {
            reveal_with_fuel(pow10, 7);
        }
        while frac % 10 == 0
            invariant
                0 < frac < pow10(width as nat),
                1 <= width <= 6,
                fraction(frac as nat, width as nat) == fraction(
                    (millionths % 1_000_000) as nat,
                    6,
                ),
            decreases frac,
        {
            proof {
                reveal_with_fuel(pow10, 7);
            }
            frac = frac / 10;
            width = width - 1;
        }
        push_padded(text, frac, width);
        assert(text@ == start + (decimal((millionths / 1_000_000) as nat) + seq!['.'] + fraction(
            (millionths % 1_000_000) as nat,
            6,
        )));
    } else {
        assert(text@ == start + decimal((millionths / 1_000_000) as nat));
    }
}

/// A throughput, given in millionths of a megabit per second, written in
/// megabits per second.
pub fn mbps_to_text(millionths: u128) -> (text: String)
    ensures
        text@ == mbps_text(millionths as nat),
{
    let mut text = String::new();
    push_mbps(&mut text, millionths);
    text
}

/// The row that records `result`.
pub fn data_row(result: &SpeedtestStruct) -> (row: String)
    ensures
        row@ == data_row_text(*result),
{
    let mut row = escape_csv_field(result.timestamp.as_str());
    row.push(',');
    row.append(escape_csv_field(result.ping.latency.as_str()).as_str());
    row.push(',');
    push_mbps(&mut row, to_mbps_millionths(result.download.bandwidth));
    row.push(',');
    push_mbps(&mut row, to_mbps_millionths(result.upload.bandwidth));
    row.push(',');
    row.append(escape_csv_field(result.isp.as_str()).as_str());
    row.push(',');
    row.append(escape_csv_field(result.server.location.as_str()).as_str());
    row.push(',');
    row.append(escape_csv_field(result.result.url.as_str()).as_str());
    assert(row@ =~= data_row_text(*result));
    row
}

/// Appends a mean throughput, given in millionths of a megabit per second,
/// in megabits per second, or `NaN` where there is none.
pub fn push_average(text: &mut String, average: Option<u128>)
    ensures
        final(text)@ == old(text)@ + match average {
            Some(value) => mbps_text(value as nat),
            None => undefined_text(),
        },
{
    match average {
        Some(value) => push_mbps(text, value),
        None => text.append("NaN"),
    }
}

/// The lines that close the record for `totals`: a blank line, the header of
/// the summary, and the row of the two means.
pub fn summary_lines(totals: &RunningTotals) -> (lines: Vec<String>)
    ensures
        lines@.len() == 3,
        lines@.map_values(|line: String| line@) == summary_text(
            totals.downloads(),
            totals.uploads(),
        ),
{
    let mut row = String::new();
    push_average(&mut row, totals.average_download());
    row.push(',');
    push_average(&mut row, totals.average_upload());
    assert(row@ =~= summary_row_text(totals.downloads(), totals.uploads()));
    let mut lines: Vec<String> = Vec::new();
    lines.push(String::new());
    lines.push(
        String::from_str("Average Download Speed (Mbps), Average Upload Speed (Mbps)"),
    );
    lines.push(row);
    assert(lines@.map_values(|line: String| line@) =~= summary_text(
        totals.downloads(),
        totals.uploads(),
    ));
    lines
}

/// The time that names the record when the clock could not be read: all
/// zeros.
pub open spec fn time_or_zero(time: Result<UtcTime, std::io::Error>) -> UtcTime {
    match time {
        Ok(reading) => reading,
        Err(_) => (0u16, 0u8, 0u8, 0u8, 0u8, 0u8, 0u16),
    }
}

/// The name of the record's file for a run that started at `time`: date and
/// time of day to the second, each part filled with zeros to its width, and
/// the extension `.csv`. A clock that could not be read counts as all
/// zeros.
pub fn log_file_name(time: &Result<UtcTime, std::io::Error>) -> (name: String)
    ensures
        name@ == file_name_text(time_or_zero(*time)),
{
    let (year, month, day, hour, minute, second) = match time {
        Ok(reading) => (reading.0, reading.1, reading.2, reading.3, reading.4, reading.5),
        Err(_) => (0u16, 0u8, 0u8, 0u8, 0u8, 0u8),
    };
    let mut name = String::new();
    push_padded(&mut name, year as u128, 4);
    name.push('-');
    push_padded(&mut name, month as u128, 2);
    name.push('-');
    push_padded(&mut name, day as u128, 2);
    name.push(' ');
    push_padded(&mut name, hour as u128, 2);
    name.push('-');
    push_padded(&mut name, minute as u128, 2);
    name.push('-');
    push_padded(&mut name, second as u128, 2);
    name.append(".csv");
    assert(name@ =~= file_name_text(time_or_zero(*time)));
    name
}

} // verus!
