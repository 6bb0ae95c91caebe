//! A logger of network speed measurements.
//!
//! An external tool measures latency and throughput at a fixed cadence;
//! every result is appended as a row to a comma-separated record, and an
//! interrupt closes the record with the mean throughputs. This library holds
//! the rules of that program, each with a contract that is checked by Verus:
//!
//! - [`pipeline`]: what the scheduler, a finished attempt and the single
//!   writer decide, as functions from an event to an action;
//! - [`totals`]: the throughputs observed so far and their mean;
//! - [`record`]: the text of the record and the name of its file;
//! - [`speedtest_data`]: a measurement as the tool reports it, and how the
//!   tool's raw output is told apart;
//! - [`error`]: the failures of an attempt;
//! - [`storage`]: where the record is kept and how it is prepared;
//! - [`utils`]: the calendar, the clock and the quoting of text fields;
//! - [`text`]: numbers written in decimal.
//!
//! Waiting (for the timer, the channel, the interrupt) and all input and
//! output are left to the program around the library.
//!
//! Throughputs are kept exact: a bandwidth of `b` bytes per second is
//! `b × 8 / 1,000,000` megabits per second, and is counted as `8 × b`
//! millionths of a megabit per second.

pub mod error;
pub mod pipeline;
pub mod record;
pub mod speedtest_data;
pub mod storage;
pub mod text;
pub mod totals;
pub mod utils;
