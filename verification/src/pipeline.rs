//! The decisions of the measuring pipeline: when the scheduler launches an
//! attempt, what becomes of an attempt's outcome, and what the single writer
//! does with each thing that reaches its loop. The waiting itself (timer,
//! channel, interrupt) is the caller's part: it reports what happened as an
//! event and carries out the action it gets back.

use crate::error::{SpeedtestError, SpeedtestResult};
use crate::record::{
    average_text,
    data_row,
    data_row_text,
    summary_header_text,
    summary_lines,
    summary_text,
    undefined_text,
};
use crate::speedtest_data::SpeedtestStruct;
use crate::text::{decimal, push_decimal};
use crate::totals::{mbps_millionths, RunningTotals};
use vstd::prelude::*;
use vstd::string::StringExecFns;

verus! {

/// The settings of a run.
#[derive(Debug, Clone, PartialEq, Eq)]
pub struct Config {
    /// Seconds between two launches of a measurement.
    pub run_interval_secs: u64,
    /// Number of results that the channel to the writer holds before a
    /// sender has to wait.
    pub channel_capacity: usize,
    /// Name of the directory that holds this program's data.
    pub app_name: String,
}

impl Default for Config {
    /// A measurement every 300 seconds, a channel of 32 results.
    fn default() -> (config: Config)
        ensures
            config.run_interval_secs == 300,
            config.channel_capacity == 32,
            config.app_name@ == "send comic feet pics"@,
    {
        Config {
            run_interval_secs: 300,
            channel_capacity: 32,
            app_name: String::from_str("send comic feet pics"),
        }
    }
}

/// What the scheduler waits for.
#[derive(Debug, Clone, Copy, PartialEq, Eq, Structural)]
pub enum SchedulerEvent {
    /// The scheduler has just been started.
    Started,
    /// The timer fired.
    Tick,
}

/// What the scheduler does next.
#[derive(Debug, Clone, Copy, PartialEq, Eq, Structural)]
pub enum SchedulerAction {
    /// Wait for the timer; launch nothing.
    AwaitTick,
    /// Launch one attempt that runs on its own, then wait for the timer
    /// without waiting for the attempt.
    LaunchAttempt,
}

/// The scheduler's rule: nothing is launched at the start, one attempt at
/// every tick, whatever is still running.
pub open spec fn scheduled(event: SchedulerEvent) -> SchedulerAction {
    match event {
        SchedulerEvent::Started => SchedulerAction::AwaitTick,
        SchedulerEvent::Tick => SchedulerAction::LaunchAttempt,
    }
}

/// Number of ticks among `events`.
pub open spec fn ticks(events: Seq<SchedulerEvent>) -> nat
    decreases events.len(),
{
    if events.len() == 0 {
        0
    } else {
        ticks(events.drop_last()) + if events.last() == SchedulerEvent::Tick {
            1nat
        } else {
            0nat
        }
    }
}

/// Number of attempts launched in answer to `events`.
pub open spec fn launches(events: Seq<SchedulerEvent>) -> nat
    decreases events.len(),
{
    if events.len() == 0 {
        0
    } else {
        launches(events.drop_last()) + if scheduled(events.last())
            == SchedulerAction::LaunchAttempt {
            1nat
        } else {
            0nat
        }
    }
}

/// As many attempts are launched as the timer has fired: none before the
/// first tick, and none is held back by another.
pub proof fn lemma_one_launch_per_tick(events: Seq<SchedulerEvent>)
    ensures
        launches(events) == ticks(events),
    decreases events.len(),
{
    if events.len() > 0 {
        lemma_one_launch_per_tick(events.drop_last());
    }
}

/// Decides what the scheduler does after `event`.
pub fn on_scheduler_event(event: SchedulerEvent) -> (action: SchedulerAction)
    ensures
        action == scheduled(event),
{
    match event {
        SchedulerEvent::Started => SchedulerAction::AwaitTick,
        SchedulerEvent::Tick => SchedulerAction::LaunchAttempt,
    }
}

/// What becomes of a finished attempt.
#[derive(Debug)]
pub enum AttemptAction {
    /// Report the success and send the result to the writer, waiting while
    /// the channel is full.
    Enqueue(SpeedtestStruct),
    /// Report the failure and do nothing more: no retry, nothing sent.
    Discard(SpeedtestError),
}

/// The rule for a finished attempt: a result is sent on, a failure is
/// dropped.
pub open spec fn concluded(outcome: SpeedtestResult<SpeedtestStruct>) -> AttemptAction {
    match outcome {
        Ok(result) => AttemptAction::Enqueue(result),
        Err(error) => AttemptAction::Discard(error),
    }
}

/// Decides what becomes of a finished attempt.
pub fn conclude_attempt(outcome: SpeedtestResult<SpeedtestStruct>) -> (action: AttemptAction)
    ensures
        action == concluded(outcome),
{
    match outcome {
        Ok(result) => AttemptAction::Enqueue(result),
        Err(error) => AttemptAction::Discard(error),
    }
}

/// The results that are sent to the writer for the attempts that finished
/// with `outcomes`, in the order in which they finished.
pub open spec fn enqueued(outcomes: Seq<SpeedtestResult<SpeedtestStruct>>) -> Seq<SpeedtestStruct>
    decreases outcomes.len(),
{
    if outcomes.len() == 0 {
        Seq::empty()
    } else {
        match concluded(outcomes.last()) {
            AttemptAction::Enqueue(result) => enqueued(outcomes.drop_last()).push(result),
            AttemptAction::Discard(_) => enqueued(outcomes.drop_last()),
        }
    }
}

/// What is reported of an attempt on the console.
#[derive(Debug, Clone, PartialEq, Eq)]
pub enum AttemptReport {
    /// The attempt starts.
    Started,
    /// The attempt produced a result.
    Succeeded,
    /// The attempt failed for the given reason.
    Failed(String),
}

/// The text of a report, without its time tag.
pub open spec fn report_text(report: AttemptReport) -> Seq<char> {
    match report {
        AttemptReport::Started => "Running speed test..."@,
        AttemptReport::Succeeded =>
            "Successfully ran a speedtest. You may quit at any time with Ctrl+C."@,
        AttemptReport::Failed(reason) => "Speedtest has failed: "@ + reason@,
    }
}

/// A console line: the Unix time in square brackets, a space, the report.
pub open spec fn report_line_text(now_secs: u64, report: AttemptReport) -> Seq<char> {
    seq!['['] + decimal(now_secs as nat) + seq![']', ' '] + report_text(report)
}

/// The console line that reports `report` at the Unix time `now_secs`.
pub fn report_line(now_secs: u64, report: &AttemptReport) -> (line: String)
    ensures
        line@ == report_line_text(now_secs, *report),
{
    let mut line = String::new();
    line.push('[');
    push_decimal(&mut line, now_secs as u128);
    line.push(']');
    line.push(' ');
    match report {
        AttemptReport::Started => line.append("Running speed test..."),
        AttemptReport::Succeeded => line.append(
            "Successfully ran a speedtest. You may quit at any time with Ctrl+C.",
        ),
        AttemptReport::Failed(reason) => {
            line.append("Speedtest has failed: ");
            line.append(reason.as_str());
        },
    }
    assert(line@ =~= report_line_text(now_secs, *report));
    line
}

/// What reaches the writer's loop.
#[derive(Debug, Clone, PartialEq, Eq)]
pub enum WriterEvent {
    /// The channel delivered a result; `record_exists` tells whether the
    /// record's file is still in its place.
    Result { result: SpeedtestStruct, record_exists: bool },
    /// The channel is closed: every sender is gone.
    Closed,
    /// The interrupt request arrived.
    Interrupt,
}

/// What the writer does in answer to an event.
#[derive(Debug, Clone, PartialEq, Eq)]
pub enum WriterAction {
    /// Append this row to the record and go on waiting. A row that cannot
    /// be written is reported and does not end the loop.
    AppendRow(String),
    /// The record is gone: report it and leave the loop without writing.
    StopRecordMissing,
    /// Report that the producers have closed and leave the loop.
    StopProducersClosed,
    /// Append these lines, which close the record with the means, report
    /// where the record lies, and leave the loop.
    Finish(Vec<String>),
    /// The loop has ended before: nothing is done.
    Ignored,
}

/// A `WriterAction` with its texts as sequences of characters.
pub enum ActionView {
    AppendRow(Seq<char>),
    StopRecordMissing,
    StopProducersClosed,
    Finish(Seq<Seq<char>>),
    Ignored,
}

impl View for WriterAction {
    type V = ActionView;

    open spec fn view(&self) -> ActionView {
        match self {
            WriterAction::AppendRow(row) => ActionView::AppendRow(row@),
            WriterAction::StopRecordMissing => ActionView::StopRecordMissing,
            WriterAction::StopProducersClosed => ActionView::StopProducersClosed,
            WriterAction::Finish(lines) => ActionView::Finish(
                lines@.map_values(|line: String| line@),
            ),
            WriterAction::Ignored => ActionView::Ignored,
        }
    }
}

/// The state of the writer: the throughputs observed so far, in millionths
/// of a megabit per second, and whether its loop is still running.
pub struct WriterModel {
    pub downloads: Seq<nat>,
    pub uploads: Seq<nat>,
    pub running: bool,
}

/// The writer before anything has reached it.
pub open spec fn initial() -> WriterModel {
    WriterModel { downloads: Seq::empty(), uploads: Seq::empty(), running: true }
}

/// The writer's rule, from its state and an event to its next state and its
/// action.
///
/// While the loop runs: a result is taken into the totals, and its row is
/// appended if the record is still there, else the loop ends; a closed
/// channel ends the loop; an interrupt ends it with the summary of what was
/// observed up to then. Once the loop has ended nothing has any effect.
pub open spec fn step(model: WriterModel, event: WriterEvent) -> (WriterModel, ActionView) {
    if !model.running {
        (model, ActionView::Ignored)
    } else {
        match event {
            WriterEvent::Result { result, record_exists } => {
                let downloads = model.downloads.push(mbps_millionths(result.download.bandwidth));
                let uploads = model.uploads.push(mbps_millionths(result.upload.bandwidth));
                if record_exists {
                    (
                        WriterModel { downloads, uploads, running: true },
                        ActionView::AppendRow(data_row_text(result)),
                    )
                } else {
                    (
                        WriterModel { downloads, uploads, running: false },
                        ActionView::StopRecordMissing,
                    )
                }
            },
            WriterEvent::Closed => (
                WriterModel { running: false, ..model },
                ActionView::StopProducersClosed,
            ),
            WriterEvent::Interrupt => (
                WriterModel { running: false, ..model },
                ActionView::Finish(summary_text(model.downloads, model.uploads)),
            ),
        }
    }
}

/// The state of a writer that was in the state `model` and has since taken
/// `events`, one after the other.
pub open spec fn run(model: WriterModel, events: Seq<WriterEvent>) -> WriterModel
    decreases events.len(),
{
    if events.len() == 0 {
        model
    } else {
        step(run(model, events.drop_last()), events.last()).0
    }
}

/// The action with which such a writer answers the event at `index`.
pub open spec fn action_at(model: WriterModel, events: Seq<WriterEvent>, index: int) -> ActionView {
    step(run(model, events.take(index)), events[index]).1
}

/// The actions that leave the loop.
pub open spec fn is_exit(action: ActionView) -> bool {
    action is StopRecordMissing || action is StopProducersClosed || action is Finish
}

/// The event that hands `result` to the writer.
pub open spec fn delivery(result: SpeedtestStruct, record_exists: bool) -> WriterEvent {
    WriterEvent::Result { result, record_exists }
}

/// The results as the channel hands them to the writer while the record
/// is in its place.
pub open spec fn deliveries(results: Seq<SpeedtestStruct>) -> Seq<WriterEvent> {
    results.map_values(|result: SpeedtestStruct| delivery(result, true))
}

/// The download throughput of each of `results`, in millionths of a megabit
/// per second.
pub open spec fn download_values(results: Seq<SpeedtestStruct>) -> Seq<nat> {
    results.map_values(|result: SpeedtestStruct| mbps_millionths(result.download.bandwidth))
}

/// The upload throughput of each of `results`, in millionths of a megabit
/// per second.
pub open spec fn upload_values(results: Seq<SpeedtestStruct>) -> Seq<nat> {
    results.map_values(|result: SpeedtestStruct| mbps_millionths(result.upload.bandwidth))
}

/// An action leaves the loop exactly when the loop was running before it
/// and is not running after it.
pub proof fn lemma_exit_ends_loop(model: WriterModel, event: WriterEvent)
    ensures
        is_exit(step(model, event).1) <==> model.running && !step(model, event).0.running,
        !model.running ==> step(model, event) == (model, ActionView::Ignored),
{
}

/// Once the loop has ended, no event changes the writer's state.
pub proof fn lemma_ended_stays_ended(model: WriterModel, events: Seq<WriterEvent>)
    requires
        !model.running,
    ensures
        run(model, events) == model,
    decreases events.len(),
{
    if events.len() > 0 {
        lemma_ended_stays_ended(model, events.drop_last());
    }
}

/// A loop that is running at the end was running all the way.
proof fn lemma_running_was_running(model: WriterModel, events: Seq<WriterEvent>, index: int)
    requires
        0 <= index <= events.len(),
        run(model, events).running,
    ensures
        run(model, events.take(index)).running,
    decreases events.len(),
{
    if index < events.len() {
        assert(events.drop_last().take(index) == events.take(index));
        lemma_running_was_running(model, events.drop_last(), index);
    } else {
        assert(events.take(index) == events);
    }
}

/// The loop is left once: after an action that leaves it, every later
/// event is ignored. In particular the summary is written at most once,
/// however many interrupts arrive.
pub proof fn lemma_loop_ends_once(
    model: WriterModel,
    events: Seq<WriterEvent>,
    first: int,
    later: int,
)
    requires
        0 <= first < later < events.len(),
        is_exit(action_at(model, events, first)),
    ensures
        action_at(model, events, later) == ActionView::Ignored,
{
    let before = run(model, events.take(later));
    if before.running {
        lemma_running_was_running(model, events.take(later), first + 1);
        assert(events.take(later).take(first + 1) == events.take(first + 1));
        assert(events.take(first + 1).drop_last() == events.take(first));
        assert(events.take(first + 1).last() == events[first]);
    }
}

/// No result that reaches a running writer is lost: it is counted in the
/// totals, and either its row is appended or, the record being gone, the
/// loop ends.
pub proof fn lemma_no_result_is_lost(
    model: WriterModel,
    result: SpeedtestStruct,
    record_exists: bool,
)
    requires
        model.running,
    ensures
        step(model, delivery(result, record_exists)).0.downloads == model.downloads.push(
            mbps_millionths(result.download.bandwidth),
        ),
        step(model, delivery(result, record_exists)).0.uploads == model.uploads.push(
            mbps_millionths(result.upload.bandwidth),
        ),
        record_exists ==> step(model, delivery(result, record_exists)).1 == ActionView::AppendRow(
            data_row_text(result),
        ),
        !record_exists ==> step(model, delivery(result, record_exists)).1
            == ActionView::StopRecordMissing,
{
}

/// After the results `r1..rN` have been received in this order, the totals
/// hold `N` download and `N` upload values, and the value at each place is
/// the throughput of the result at that place.
pub proof fn lemma_totals_follow_results(results: Seq<SpeedtestStruct>)
    ensures
        run(initial(), deliveries(results)).running,
        run(initial(), deliveries(results)).downloads == download_values(results),
        run(initial(), deliveries(results)).uploads == upload_values(results),
        run(initial(), deliveries(results)).downloads.len() == results.len(),
        run(initial(), deliveries(results)).uploads.len() == results.len(),
    decreases results.len(),
{
    if results.len() > 0 {
        lemma_totals_follow_results(results.drop_last());
        assert(deliveries(results).drop_last() == deliveries(results.drop_last()));
        assert(download_values(results) == download_values(results.drop_last()).push(
            mbps_millionths(results.last().download.bandwidth),
        ));
        assert(upload_values(results) == upload_values(results.drop_last()).push(
            mbps_millionths(results.last().upload.bandwidth),
        ));
    } else {
        assert(download_values(results) == Seq::<nat>::empty());
        assert(upload_values(results) == Seq::<nat>::empty());
    }
}

/// A failed attempt sends nothing to the writer, so the totals are what
/// they would be without it.
pub proof fn lemma_failure_adds_nothing(
    outcomes: Seq<SpeedtestResult<SpeedtestStruct>>,
    error: SpeedtestError,
)
    ensures
        concluded(Err(error)) is Discard,
        enqueued(outcomes.push(Err(error))) == enqueued(outcomes),
        run(initial(), deliveries(enqueued(outcomes.push(Err(error))))) == run(
            initial(),
            deliveries(enqueued(outcomes)),
        ),
{
    assert(outcomes.push(Err(error)).drop_last() == outcomes);
}

/// A successful attempt sends exactly its result, after those sent before.
pub proof fn lemma_success_adds_its_result(
    outcomes: Seq<SpeedtestResult<SpeedtestStruct>>,
    result: SpeedtestStruct,
)
    ensures
        enqueued(outcomes.push(Ok(result))) == enqueued(outcomes).push(result),
{
    assert(outcomes.push(Ok(result)).drop_last() == outcomes);
}

/// An interrupt closes the record with the means of what was observed up to
/// then, whatever that is.
pub proof fn lemma_interrupt_writes_means(model: WriterModel)
    requires
        model.running,
    ensures
        step(model, WriterEvent::Interrupt).1 == ActionView::Finish(
            seq![
                Seq::<char>::empty(),
                summary_header_text(),
                average_text(model.downloads) + seq![','] + average_text(model.uploads),
            ],
        ),
        !step(model, WriterEvent::Interrupt).0.running,
{
}

/// An interrupt before any result still closes the record: the summary is
/// written, and both means, which do not exist, are written as `NaN`.
pub proof fn lemma_interrupt_without_results()
    ensures
        step(initial(), WriterEvent::Interrupt).1 == ActionView::Finish(
            seq![
                Seq::<char>::empty(),
                summary_header_text(),
                undefined_text() + seq![','] + undefined_text(),
            ],
        ),
{
}

/// The single consumer of the results: it owns the totals and decides what
/// is written to the record.
pub struct Writer {
    totals: RunningTotals,
    running: bool,
}

impl View for Writer {
    type V = WriterModel;

    closed spec fn view(&self) -> WriterModel {
        WriterModel {
            downloads: self.totals.downloads(),
            uploads: self.totals.uploads(),
            running: self.running,
        }
    }
}

impl Writer {
    /// A writer whose loop is about to start.
    pub fn new() -> (writer: Writer)
        ensures
            writer@ == initial(),
    {
        Writer { totals: RunningTotals::new(), running: true }
    }

    /// Whether the loop is still running.
    pub fn is_running(&self) -> (running: bool)
        ensures
            running == self@.running,
    {
        self.running
    }

    /// The totals observed so far.
    pub fn totals(&self) -> (totals: &RunningTotals)
        ensures
            totals.downloads() == self@.downloads,
            totals.uploads() == self@.uploads,
    {
        &self.totals
    }

    /// Takes one event and says what is to be done.
    pub fn handle(&mut self, event: WriterEvent) -> (action: WriterAction)
        ensures
            (final(self)@, action@) == step(old(self)@, event),
    {
        if !self.running {
            return WriterAction::Ignored;
        }
        match event {
            WriterEvent::Result { result, record_exists } => {
                self.totals.record(&result);
                if record_exists {
                    WriterAction::AppendRow(data_row(&result))
                } else {
                    self.running = false;
                    WriterAction::StopRecordMissing
                }
            },
            WriterEvent::Closed => {
                self.running = false;
                WriterAction::StopProducersClosed
            },
            WriterEvent::Interrupt => {
                self.running = false;
                WriterAction::Finish(summary_lines(&self.totals))
            },
        }
    }
}

} // verus!
