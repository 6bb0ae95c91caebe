//! Where the record is kept: a data directory of the program's own below the
//! place that the platform sets aside for one, and a directory for records
//! in it. Reading the environment and creating directories is the caller's
//! part.

use vstd::prelude::*;
use vstd::string::StringExecFns;

verus! {

/// The platforms that keep application data in different places.
#[derive(Debug, Clone, Copy, PartialEq, Eq, Structural)]
pub enum Platform {
    Windows,
    MacOs,
    /// Any other system; treated as a Unix that follows the XDG layout.
    Other,
}

/// How the program's data directory is found: the environment variable that
/// names the base directory, and the path below it, one directory per
/// entry.
#[derive(Debug, Clone, PartialEq, Eq)]
pub struct DataDirPlan {
    pub variable: String,
    pub segments: Vec<String>,
}

/// The environment variable that names the base directory.
pub open spec fn base_variable(platform: Platform) -> Seq<char> {
    match platform {
        Platform::Windows => "APPDATA"@,
        Platform::MacOs => "HOME"@,
        Platform::Other => "HOME"@,
    }
}

/// The directories that lead from the base directory to the data directory
/// of the program `program_name`.
pub open spec fn dir_segments(platform: Platform, program_name: Seq<char>) -> Seq<Seq<char>> {
    match platform {
        Platform::Windows => seq![program_name],
        Platform::MacOs => seq!["Library"@, "Application Support"@, program_name],
        Platform::Other => seq![".local"@, "share"@, program_name],
    }
}

/// What is reported when the variable `variable` cannot be read for the
/// reason `reason`.
pub open spec fn missing_variable_text(variable: Seq<char>, reason: Seq<char>) -> Seq<char> {
    "Failed to get "@ + variable + seq![':', ' '] + reason
}

/// The plan by which the data directory of `program_name` is found on
/// `platform`.
pub fn app_data_dir_plan(platform: Platform, program_name: &str) -> (plan: DataDirPlan)
    ensures
        plan.variable@ == base_variable(platform),
        plan.segments@.map_values(|segment: String| segment@) == dir_segments(
            platform,
            program_name@,
        ),
{
    let mut segments: Vec<String> = Vec::new();
    let variable = match platform {
        Platform::Windows => String::from_str("APPDATA"),
        Platform::MacOs => {
            segments.push(String::from_str("Library"));
            segments.push(String::from_str("Application Support"));
            String::from_str("HOME")
        },
        Platform::Other => {
            segments.push(String::from_str(".local"));
            segments.push(String::from_str("share"));
            String::from_str("HOME")
        },
    };
    segments.push(String::from_str(program_name));
    assert(segments@.map_values(|segment: String| segment@) =~= dir_segments(
        platform,
        program_name@,
    ));
    DataDirPlan { variable, segments }
}

/// The message for a base variable that cannot be read.
pub fn missing_variable_message(variable: &str, reason: &str) -> (message: String)
    ensures
        message@ == missing_variable_text(variable@, reason@),
{
    let mut message = String::from_str("Failed to get ");
    message.append(variable);
    message.push(':');
    message.push(' ');
    message.append(reason);
    assert(message@ =~= missing_variable_text(variable@, reason@));
    message
}

/// The directory, inside the data directory, that holds the records.
pub fn records_dir_name() -> (name: String)
    ensures
        name@ == "output_logs"@,
{
    String::from_str("output_logs")
}

/// The steps that prepare the record before the pipeline is started, in
/// the order in which they are taken.
#[derive(Debug, Clone, Copy, PartialEq, Eq, Structural)]
pub enum StartupStep {
    /// Find the program's data directory and create it if need be.
    ResolveDataDir,
    /// Create the directory of the records in it.
    CreateRecordsDir,
    /// Open the record's file for appending, creating it.
    OpenRecord,
    /// Write the record's header.
    WriteHeader,
}

/// What follows a step of the preparation.
#[derive(Debug, Clone, PartialEq, Eq)]
pub enum StartupAction {
    /// Take this step next.
    Perform(StartupStep),
    /// Report this line and end the program; no pipeline is started.
    Abort(String),
    /// The record is ready: start the pipeline.
    StartPipeline,
}

/// A `StartupAction` with its text as a sequence of characters.
pub enum StartupActionView {
    Perform(StartupStep),
    Abort(Seq<char>),
    StartPipeline,
}

impl View for StartupAction {
    type V = StartupActionView;

    open spec fn view(&self) -> StartupActionView {
        match self {
            StartupAction::Perform(step) => StartupActionView::Perform(*step),
            StartupAction::Abort(line) => StartupActionView::Abort(line@),
            StartupAction::StartPipeline => StartupActionView::StartPipeline,
        }
    }
}

/// How the failure of a step is announced, before the reason.
pub open spec fn failure_prefix(step: StartupStep) -> Seq<char> {
    match step {
        StartupStep::ResolveDataDir => "Error getting the output log directory: "@,
        StartupStep::CreateRecordsDir => "Error creating the output log directory: "@,
        StartupStep::OpenRecord => "Error opening the output file: "@,
        StartupStep::WriteHeader => "Error writing to the output file: "@,
    }
}

/// The rule of the preparation: a step that fails ends the program with
/// its report; a step that succeeds is followed by the next one, and the
/// last one by the start of the pipeline.
pub open spec fn after_step(step: StartupStep, outcome: Result<(), String>) -> StartupActionView {
    match outcome {
        Err(reason) => StartupActionView::Abort(failure_prefix(step) + reason@),
        Ok(_) => match step {
            StartupStep::ResolveDataDir => StartupActionView::Perform(
                StartupStep::CreateRecordsDir,
            ),
            StartupStep::CreateRecordsDir => StartupActionView::Perform(StartupStep::OpenRecord),
            StartupStep::OpenRecord => StartupActionView::Perform(StartupStep::WriteHeader),
            StartupStep::WriteHeader => StartupActionView::StartPipeline,
        },
    }
}

/// What follows when the preparation has taken the steps from
/// `ResolveDataDir` on with `outcomes`, one outcome per step: the action
/// after the last of them, or after the first that failed.
pub open spec fn after_steps(outcomes: Seq<Result<(), String>>) -> StartupActionView
    decreases outcomes.len(),
{
    if outcomes.len() == 0 {
        StartupActionView::Perform(StartupStep::ResolveDataDir)
    } else {
        match after_steps(outcomes.drop_last()) {
            StartupActionView::Perform(step) => after_step(step, outcomes.last()),
            ended => ended,
        }
    }
}

/// The pipeline is started only after four steps, all of which succeeded.
pub proof fn lemma_pipeline_needs_every_step(outcomes: Seq<Result<(), String>>)
    requires
        after_steps(outcomes) is StartPipeline,
    ensures
        outcomes.len() >= 4,
        forall|i: int| 0 <= i < 4 ==> (#[trigger] outcomes[i]) is Ok,
{
    lemma_steps_taken(outcomes);
}

/// How far the preparation has come after `outcomes`.
proof fn lemma_steps_taken(outcomes: Seq<Result<(), String>>)
    ensures
        match after_steps(outcomes) {
            StartupActionView::Perform(step) => {
                &&& outcomes.len() == step_number(step)
                &&& forall|i: int| 0 <= i < outcomes.len() ==> (#[trigger] outcomes[i]) is Ok
            },
            StartupActionView::StartPipeline => {
                &&& outcomes.len() >= 4
                &&& forall|i: int| 0 <= i < 4 ==> (#[trigger] outcomes[i]) is Ok
            },
            StartupActionView::Abort(_) => exists|i: int|
                0 <= i < outcomes.len() && i < 4 && (#[trigger] outcomes[i]) is Err,
        },
    decreases outcomes.len(),
{
    if outcomes.len() > 0 {
        let before = outcomes.drop_last();
        lemma_steps_taken(before);
        assert(forall|i: int| 0 <= i < before.len() ==> before[i] == outcomes[i]);
        match after_steps(before) {
            StartupActionView::Perform(step) => {
                match outcomes.last() {
                    Err(_) => {
                        assert(outcomes[outcomes.len() - 1] is Err);
                    },
                    Ok(_) => {
                        assert(outcomes[outcomes.len() - 1] is Ok);
                    },
                }
            },
            StartupActionView::StartPipeline => {},
            StartupActionView::Abort(_) => {
                let i = choose|i: int|
                    0 <= i < before.len() && i < 4 && (#[trigger] before[i]) is Err;
                assert(outcomes[i] is Err);
            },
        }
    }
}

/// The place of a step in the preparation, counted from zero.
pub open spec fn step_number(step: StartupStep) -> nat {
    match step {
        StartupStep::ResolveDataDir => 0,
        StartupStep::CreateRecordsDir => 1,
        StartupStep::OpenRecord => 2,
        StartupStep::WriteHeader => 3,
    }
}

/// The step with which the preparation begins.
pub fn first_step() -> (step: StartupStep)
    ensures
        StartupActionView::Perform(step) == after_steps(Seq::empty()),
{
    StartupStep::ResolveDataDir
}

/// Decides what follows the step `step`, which ended with `outcome`: `Ok`,
/// or the reason of its failure.
pub fn after_startup_step(step: StartupStep, outcome: Result<(), String>) -> (action: StartupAction)
    ensures
        action@ == after_step(step, outcome),
{
    match outcome {
        Err(reason) => {
            let mut line = match step {
                StartupStep::ResolveDataDir => String::from_str(
                    "Error getting the output log directory: ",
                ),
                StartupStep::CreateRecordsDir => String::from_str(
                    "Error creating the output log directory: ",
                ),
                StartupStep::OpenRecord => String::from_str("Error opening the output file: "),
                StartupStep::WriteHeader => String::from_str("Error writing to the output file: "),
            };
            line.append(reason.as_str());
            StartupAction::Abort(line)
        },
        Ok(_) => match step {
            StartupStep::ResolveDataDir => StartupAction::Perform(StartupStep::CreateRecordsDir),
            StartupStep::CreateRecordsDir => StartupAction::Perform(StartupStep::OpenRecord),
            StartupStep::OpenRecord => StartupAction::Perform(StartupStep::WriteHeader),
            StartupStep::WriteHeader => StartupAction::StartPipeline,
        },
    }
}

/// The line that reports that a row could not be written for the reason
/// `reason`. Such a failure does not end the writer's loop.
pub fn write_failure_line(reason: &str) -> (line: String)
    ensures
        line@ == failure_prefix(StartupStep::WriteHeader) + reason@,
{
    let mut line = String::from_str("Error writing to the output file: ");
    line.append(reason);
    line
}

} // verus!
