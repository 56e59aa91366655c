//! The document-processing task worker: the order of its pipeline steps,
//! the dispatch of a step by name, and the decisions taken between steps
//! and on failure.

use vstd::prelude::*;
use vstd::string::*;
use crate::text::{digits_value, lemma_nat_digits, nat_digits, push_char, push_nat_digits};

verus! {

/// The state of a task.
#[derive(Clone, Copy, Debug, PartialEq, Eq, Structural)]
pub enum Status {
    Starting,
    Processing,
    Succeeded,
    Failed,
    Cancelled,
}

/// A step of the processing pipeline.
#[derive(Clone, Copy, Debug, PartialEq, Eq, Structural)]
pub enum PipelineStep {
    ConvertToImages,
    Pages,
    UpdateMetadata,
}

/// The names of the pipeline steps, in the order in which a task runs them.
pub open spec fn step_names() -> Seq<Seq<char>> {
    seq!["update_metadata"@, "convert_to_images"@, "pages"@]
}

/// The pipeline steps of a task, by name, in the order in which they run.
pub fn orchestrate_task() -> (r: Vec<&'static str>)
    ensures
        r@.map_values(|s: &'static str| s@) == step_names(),
{
    let r = vec!["update_metadata", "convert_to_images", "pages"];
    assert(r@.map_values(|s: &'static str| s@) =~= step_names());
    r
}

/// The step that a name stands for.
pub open spec fn step_of_name(name: Seq<char>) -> Option<PipelineStep> {
    if name == "convert_to_images"@ {
        Some(PipelineStep::ConvertToImages)
    } else if name == "pages"@ {
        Some(PipelineStep::Pages)
    } else if name == "update_metadata"@ {
        Some(PipelineStep::UpdateMetadata)
    } else {
        None
    }
}

/// Which step `step` names; an unknown name is an error "Unknown function: <name>".
pub fn resolve_step(step: &str) -> (r: Result<PipelineStep, String>)
    ensures
        match step_of_name(step@) {
            Some(s) => r == Ok::<PipelineStep, String>(s),
            None => r matches Err(msg) && msg@ == "Unknown function: "@ + step@,
        },
{
    if crate::text::same_text(step, "convert_to_images") {
        Ok(PipelineStep::ConvertToImages)
    } else if crate::text::same_text(step, "pages") {
        Ok(PipelineStep::Pages)
    } else if crate::text::same_text(step, "update_metadata") {
        Ok(PipelineStep::UpdateMetadata)
    } else {
        let mut msg = String::from_str("Unknown function: ");
        msg.append(step);
        Err(msg)
    }
}

/// The status update that follows a step: the status the step reported,
/// with its message or, when it gave none, the empty message.
pub fn status_after_step(status: Status, message: Option<String>) -> (r: (Status, String))
    ensures
        r.0 == status,
        r.1@ == match message {
            Some(m) => m@,
            None => Seq::<char>::empty(),
        },
{
    match message {
        Some(m) => (status, m),
        None => (status, String::new()),
    }
}

/// What the worker does next.
#[derive(Debug)]
pub enum TaskAction {
    /// Run the step of this name.
    RunStep(&'static str),
    /// Record this status and message, then stop.
    Conclude(Status, String),
    /// Stop without a further update.
    Stop,
}

/// Progress through a task's pipeline: the number of steps started.
pub struct TaskRun {
    started: usize,
}

impl View for TaskRun {
    type V = nat;

    closed spec fn view(&self) -> nat {
        self.started as nat
    }
}

/// The message recorded when a task has run all its steps. (The task is
/// recorded as failed with this message.)
pub open spec fn all_steps_message() -> Seq<char> {
    "Task succeeded"@
}

/// `action` is the step named `step_names()[k]`.
pub open spec fn runs_step(action: TaskAction, k: int) -> bool {
    action matches TaskAction::RunStep(name) && name@ == step_names()[k]
}

/// A step name taken from the pipeline order.
fn step_name_at(k: usize) -> (name: &'static str)
    requires
        k < 3,
    ensures
        name@ == step_names()[k as int],
{
    let names = orchestrate_task();
    assert(step_names().len() == 3);
    assert(names@.len() == names@.map_values(|s: &'static str| s@).len());
    let name = names[k];
    assert(names@.map_values(|s: &'static str| s@)[k as int] == names@[k as int]@);
    name
}

impl TaskRun {
    pub open spec fn wf(self) -> bool {
        1 <= self@ <= 3
    }

    /// Starts a task: its first step runs.
    pub fn start() -> (r: (TaskRun, TaskAction))
        ensures
            r.0.wf(),
            r.0@ == 1,
            runs_step(r.1, 0),
    {
        (TaskRun { started: 1 }, TaskAction::RunStep(step_name_at(0)))
    }

    /// The decision after a step has run and left the task in `status`:
    /// stop when the task is no longer processing; else run the next step;
    /// after the last one, record the final status.
    pub fn after_step(&mut self, status: Status) -> (r: TaskAction)
        requires
            old(self).wf(),
        ensures
            final(self).wf(),
            status != Status::Processing ==> r is Stop && final(self)@ == old(self)@,
            status == Status::Processing && old(self)@ < 3 ==> runs_step(r, old(self)@ as int)
                && final(self)@ == old(self)@ + 1,
            status == Status::Processing && old(self)@ == 3 ==> final(self)@ == old(self)@ && (
            r matches TaskAction::Conclude(s, m) && s == Status::Failed && m@
                == all_steps_message()),
    {
        if status != Status::Processing {
            TaskAction::Stop
        } else if self.started < 3 {
            let name = step_name_at(self.started);
            self.started = self.started + 1;
            TaskAction::RunStep(name)
        } else {
            TaskAction::Conclude(Status::Failed, String::from_str("Task succeeded"))
        }
    }
}

/// The message recorded when a task fails: final once the attempts are
/// used up, else a note of the retry.
pub open spec fn failure_message(attempt: u32, max_attempts: u32) -> Seq<char> {
    if attempt >= max_attempts {
        "Task failed"@
    } else {
        "Retrying task "@ + nat_digits(attempt as nat) + "/"@ + nat_digits(max_attempts as nat)
    }
}

/// A failure is final ("Task failed") exactly when the attempts are used up;
/// before that the message names the attempt and the number of attempts, in
/// decimal digits that read back as those numbers.
pub proof fn lemma_failure_message(attempt: u32, max_attempts: u32)
    ensures
        (failure_message(attempt, max_attempts) == "Task failed"@) <==> attempt >= max_attempts,
        attempt < max_attempts ==> failure_message(attempt, max_attempts) == "Retrying task "@
            + nat_digits(attempt as nat) + "/"@ + nat_digits(max_attempts as nat),
        attempt < max_attempts ==> digits_value(nat_digits(attempt as nat)) == attempt
            && digits_value(nat_digits(max_attempts as nat)) == max_attempts,
{
    lemma_nat_digits(attempt as nat);
    lemma_nat_digits(max_attempts as nat);
    reveal_strlit("Task failed");
    reveal_strlit("Retrying task ");
    reveal_strlit("/");
    if attempt < max_attempts {
        assert(failure_message(attempt, max_attempts).len() > "Task failed"@.len());
    }
}

/// The status update recorded when a task fails: `Failed`, with
/// `failure_message`.
pub fn task_failure_update(attempt: u32, max_attempts: u32) -> (r: (Status, String))
    ensures
        r.0 == Status::Failed,
        r.1@ == failure_message(attempt, max_attempts),
{
    if attempt >= max_attempts {
        (Status::Failed, String::from_str("Task failed"))
    } else {
        let mut msg = String::from_str("Retrying task ");
        push_nat_digits(&mut msg, attempt as u64);
        push_char(&mut msg, '/');
        push_nat_digits(&mut msg, max_attempts as u64);
        proof {
            reveal_strlit("/");
        }
        (Status::Failed, msg)
    }
}

}
