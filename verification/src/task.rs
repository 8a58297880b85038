//! The task protocol: what a build hands a task runner, what the runner
//! sends back, and the decision taken on each message. Spawning runners and
//! relaying their byte streams is the caller's; the protocol decisions live
//! here.

use vstd::prelude::*;

use crate::files::{SotoLocalFile, SotoProjectFile};

verus! {

/// A task to be run: which runner, on which task file.
#[derive(Debug, Clone)]
pub struct Task {
    pub runner: String,
    pub task_file: String,
}

/// Everything a runner is handed when it starts.
#[derive(Debug, Clone)]
pub struct TaskParameters {
    pub working_dir: String,
    pub target_dir: String,
    pub target_toml: String,
    pub project: SotoProjectFile,
    pub local: SotoLocalFile,
}

/// What a finished task reports: nothing, or an error text.
#[derive(Debug, Clone)]
pub struct TaskResult {
    pub error: Option<String>,
}

/// One message a runner sends back while it works.
#[derive(Debug, Clone)]
pub enum TaskMessage {
    /// A log line to pass through.
    Log(String),
    /// The task is done, successfully or not.
    Result(TaskResult),
}

/// What the build does with one runner message.
#[derive(Debug)]
pub enum TaskStep {
    /// Pass the text through to the log and keep listening.
    Relay(String),
    /// Stop listening; the payload is the task's error, if it failed.
    Finished(Option<String>),
}

/// Decides what one runner message means for the message loop: log lines
/// are relayed and the loop goes on; a result ends it, carrying the error
/// text if the task failed.
pub fn handle_task_message(msg: TaskMessage) -> (r: TaskStep)
    ensures
        match msg {
            TaskMessage::Log(text) => r matches TaskStep::Relay(t) && t@ == text@,
            TaskMessage::Result(res) => r matches TaskStep::Finished(e) && (match res.error {
                Some(err) => e matches Some(e2) && e2@ == err@,
                None => e is None,
            }),
        },
{
    match msg {
        TaskMessage::Log(text) => TaskStep::Relay(text),
        TaskMessage::Result(res) => TaskStep::Finished(res.error),
    }
}

/// The prop table of a conversion task file.
#[derive(Debug, Clone)]
pub struct Prop {
    pub name: String,
    pub dynamic: String,
}

/// The model table of a conversion task file: the reference pose and the
/// bones whose rotation needs the flip correction.
#[derive(Debug, Clone)]
pub struct Model {
    pub reference: String,
    pub flip_fix_list: Vec<String>,
}

/// One named animation sequence of a conversion task file.
#[derive(Debug, Clone)]
pub struct Sequence {
    pub file: String,
    pub params: String,
}

/// A whole conversion task file, with its sequences in declaration order.
#[derive(Debug, Clone)]
pub struct SotoFbxTask {
    pub prop: Prop,
    pub model: Model,
    pub sequences: Option<Vec<(String, Sequence)>>,
}

} // verus!
