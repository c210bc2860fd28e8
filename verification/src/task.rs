//! A single to-do item and the three label strings the view shows for it.

use crate::text::dec_str;
use vstd::prelude::*;
use vstd::string::StringExecFns;

verus! {

/// The lifecycle status of a task. `InProgress` carries the duration the
/// task was started with; it duplicates the task's own `duration` field,
/// which callers should treat as the authoritative one.
#[derive(Clone, Copy, Debug, PartialEq, Eq, Structural)]
pub enum TaskState {
    InProgress { duration: usize },
    Completed,
    Discarded,
    Stopped,
}

/// A single to-do item: a description, a stored duration (never counted
/// down), the creation time in milliseconds truncated to 32 bits, and its
/// lifecycle state.
///
/// Tasks have no identifier beyond their fields: two tasks with equal
/// fields are indistinguishable, and the list operations treat them alike.
#[derive(Debug)]
pub struct Task {
    pub description: String,
    pub duration: usize,
    pub timestamp: u32,
    pub state: TaskState,
}

/// The mathematical model of a task: the description as a sequence of
/// characters, the remaining fields as they are.
#[verifier::ext_equal]
pub struct TaskView {
    pub description: Seq<char>,
    pub duration: usize,
    pub timestamp: u32,
    pub state: TaskState,
}

impl View for Task {
    type V = TaskView;

    open spec fn view(&self) -> TaskView {
        TaskView {
            description: self.description@,
            duration: self.duration,
            timestamp: self.timestamp,
            state: self.state,
        }
    }
}

impl Clone for Task {
    fn clone(&self) -> (res: Task)
        ensures
            res == *self,
    {
        Task {
            description: self.description.clone(),
            duration: self.duration,
            timestamp: self.timestamp,
            state: self.state,
        }
    }
}

impl PartialEq for Task {
    fn eq(&self, other: &Task) -> (r: bool) {
        self.description == other.description && self.duration == other.duration
            && self.timestamp == other.timestamp && self.state == other.state
    }
}

impl vstd::std_specs::cmp::PartialEqSpecImpl for Task {
    open spec fn obeys_eq_spec() -> bool {
        true
    }

    open spec fn eq_spec(&self, other: &Task) -> bool {
        self@ == other@
    }
}

/// Relies on `std::time::SystemTime::now`: one reading of the system
/// clock, as milliseconds since the Unix epoch truncated to 32 bits. The
/// result depends on the clock, so nothing is promised of it; the call
/// panics if the clock reads earlier than the epoch.
#[verifier::external_body]
fn now_millis() -> u32 {
    let elapsed = std::time::SystemTime::now()
        .duration_since(std::time::UNIX_EPOCH)
        .expect("The clock on your computer is broken.");
    elapsed.as_millis() as u32
}

impl Task {
    /// Builds a new task in the `Stopped` state, stamped with the current
    /// clock reading. The timestamp depends on the clock, so the contract
    /// leaves it open.
    pub fn new(description: &str, duration: usize) -> (task: Task)
        ensures
            task@.description == description@,
            task@.duration == duration,
            task@.state == TaskState::Stopped,
    {
        Task {
            description: description.to_owned(),
            duration,
            timestamp: now_millis(),
            state: TaskState::Stopped,
        }
    }
}

/// The caption of a task's start/pause button: a running task offers
/// "Pause", a completed one "Restart", any other "Start".
pub open spec fn spec_button_label(state: TaskState) -> Seq<char> {
    match state {
        TaskState::InProgress { duration: _ } => "Pause"@,
        TaskState::Completed => "Restart"@,
        _ => "Start"@,
    }
}

/// The text of a task's duration label: the stored duration in decimal,
/// in square brackets.
pub open spec fn spec_duration_label(t: TaskView) -> Seq<char> {
    "["@ + dec_str(t.duration as int) + "]"@
}

/// The text of a task's description label: the description, prefixed
/// with an arrow while the task runs and with padding otherwise.
pub open spec fn spec_description_label(t: TaskView) -> Seq<char> {
    if t.state is InProgress {
        "-> "@ + t.description
    } else {
        "     "@ + t.description
    }
}

impl Task {
    /// The caption of the start/pause button shown beside the task.
    pub fn button_label(&self) -> (label: String)
        ensures
            label@ == spec_button_label(self@.state),
    {
        match self.state {
            TaskState::InProgress { duration: _ } => String::from_str("Pause"),
            TaskState::Completed => String::from_str("Restart"),
            _ => String::from_str("Start"),
        }
    }

    /// The text of the duration label shown beside the task.
    pub fn duration_label(&self) -> (label: String)
        ensures
            label@ == spec_duration_label(self@),
    {
        let mut label = String::from_str("[");
        let digits = crate::text::format_usize(self.duration);
        label.append(digits.as_str());
        label.append("]");
        label
    }

    /// The text of the description label shown beside the task.
    pub fn description_label(&self) -> (label: String)
        ensures
            label@ == spec_description_label(self@),
    {
        let mut label = match self.state {
            TaskState::InProgress { duration: _ } => String::from_str("-> "),
            _ => String::from_str("     "),
        };
        label.append(self.description.as_str());
        label
    }
}

} // verus!
