//! The whole application state and the actions the buttons perform on it.
//!
//! The actions locate a task by structural equality of all its fields,
//! not by a stable identifier: tasks with identical fields are
//! indistinguishable, so an action aimed at one of two duplicates affects
//! both. The contracts below state that behaviour exactly.

use crate::task::spec_button_label;
use crate::task::spec_description_label;
use crate::task::spec_duration_label;
use crate::task::Task;
use crate::task::TaskState;
use crate::task::TaskView;
use crate::text::dec_val;
use crate::text::digits_part;
use crate::text::parses_as_usize;
use vstd::prelude::*;

verus! {

/// The complete in-memory state: the task list in display order plus the
/// two text-input scratch buffers of the entry form.
#[derive(Debug)]
pub struct AppState {
    pub tasks: Vec<Task>,
    pub task_description: String,
    pub task_duration: String,
}

/// The mathematical model of the application state.
#[verifier::ext_equal]
pub struct AppStateView {
    pub tasks: Seq<TaskView>,
    pub task_description: Seq<char>,
    pub task_duration: Seq<char>,
}

impl View for AppState {
    type V = AppStateView;

    open spec fn view(&self) -> AppStateView {
        AppStateView {
            tasks: self.tasks@.map_values(|t: Task| t@),
            task_description: self.task_description@,
            task_duration: self.task_duration@,
        }
    }
}

/// `t` with its state replaced.
pub open spec fn with_state(t: TaskView, state: TaskState) -> TaskView {
    TaskView { state: state, ..t }
}

/// The predicate the delete action keeps entries by: not structurally
/// equal to the deleted task.
pub open spec fn differs_from(target: TaskView) -> spec_fn(TaskView) -> bool {
    |t: TaskView| t != target
}

/// The task list after deleting `target`: every structurally equal entry
/// removed, the rest kept in order.
pub open spec fn without_matching(tasks: Seq<TaskView>, target: TaskView) -> Seq<TaskView> {
    tasks.filter(differs_from(target))
}

/// The task list after the start action aimed at `target`: every entry
/// structurally equal to `target` is put in progress carrying its own
/// stored duration; every other entry is unchanged.
pub open spec fn start_matching(tasks: Seq<TaskView>, target: TaskView) -> Seq<TaskView> {
    tasks.map_values(
        |t: TaskView|
            if t == target {
                with_state(t, TaskState::InProgress { duration: t.duration })
            } else {
                t
            },
    )
}

/// The task list after the pause action aimed at `target`: every entry
/// structurally equal to `target` is stopped; every other entry is
/// unchanged.
pub open spec fn pause_matching(tasks: Seq<TaskView>, target: TaskView) -> Seq<TaskView> {
    tasks.map_values(
        |t: TaskView|
            if t == target {
                with_state(t, TaskState::Stopped)
            } else {
                t
            },
    )
}

impl Default for AppState {
    /// An empty task list and empty input buffers.
    fn default() -> (state: AppState)
        ensures
            state@.tasks.len() == 0,
            state@.task_description.len() == 0,
            state@.task_duration.len() == 0,
    {
        AppState {
            tasks: Vec::new(),
            task_description: String::new(),
            task_duration: String::new(),
        }
    }
}

impl AppState {
    /// Appends a copy of `task` at the end of the list: the list grows by
    /// one, every prior entry keeps its place, and the input buffers are
    /// untouched.
    pub fn add_task(&mut self, task: &Task)
        ensures
            final(self)@.tasks == old(self)@.tasks.push(task@),
            final(self)@.tasks.len() == old(self)@.tasks.len() + 1,
            forall|i: int|
                0 <= i < old(self)@.tasks.len() ==> final(self)@.tasks[i] == old(self)@.tasks[i],
            final(self)@.task_description == old(self)@.task_description,
            final(self)@.task_duration == old(self)@.task_duration,
    {
        self.tasks.push(task.clone());
        proof {
            assert(self@.tasks =~= old(self)@.tasks.push(task@));
        }
    }

    /// Removes every task structurally equal to `task`, keeping the rest
    /// in order. A duplicate with identical fields is removed along with
    /// the task aimed at.
    pub fn remove_task(&mut self, task: &Task)
        ensures
            final(self)@.tasks == without_matching(old(self)@.tasks, task@),
            final(self)@.task_description == old(self)@.task_description,
            final(self)@.task_duration == old(self)@.task_duration,
    {
        let ghost all = self@.tasks;
        let ghost pred = differs_from(task@);
        let mut kept: Vec<Task> = Vec::new();
        let n = self.tasks.len();
        let mut i: usize = 0;
        while i < n
            invariant
                i <= n,
                n == self.tasks.len(),
                *self == *old(self),
                all == self@.tasks,
                pred == differs_from(task@),
                kept@.map_values(|t: Task| t@) == all.subrange(0, i as int).filter(pred),
            decreases n - i,
        {
            let ghost prefix = all.subrange(0, i as int);
            let entry = &self.tasks[i];
            if !(*entry == *task) {
                kept.push(entry.clone());
            }
            proof {
                reveal_with_fuel(Seq::<_>::filter, 2);
                assert(all.subrange(0, i as int + 1) =~= prefix + seq![all[i as int]]);
                Seq::filter_distributes_over_add(prefix, seq![all[i as int]], pred);
                assert(seq![all[i as int]].drop_last() =~= Seq::<TaskView>::empty());
                if pred(all[i as int]) {
                    assert(seq![all[i as int]].filter(pred) =~= seq![all[i as int]]);
                } else {
                    assert(seq![all[i as int]].filter(pred) =~= Seq::<TaskView>::empty());
                }
                assert(kept@.map_values(|t: Task| t@) =~= all.subrange(0, i as int + 1).filter(
                    pred,
                ));
            }
            i += 1;
        }
        self.tasks = kept;
        proof {
            assert(all.subrange(0, n as int) =~= all);
        }
    }

    /// Puts every task structurally equal to `starting_task` in progress,
    /// carrying its own stored duration; every other entry and the input
    /// buffers are untouched.
    pub fn start_task(&mut self, starting_task: &Task)
        ensures
            final(self)@.tasks == start_matching(old(self)@.tasks, starting_task@),
            final(self)@.task_description == old(self)@.task_description,
            final(self)@.task_duration == old(self)@.task_duration,
    {
        let ghost all = self@.tasks;
        let n = self.tasks.len();
        let mut i: usize = 0;
        while i < n
            invariant
                i <= n,
                n == self@.tasks.len(),
                self@.tasks.len() == all.len(),
                forall|j: int|
                    0 <= j < i as int ==> self@.tasks[j] == start_matching(all, starting_task@)[j],
                forall|j: int| i as int <= j < all.len() ==> self@.tasks[j] == all[j],
                self@.task_description == old(self)@.task_description,
                self@.task_duration == old(self)@.task_duration,
                all == old(self)@.tasks,
            decreases n - i,
        {
            let matched = self.tasks[i] == *starting_task;
            if matched {
                let duration = self.tasks[i].duration;
                let entry = vstd::std_specs::vec::vec_index_mut(&mut self.tasks, i);
                entry.state = TaskState::InProgress { duration };
            }
            i += 1;
        }
        proof {
            assert(self@.tasks =~= start_matching(all, starting_task@));
        }
    }

    /// Stops every task structurally equal to `stopping_task`; every
    /// other entry and the input buffers are untouched.
    pub fn pause_task(&mut self, stopping_task: &Task)
        ensures
            final(self)@.tasks == pause_matching(old(self)@.tasks, stopping_task@),
            final(self)@.task_description == old(self)@.task_description,
            final(self)@.task_duration == old(self)@.task_duration,
    {
        let ghost all = self@.tasks;
        let n = self.tasks.len();
        let mut i: usize = 0;
        while i < n
            invariant
                i <= n,
                n == self@.tasks.len(),
                self@.tasks.len() == all.len(),
                forall|j: int|
                    0 <= j < i as int ==> self@.tasks[j] == pause_matching(all, stopping_task@)[j],
                forall|j: int| i as int <= j < all.len() ==> self@.tasks[j] == all[j],
                self@.task_description == old(self)@.task_description,
                self@.task_duration == old(self)@.task_duration,
                all == old(self)@.tasks,
            decreases n - i,
        {
            let matched = self.tasks[i] == *stopping_task;
            if matched {
                let entry = vstd::std_specs::vec::vec_index_mut(&mut self.tasks, i);
                entry.state = TaskState::Stopped;
            }
            i += 1;
        }
        proof {
            assert(self@.tasks =~= pause_matching(all, stopping_task@));
        }
    }

    /// The start/pause button action: a task in progress is paused, any
    /// other is started.
    pub fn action_task(&mut self, task: &Task)
        ensures
            task@.state is InProgress ==> final(self)@.tasks == pause_matching(
                old(self)@.tasks,
                task@,
            ),
            !(task@.state is InProgress) ==> final(self)@.tasks == start_matching(
                old(self)@.tasks,
                task@,
            ),
            final(self)@.task_description == old(self)@.task_description,
            final(self)@.task_duration == old(self)@.task_duration,
    {
        match task.state {
            TaskState::InProgress { duration: _ } => {
                self.pause_task(task);
            },
            _ => {
                self.start_task(task);
            },
        }
    }

    /// The "Add task" action: parses the duration buffer and, when it
    /// holds a decimal literal (an optional leading `'+'`, then digits)
    /// whose value fits in `usize`, appends a new stopped task built from
    /// the two buffers. Returns whether a task was added; on a buffer
    /// that does not parse the state is left unchanged.
    pub fn add_task_from_input(&mut self) -> (added: bool)
        ensures
            added == parses_as_usize(old(self)@.task_duration),
            added ==> {
                &&& final(self)@.tasks.len() == old(self)@.tasks.len() + 1
                &&& forall|i: int|
                    0 <= i < old(self)@.tasks.len() ==> final(self)@.tasks[i] == old(
                        self,
                    )@.tasks[i]
                &&& final(self)@.tasks.last().description == old(self)@.task_description
                &&& final(self)@.tasks.last().duration == dec_val(
                    digits_part(old(self)@.task_duration),
                )
                &&& final(self)@.tasks.last().state == TaskState::Stopped
            },
            !added ==> final(self)@.tasks == old(self)@.tasks,
            final(self)@.task_description == old(self)@.task_description,
            final(self)@.task_duration == old(self)@.task_duration,
    {
        let parsed = crate::text::parse_usize(self.task_duration.as_str());
        match parsed {
            Some(duration) => {
                let task = Task::new(self.task_description.as_str(), duration);
                self.add_task(&task);
                true
            },
            None => false,
        }
    }
}

/// One displayed row of the task list: the three strings the view shows
/// for a task.
pub struct TaskRow {
    pub description_label: String,
    pub duration_label: String,
    pub button_label: String,
}

impl AppState {
    /// Renders the task list: one row per task, in display order, holding
    /// exactly the labels the per-task rendering produces.
    pub fn render_rows(&self) -> (rows: Vec<TaskRow>)
        ensures
            rows@.len() == self@.tasks.len(),
            forall|i: int|
                0 <= i < rows@.len() ==> {
                    &&& (#[trigger] rows@[i]).description_label@ == spec_description_label(
                        self@.tasks[i],
                    )
                    &&& rows@[i].duration_label@ == spec_duration_label(self@.tasks[i])
                    &&& rows@[i].button_label@ == spec_button_label(self@.tasks[i].state)
                },
    {
        let mut rows: Vec<TaskRow> = Vec::new();
        let n = self.tasks.len();
        let mut i: usize = 0;
        while i < n
            invariant
                i <= n,
                n == self@.tasks.len(),
                rows@.len() == i,
                forall|j: int|
                    0 <= j < i as int ==> {
                        &&& (#[trigger] rows@[j]).description_label@ == spec_description_label(
                            self@.tasks[j],
                        )
                        &&& rows@[j].duration_label@ == spec_duration_label(self@.tasks[j])
                        &&& rows@[j].button_label@ == spec_button_label(self@.tasks[j].state)
                    },
            decreases n - i,
        {
            let entry = &self.tasks[i];
            let row = TaskRow {
                description_label: entry.description_label(),
                duration_label: entry.duration_label(),
                button_label: entry.button_label(),
            };
            rows.push(row);
            i += 1;
        }
        rows
    }
}

/// Starting flips exactly the matched entries to `InProgress` with their
/// own stored duration and leaves every other entry untouched, keeping
/// length and order.
pub proof fn lemma_start_matching_pointwise(tasks: Seq<TaskView>, target: TaskView)
    ensures
        start_matching(tasks, target).len() == tasks.len(),
        forall|i: int|
            0 <= i < tasks.len() && tasks[i] == target ==> #[trigger] start_matching(
                tasks,
                target,
            )[i] == with_state(tasks[i], TaskState::InProgress { duration: tasks[i].duration }),
        forall|i: int|
            0 <= i < tasks.len() && tasks[i] != target ==> #[trigger] start_matching(
                tasks,
                target,
            )[i] == tasks[i],
{
}

/// Pausing flips exactly the matched entries to `Stopped` and leaves
/// every other entry untouched, keeping length and order.
pub proof fn lemma_pause_matching_pointwise(tasks: Seq<TaskView>, target: TaskView)
    ensures
        pause_matching(tasks, target).len() == tasks.len(),
        forall|i: int|
            0 <= i < tasks.len() && tasks[i] == target ==> #[trigger] pause_matching(
                tasks,
                target,
            )[i] == with_state(tasks[i], TaskState::Stopped),
        forall|i: int|
            0 <= i < tasks.len() && tasks[i] != target ==> #[trigger] pause_matching(
                tasks,
                target,
            )[i] == tasks[i],
{
}

/// Neither the start nor the pause action ever produces a `Completed` or
/// `Discarded` entry: those states stand in the list only where they
/// already stood, so nothing here ever reaches them.
pub proof fn lemma_completed_discarded_unreachable(tasks: Seq<TaskView>, target: TaskView)
    ensures
        forall|i: int|
            0 <= i < tasks.len() ==> (((#[trigger] start_matching(tasks, target)[i]).state
                is Completed) ==> tasks[i].state is Completed),
        forall|i: int|
            0 <= i < tasks.len() ==> (((#[trigger] start_matching(tasks, target)[i]).state
                is Discarded) ==> tasks[i].state is Discarded),
        forall|i: int|
            0 <= i < tasks.len() ==> (((#[trigger] pause_matching(tasks, target)[i]).state
                is Completed) ==> tasks[i].state is Completed),
        forall|i: int|
            0 <= i < tasks.len() ==> (((#[trigger] pause_matching(tasks, target)[i]).state
                is Discarded) ==> tasks[i].state is Discarded),
{
}

/// Deleting leaves exactly the entries that differ from the target, in
/// their old order.
pub proof fn lemma_without_matching_none(tasks: Seq<TaskView>, target: TaskView)
    requires
        forall|i: int| 0 <= i < tasks.len() ==> (#[trigger] tasks[i]) != target,
    ensures
        without_matching(tasks, target) == tasks,
    decreases tasks.len(),
{
    reveal_with_fuel(Seq::<_>::filter, 2);
    if tasks.len() > 0 {
        assert(forall|i: int|
            0 <= i < tasks.drop_last().len() ==> (#[trigger] tasks.drop_last()[i]) != target);
        lemma_without_matching_none(tasks.drop_last(), target);
        assert(tasks[tasks.len() - 1] != target);
        assert(without_matching(tasks, target) =~= tasks);
    } else {
        assert(without_matching(tasks, target) =~= tasks);
    }
}

/// Deleting a task that appears exactly once shortens the list by exactly
/// one; with duplicates present, every copy goes at once, which is the
/// known ambiguity of identifying tasks by their fields.
pub proof fn lemma_remove_unique_len(tasks: Seq<TaskView>, target: TaskView)
    requires
        exists|i: int| 0 <= i < tasks.len() && (#[trigger] tasks[i]) == target,
        forall|i: int, j: int|
            0 <= i < tasks.len() && 0 <= j < tasks.len() && (#[trigger] tasks[i]) == target && (
            #[trigger] tasks[j]) == target ==> i == j,
    ensures
        without_matching(tasks, target).len() == tasks.len() - 1,
    decreases tasks.len(),
{
    reveal_with_fuel(Seq::<_>::filter, 2);
    let last = tasks[tasks.len() - 1];
    if last == target {
        assert(forall|i: int|
            0 <= i < tasks.drop_last().len() ==> (#[trigger] tasks.drop_last()[i]) != target);
        lemma_without_matching_none(tasks.drop_last(), target);
    } else {
        let w = choose|i: int| 0 <= i < tasks.len() && (#[trigger] tasks[i]) == target;
        assert(0 <= w < tasks.drop_last().len() && tasks.drop_last()[w] == target);
        assert(forall|i: int, j: int|
            0 <= i < tasks.drop_last().len() && 0 <= j < tasks.drop_last().len() && (
            #[trigger] tasks.drop_last()[i]) == target && (#[trigger] tasks.drop_last()[j])
                == target ==> i == j);
        lemma_remove_unique_len(tasks.drop_last(), target);
    }
}

} // verus!
