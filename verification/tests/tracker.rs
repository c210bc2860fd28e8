use task_tracker::state::AppState;
use task_tracker::task::Task;
use task_tracker::task::TaskState;
use task_tracker::text::format_usize;
use task_tracker::text::parse_usize;

fn task(description: &str, duration: usize, timestamp: u32, state: TaskState) -> Task {
    Task { description: String::from(description), duration, timestamp, state }
}

fn state_with(tasks: Vec<Task>) -> AppState {
    let mut s = AppState::default();
    s.tasks = tasks;
    s
}

#[test]
fn new_task_starts_stopped() {
    let t = Task::new("write report", 25);
    assert_eq!(t.description, "write report");
    assert_eq!(t.duration, 25);
    assert_eq!(t.state, TaskState::Stopped);
}

#[test]
fn default_state_is_empty() {
    let s = AppState::default();
    assert!(s.tasks.is_empty());
    assert!(s.task_description.is_empty());
    assert!(s.task_duration.is_empty());
}

#[test]
fn add_appends_and_keeps_order() {
    let a = task("a", 1, 10, TaskState::Stopped);
    let b = task("b", 2, 20, TaskState::Stopped);
    let mut s = AppState::default();
    s.add_task(&a);
    s.add_task(&b);
    assert_eq!(s.tasks.len(), 2);
    assert_eq!(s.tasks[0], a);
    assert_eq!(s.tasks[1], b);
}

#[test]
fn remove_unique_task_shortens_by_one() {
    let a = task("a", 1, 10, TaskState::Stopped);
    let b = task("b", 2, 20, TaskState::Stopped);
    let c = task("c", 3, 30, TaskState::Stopped);
    let mut s = state_with(vec![a.clone(), b.clone(), c.clone()]);
    s.remove_task(&b);
    assert_eq!(s.tasks.len(), 2);
    assert_eq!(s.tasks[0], a);
    assert_eq!(s.tasks[1], c);
}

#[test]
fn remove_takes_every_duplicate() {
    // Tasks carry no identifier beyond their fields, so deleting one of
    // two identical tasks deletes both: the documented ambiguity.
    let dup = task("twice", 5, 50, TaskState::Stopped);
    let other = task("other", 1, 10, TaskState::Stopped);
    let mut s = state_with(vec![dup.clone(), other.clone(), dup.clone()]);
    s.remove_task(&dup);
    assert_eq!(s.tasks.len(), 1);
    assert_eq!(s.tasks[0], other);
}

#[test]
fn remove_absent_task_changes_nothing() {
    let a = task("a", 1, 10, TaskState::Stopped);
    let ghostly = task("not there", 9, 90, TaskState::Stopped);
    let mut s = state_with(vec![a.clone()]);
    s.remove_task(&ghostly);
    assert_eq!(s.tasks.len(), 1);
    assert_eq!(s.tasks[0], a);
}

#[test]
fn start_flips_only_the_matched_task() {
    let a = task("a", 7, 10, TaskState::Stopped);
    let b = task("b", 2, 20, TaskState::Stopped);
    let mut s = state_with(vec![a.clone(), b.clone()]);
    s.start_task(&a);
    assert_eq!(s.tasks[0].state, TaskState::InProgress { duration: 7 });
    assert_eq!(s.tasks[0].description, "a");
    assert_eq!(s.tasks[0].duration, 7);
    assert_eq!(s.tasks[1], b);
}

#[test]
fn start_flips_every_duplicate() {
    let dup = task("twice", 5, 50, TaskState::Stopped);
    let mut s = state_with(vec![dup.clone(), dup.clone()]);
    s.start_task(&dup);
    assert_eq!(s.tasks[0].state, TaskState::InProgress { duration: 5 });
    assert_eq!(s.tasks[1].state, TaskState::InProgress { duration: 5 });
}

#[test]
fn pause_stops_the_matched_task() {
    let running = task("r", 4, 40, TaskState::InProgress { duration: 4 });
    let other = task("o", 2, 20, TaskState::Stopped);
    let mut s = state_with(vec![running.clone(), other.clone()]);
    s.pause_task(&running);
    assert_eq!(s.tasks[0].state, TaskState::Stopped);
    assert_eq!(s.tasks[1], other);
}

#[test]
fn action_starts_a_stopped_task_and_pauses_a_running_one() {
    let t = task("t", 3, 30, TaskState::Stopped);
    let mut s = state_with(vec![t.clone()]);
    s.action_task(&t);
    assert_eq!(s.tasks[0].state, TaskState::InProgress { duration: 3 });
    let running = s.tasks[0].clone();
    s.action_task(&running);
    assert_eq!(s.tasks[0].state, TaskState::Stopped);
}

#[test]
fn action_starts_completed_and_discarded_tasks() {
    let done = task("done", 3, 30, TaskState::Completed);
    let dropped = task("dropped", 4, 40, TaskState::Discarded);
    let mut s = state_with(vec![done.clone(), dropped.clone()]);
    s.action_task(&done);
    assert_eq!(s.tasks[0].state, TaskState::InProgress { duration: 3 });
    s.action_task(&dropped);
    assert_eq!(s.tasks[1].state, TaskState::InProgress { duration: 4 });
}

#[test]
fn button_label_matches_state() {
    assert_eq!(task("t", 1, 0, TaskState::InProgress { duration: 1 }).button_label(), "Pause");
    assert_eq!(task("t", 1, 0, TaskState::Completed).button_label(), "Restart");
    assert_eq!(task("t", 1, 0, TaskState::Discarded).button_label(), "Start");
    assert_eq!(task("t", 1, 0, TaskState::Stopped).button_label(), "Start");
}

#[test]
fn duration_label_shows_brackets() {
    assert_eq!(task("t", 25, 0, TaskState::Stopped).duration_label(), "[25]");
    assert_eq!(task("t", 0, 0, TaskState::Stopped).duration_label(), "[0]");
}

#[test]
fn description_label_marks_the_running_task() {
    assert_eq!(
        task("write", 1, 0, TaskState::InProgress { duration: 1 }).description_label(),
        "-> write"
    );
    assert_eq!(task("write", 1, 0, TaskState::Stopped).description_label(), "     write");
}

#[test]
fn render_rows_builds_one_row_per_task() {
    let a = task("a", 1, 10, TaskState::InProgress { duration: 1 });
    let b = task("b", 22, 20, TaskState::Stopped);
    let s = state_with(vec![a, b]);
    let rows = s.render_rows();
    assert_eq!(rows.len(), 2);
    assert_eq!(rows[0].description_label, "-> a");
    assert_eq!(rows[0].duration_label, "[1]");
    assert_eq!(rows[0].button_label, "Pause");
    assert_eq!(rows[1].description_label, "     b");
    assert_eq!(rows[1].duration_label, "[22]");
    assert_eq!(rows[1].button_label, "Start");
}

#[test]
fn add_task_from_input_appends_on_a_numeric_buffer() {
    let mut s = AppState::default();
    s.task_description = String::from("read");
    s.task_duration = String::from("45");
    let added = s.add_task_from_input();
    assert!(added);
    assert_eq!(s.tasks.len(), 1);
    assert_eq!(s.tasks[0].description, "read");
    assert_eq!(s.tasks[0].duration, 45);
    assert_eq!(s.tasks[0].state, TaskState::Stopped);
    assert_eq!(s.task_description, "read");
    assert_eq!(s.task_duration, "45");
}

#[test]
fn add_task_from_input_accepts_a_plus_signed_buffer() {
    let mut s = AppState::default();
    s.task_description = String::from("read");
    s.task_duration = String::from("+45");
    assert!(s.add_task_from_input());
    assert_eq!(s.tasks.len(), 1);
    assert_eq!(s.tasks[0].duration, 45);
}

#[test]
fn add_task_from_input_rejects_a_bad_buffer() {
    let mut s = AppState::default();
    s.task_description = String::from("read");
    s.task_duration = String::from("");
    assert!(!s.add_task_from_input());
    s.task_duration = String::from("12x");
    assert!(!s.add_task_from_input());
    s.task_duration = String::from("-3");
    assert!(!s.add_task_from_input());
    assert!(s.tasks.is_empty());
}

#[test]
fn parse_usize_reads_digit_strings() {
    assert_eq!(parse_usize("0"), Some(0));
    assert_eq!(parse_usize("007"), Some(7));
    assert_eq!(parse_usize("42"), Some(42));
    assert_eq!(parse_usize(""), None);
    assert_eq!(parse_usize("4 2"), None);
    assert_eq!(parse_usize("12x"), None);
}

#[test]
fn parse_usize_accepts_one_leading_plus_sign() {
    assert_eq!(parse_usize("+42"), Some(42));
    assert_eq!(parse_usize("+0"), Some(0));
    assert_eq!(parse_usize("+"), None);
    assert_eq!(parse_usize("++42"), None);
    assert_eq!(parse_usize("4+2"), None);
    assert_eq!(parse_usize("42+"), None);
}

#[test]
fn parse_usize_agrees_with_str_parse() {
    for input in ["", "+", "0", "+42", "007", "12x", "-3", " 42", "++9", "18446744073709551616"] {
        assert_eq!(parse_usize(input), input.parse::<usize>().ok(), "on {:?}", input);
    }
}

#[test]
fn parse_usize_rejects_values_out_of_range() {
    let too_big = format!("{}0", usize::MAX);
    assert_eq!(parse_usize(&too_big), None);
    let max = format!("{}", usize::MAX);
    assert_eq!(parse_usize(&max), Some(usize::MAX));
}

#[test]
fn format_usize_prints_decimal() {
    assert_eq!(format_usize(0), "0");
    assert_eq!(format_usize(7), "7");
    assert_eq!(format_usize(12345), "12345");
}

#[test]
fn format_then_parse_is_identity() {
    for n in [0usize, 1, 9, 10, 99, 100, 4096, usize::MAX] {
        assert_eq!(parse_usize(&format_usize(n)), Some(n));
    }
}
