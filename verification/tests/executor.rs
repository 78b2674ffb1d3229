use bulk_rename::entry::Entry;
use bulk_rename::executor::{Executor, RenameOutcome, Step};
use bulk_rename::preview::PreviewRow;

fn row(name: &str, matched: bool, rendered: &str) -> PreviewRow {
    PreviewRow { entry: Entry::new(true, name), matched, rendered_name: rendered.to_string() }
}

fn request(step: &Step) -> Option<(String, String)> {
    match step {
        Step::Rename(op) => Some((op.from.clone(), op.to.clone())),
        Step::Finished => None,
    }
}

fn pair(from: &str, to: &str) -> Option<(String, String)> {
    Some((from.to_string(), to.to_string()))
}

#[test]
fn all_renames_succeed() {
    let rows = vec![row("bar.txt", true, "bar.bak"), row("foo.txt", true, "foo.bak")];
    let (executor, step) = Executor::start(rows);
    assert_eq!(request(&step), pair("bar.txt", "bar.bak"));
    assert!(!executor.is_finished());
    let (executor, step) = executor.resolve(RenameOutcome::Renamed);
    assert_eq!(request(&step), pair("foo.txt", "foo.bak"));
    assert!(!executor.is_finished());
    let (executor, step) = executor.resolve(RenameOutcome::Renamed);
    assert_eq!(request(&step), None);
    assert!(executor.is_finished());
    assert!(!executor.has_failed());
    assert_eq!(executor.exit_code(), 0);
    assert_eq!(executor.info_lines(), vec!["bar.txt -> bar.bak", "foo.txt -> foo.bak"]);
    assert!(executor.error_lines().is_empty());
}

#[test]
fn stops_at_first_failure() {
    let rows = vec![row("a", true, "a1"), row("b", true, "b1"), row("c", true, "c1")];
    let (executor, step) = Executor::start(rows);
    assert_eq!(request(&step), pair("a", "a1"));
    let (executor, step) = executor.resolve(RenameOutcome::Renamed);
    assert_eq!(request(&step), pair("b", "b1"));
    let (executor, step) =
        executor.resolve(RenameOutcome::Failed("Permission denied (os error 13)".to_string()));
    assert_eq!(request(&step), None);
    assert!(executor.is_finished());
    assert!(executor.has_failed());
    assert_eq!(executor.exit_code(), 1);
    assert_eq!(executor.info_lines(), vec!["a -> a1", "b -> b1"]);
    assert_eq!(
        executor.error_lines(),
        vec!["ERROR: Could not rename file: Permission denied (os error 13)"]
    );
    let (executor, step) = executor.resolve(RenameOutcome::Renamed);
    assert_eq!(request(&step), None);
    assert!(executor.has_failed());
    assert_eq!(executor.info_lines(), vec!["a -> a1", "b -> b1"]);
    assert_eq!(executor.error_lines().len(), 1);
}

#[test]
fn failure_of_first_rename() {
    let rows = vec![row("a", true, "a1"), row("b", true, "b1")];
    let (executor, _) = Executor::start(rows);
    let (executor, step) = executor.resolve(RenameOutcome::Failed("busy".to_string()));
    assert_eq!(request(&step), None);
    assert_eq!(executor.info_lines(), vec!["a -> a1"]);
    assert_eq!(executor.error_lines(), vec!["ERROR: Could not rename file: busy"]);
}

#[test]
fn skips_rows_that_are_not_due() {
    let rows = vec![
        row("a", false, "a"),
        row("b", true, "b"),
        row("c", true, "c2"),
        row("d", false, "ignored"),
        row("e", true, "e2"),
        row("f", false, "f"),
    ];
    let (executor, step) = Executor::start(rows);
    assert_eq!(request(&step), pair("c", "c2"));
    assert_eq!(request(&executor.pending()), pair("c", "c2"));
    let (executor, step) = executor.resolve(RenameOutcome::Renamed);
    assert_eq!(request(&step), pair("e", "e2"));
    let (executor, step) = executor.resolve(RenameOutcome::Renamed);
    assert_eq!(request(&step), None);
    assert_eq!(request(&executor.pending()), None);
    assert_eq!(executor.info_lines(), vec!["c -> c2", "e -> e2"]);
    assert!(!executor.has_failed());
}

#[test]
fn nothing_due_finishes_at_once() {
    let rows = vec![row("a", true, "a"), row("b", false, "b")];
    let (executor, step) = Executor::start(rows);
    assert_eq!(request(&step), None);
    assert!(executor.is_finished());
    assert!(!executor.has_failed());
    assert!(executor.info_lines().is_empty());
    assert!(executor.error_lines().is_empty());
}

#[test]
fn no_rows_finishes_at_once() {
    let (executor, step) = Executor::start(Vec::new());
    assert_eq!(request(&step), None);
    assert!(executor.is_finished());
    assert!(executor.info_lines().is_empty());
}

#[test]
fn outcome_after_the_end_changes_nothing() {
    let (executor, _) = Executor::start(vec![row("a", true, "b")]);
    let (executor, _) = executor.resolve(RenameOutcome::Renamed);
    assert!(executor.is_finished());
    let (executor, step) = executor.resolve(RenameOutcome::Failed("late".to_string()));
    assert_eq!(request(&step), None);
    assert!(!executor.has_failed());
    assert_eq!(executor.info_lines(), vec!["a -> b"]);
    assert!(executor.error_lines().is_empty());
}
