use apex_road::timing::{Completion, RunProgress};

fn started() -> RunProgress {
    let mut run = RunProgress::new();
    run.started = true;
    run
}

#[test]
fn fresh_run_is_idle_and_valid() {
    let run = RunProgress::new();
    assert!(!run.started && !run.finished && !run.invalid);
    assert_eq!((run.completed_runs, run.next_checkpoint), (0, 0));
    assert!(!run.timing());
    assert!(started().timing());
}

#[test]
fn ordered_gates_then_finish_make_a_record() {
    let mut run = started();
    run.pass_gates(1, true);
    assert_eq!(run.next_checkpoint, 1);
    let outcome = run.complete(1, true, true, false);
    assert_eq!(outcome, Completion { counted: true, record: true });
    assert!(run.finished);
    assert_eq!(run.completed_runs, 1);
    assert!(!run.timing());
}

#[test]
fn gate_crossed_off_course_invalidates_and_is_not_counted() {
    let mut run = started();
    run.pass_gates(2, false);
    assert!(run.invalid);
    assert_eq!(run.next_checkpoint, 0);
    let outcome = run.complete(2, true, true, false);
    assert_eq!(outcome, Completion { counted: false, record: false });
    assert!(run.finished && run.invalid);
}

#[test]
fn missing_a_gate_or_finishing_off_course_is_not_counted() {
    let mut run = started();
    assert!(!run.complete(1, true, true, false).counted);
    let mut run = started();
    run.pass_gates(1, true);
    assert!(!run.complete(1, false, true, false).counted);
}

#[test]
fn slower_valid_run_counts_without_record() {
    let mut run = started();
    let outcome = run.complete(0, true, false, false);
    assert_eq!(outcome, Completion { counted: true, record: false });
}

#[test]
fn circuit_starts_each_lap_afresh() {
    let mut run = started();
    run.invalidate();
    run.pass_gates(1, true);
    let outcome = run.complete(2, true, true, true);
    assert!(!outcome.counted && !outcome.record);
    assert!(!run.finished && !run.invalid);
    assert_eq!(run.next_checkpoint, 0);
    run.pass_gates(2, true);
    assert!(run.complete(2, true, true, true).record);
    assert_eq!(run.completed_runs, 2);
}

#[test]
fn no_gates_reached_changes_nothing() {
    let mut run = started();
    run.next_checkpoint = 3;
    let before = run;
    run.pass_gates(0, false);
    assert_eq!(run, before);
}
