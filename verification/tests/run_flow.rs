use history_export::error::ExportError;
use history_export::extract::{extract, PlaceRecord, VisitRecord};
use history_export::run::{Phase, ProfileRun};
use history_export::state::State;

fn visit(id: u64, place_id: u64, visit_date: i64) -> VisitRecord {
    VisitRecord { id, place_id, visit_date, visit_type: 1 }
}

fn place(id: u64, url: &str) -> PlaceRecord {
    PlaceRecord { id, url: url.to_string() }
}

#[test]
fn first_run_exports_three_and_advances_cursor_to_three() {
    let visits = vec![visit(1, 10, 100), visit(2, 20, 200), visit(3, 30, 300)];
    let places = vec![place(10, "a.com"), place(20, "b.com"), place(30, "c.com")];
    let mut run = ProfileRun::begin(State { last_run: 0, last_sync: 0, last_history_id: 0 }, 1000);
    run.on_backup(true);
    assert_eq!(run.phase, Phase::BackedUp);
    let entries = extract(&visits, &places, run.cursor());
    assert_eq!(entries.len(), 3);
    assert_eq!(entries[0].url, "a.com");
    assert_eq!(entries[1].url, "b.com");
    assert_eq!(entries[2].url, "c.com");
    run.on_extracted(entries.len());
    assert!(run.needs_export());
    run.on_written(true);
    let pending = run.pending_state();
    assert_eq!(pending, State { last_run: 1000, last_sync: 1000, last_history_id: 3 });
    run.on_state_saved(true);
    assert_eq!(run.phase, Phase::StateAdvanced);
    assert_eq!(run.state, State { last_run: 1000, last_sync: 1000, last_history_id: 3 });
}

#[test]
fn rerun_with_unchanged_source_updates_only_last_run() {
    let visits = vec![visit(1, 10, 100), visit(2, 20, 200), visit(3, 30, 300)];
    let places = vec![place(10, "a.com"), place(20, "b.com"), place(30, "c.com")];
    let state = State { last_run: 1000, last_sync: 1000, last_history_id: 3 };
    let mut run = ProfileRun::begin(state, 2000);
    run.on_backup(true);
    let entries = extract(&visits, &places, run.cursor());
    assert_eq!(entries.len(), 0);
    run.on_extracted(entries.len());
    // No export file is owed for an empty batch.
    assert!(!run.needs_export());
    let pending = run.pending_state();
    assert_eq!(pending, State { last_run: 2000, last_sync: 1000, last_history_id: 3 });
    run.on_state_saved(true);
    assert_eq!(run.phase, Phase::StateAdvanced);
    assert_eq!(run.state.last_run, 2000);
    assert_eq!(run.state.last_sync, 1000);
    assert_eq!(run.state.last_history_id, 3);
}

#[test]
fn two_empty_runs_touch_nothing_but_last_run() {
    let state = State { last_run: 10, last_sync: 20, last_history_id: 30 };
    let mut first = ProfileRun::begin(state, 100);
    first.on_backup(true);
    first.on_extracted(0);
    assert!(!first.needs_export());
    first.on_state_saved(true);
    let mut second = ProfileRun::begin(first.state, 200);
    second.on_backup(true);
    second.on_extracted(0);
    assert!(!second.needs_export());
    second.on_state_saved(true);
    assert_eq!(second.state, State { last_run: 200, last_sync: 20, last_history_id: 30 });
}

#[test]
fn backup_failure_leaves_state_and_other_profiles_run() {
    let state = State { last_run: 1, last_sync: 2, last_history_id: 3 };
    let mut broken = ProfileRun::begin(state, 500);
    broken.on_backup(false);
    assert_eq!(broken.phase, Phase::Failed);
    assert_eq!(broken.error, Some(ExportError::SourceUnavailable));
    assert_eq!(broken.state, state);

    // Failure isolation: a second profile still goes through.
    let mut other = ProfileRun::begin(State { last_run: 0, last_sync: 0, last_history_id: 0 }, 500);
    other.on_backup(true);
    other.on_extracted(0);
    other.on_state_saved(true);
    assert_eq!(other.phase, Phase::StateAdvanced);
}

#[test]
fn write_failure_rolls_the_cursor_back() {
    let state = State { last_run: 1, last_sync: 2, last_history_id: 3 };
    let mut run = ProfileRun::begin(state, 900);
    run.on_backup(true);
    run.on_extracted(5);
    assert!(run.needs_export());
    run.on_written(false);
    assert_eq!(run.phase, Phase::Failed);
    assert_eq!(run.error, Some(ExportError::WriteError));
    assert_eq!(run.state.last_history_id, 3);
    assert_eq!(run.state.last_sync, 2);
    assert_eq!(run.state, state);
}

#[test]
fn state_save_failure_keeps_durable_state() {
    let state = State { last_run: 1, last_sync: 2, last_history_id: 3 };
    let mut run = ProfileRun::begin(state, 900);
    run.on_backup(true);
    run.on_extracted(2);
    run.on_written(true);
    run.on_state_saved(false);
    assert_eq!(run.phase, Phase::Failed);
    assert_eq!(run.error, Some(ExportError::WriteError));
    assert_eq!(run.state, state);
}

#[test]
fn extract_failure_marks_profile_failed() {
    let state = State { last_run: 1, last_sync: 2, last_history_id: 3 };
    let mut run = ProfileRun::begin(state, 900);
    run.on_backup(true);
    run.on_extract_failed();
    assert_eq!(run.phase, Phase::Failed);
    assert_eq!(run.error, Some(ExportError::DatabaseQueryError));
    assert_eq!(run.state, state);
}

#[test]
fn successful_write_advances_cursor_by_batch_length() {
    let state = State { last_run: 0, last_sync: 0, last_history_id: 40 };
    let mut run = ProfileRun::begin(state, 700);
    run.on_backup(true);
    run.on_extracted(7);
    run.on_written(true);
    run.on_state_saved(true);
    assert_eq!(run.state.last_history_id, 47);
    assert_eq!(run.state.last_sync, 700);
    assert_eq!(run.state.last_run, 700);
}
