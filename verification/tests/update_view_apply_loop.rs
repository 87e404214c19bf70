use astro_plan::errors::ErrorCode;
use astro_plan::update_view::apply_loop::{
    apply_loop_steps, find_journal, install_failure, install_source_parts, snapshot_counts,
    source_parts_from, install_next, InstallStage,
    snapshot_sessions, JournalRow, LoopStep,
};
use astro_plan::update_view::query::PlanEntryRow;

fn entry(row_id: i64) -> PlanEntryRow {
    PlanEntryRow {
        row_id,
        public_id: format!("e-{row_id}"),
        session_row_id: 1,
        frame_row_id: row_id,
        destination_root_row_id: 1,
        relative_path: format!("s/f-{row_id}"),
        collision_state: "clear".to_owned(),
        approved_fingerprint: "fp".to_owned(),
        ordinal: row_id,
    }
}

fn journal(item_row_id: i64, entry_row_id: i64) -> JournalRow {
    JournalRow {
        item_row_id,
        entry_row_id,
        relative_path: "p".to_owned(),
        fingerprint: "fp".to_owned(),
    }
}

#[test]
fn journaled_entries_are_reused_and_the_rest_installed() {
    let entries = vec![entry(1), entry(2), entry(3)];
    let j = vec![journal(3, 30), journal(1, 10), journal(1, 11)];
    let steps = apply_loop_steps(&entries, &j);
    assert!(
        steps
            == vec![
                LoopStep::Reuse { journal_index: 1 },
                LoopStep::Install,
                LoopStep::Reuse { journal_index: 0 },
            ]
    );
}

#[test]
fn find_journal_returns_the_first_match() {
    let j = vec![journal(5, 1), journal(7, 2), journal(7, 3)];
    assert_eq!(find_journal(&j, 7), Some(1));
    assert_eq!(find_journal(&j, 8), None);
    assert_eq!(find_journal(&Vec::new(), 1), None);
}

#[test]
fn snapshot_counts_add_the_plan_sessions_to_the_base() {
    assert_eq!(snapshot_counts(4, 2, 3), (4, 5));
}

#[test]
fn snapshot_sessions_follow_the_base_with_the_plan() {
    let base = vec![10, 11];
    let plan = vec![20];
    assert_eq!(snapshot_sessions(Some(&base), &plan), vec![(10, 0), (11, 1), (20, 2)]);
    assert_eq!(snapshot_sessions(None, &plan), vec![(20, 0)]);
}

#[test]
fn an_install_source_splits_into_directory_and_name() {
    assert_eq!(
        install_source_parts("/mnt/lib/M51/frame.fits"),
        ("/mnt/lib/M51".to_owned(), "frame.fits".to_owned())
    );
}

#[test]
fn a_root_path_is_its_own_directory_and_name() {
    assert_eq!(install_source_parts("/"), ("/".to_owned(), "/".to_owned()));
}

#[test]
fn an_install_failure_names_the_item_and_code() {
    let e = install_failure("e-1", "collision", "destination exists");
    assert_eq!(e.code, ErrorCode::ProjectUpdateViewPathConflict);
    assert_eq!(e.message, "install failed for item e-1: collision \u{2014} destination exists");
}

#[test]
fn missing_path_parts_fall_back_to_the_whole_path() {
    assert_eq!(
        source_parts_from("/a/b", Some("/a".to_owned()), Some("b".to_owned())),
        ("/a".to_owned(), "b".to_owned())
    );
    assert_eq!(source_parts_from("x", None, None), ("x".to_owned(), "x".to_owned()));
}

#[test]
fn an_install_runs_its_four_steps_in_order() {
    let mut stage = InstallStage::PrepareIntent;
    let mut seen = vec![stage];
    while stage != InstallStage::Done {
        stage = install_next(stage, true);
        seen.push(stage);
    }
    assert!(
        seen == vec![
            InstallStage::PrepareIntent,
            InstallStage::Install,
            InstallStage::MarkInstalled,
            InstallStage::Journal,
            InstallStage::Done,
        ]
    );
}

#[test]
fn an_install_stops_at_the_first_failure() {
    assert!(install_next(InstallStage::Install, false) == InstallStage::Stopped);
    assert!(install_next(InstallStage::Stopped, true) == InstallStage::Stopped);
    assert!(install_next(InstallStage::Done, false) == InstallStage::Done);
}
