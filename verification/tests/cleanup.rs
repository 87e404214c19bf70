use astro_plan::cleanup::{
    count_u32, file_name, frame_protection_source, plan_labels, plannable_rows,
    raw_frame_plan_items, raw_frame_protection_category, refuse_unreadable_frame_attribution,
    saturating_add_i64, scan_candidates, FrameAttribution, FramePresenceState, FrameRecordRow,
    InventoryFrame, MalformedColumn, RawFrameType, FRAME_IDS_COLUMN,
};
use astro_plan::errors::{ErrorCode, ErrorSeverity};

#[test]
fn each_frame_type_resolves_under_its_own_category() {
    assert_eq!(raw_frame_protection_category(RawFrameType::Light), "lights");
    assert_eq!(raw_frame_protection_category(RawFrameType::Dark), "darks");
    assert_eq!(raw_frame_protection_category(RawFrameType::Flat), "flats");
    assert_eq!(raw_frame_protection_category(RawFrameType::Bias), "bias");
}

fn malformed(column: &str, row: &str) -> MalformedColumn {
    MalformedColumn {
        table_name: "sessions".to_owned(),
        column_name: column.to_owned(),
        row_id: row.to_owned(),
    }
}

#[test]
fn readable_attribution_does_not_refuse() {
    assert!(refuse_unreadable_frame_attribution(&Vec::new()).is_ok());
    assert!(refuse_unreadable_frame_attribution(&vec![malformed("aliases", "eq-1")]).is_ok());
}

#[test]
fn unreadable_frame_membership_refuses_and_names_the_sessions() {
    let rows = vec![
        malformed(FRAME_IDS_COLUMN, "ses-1"),
        malformed("aliases", "eq-1"),
        malformed(FRAME_IDS_COLUMN, "ses-2"),
    ];
    let e = refuse_unreadable_frame_attribution(&rows).unwrap_err();
    assert_eq!(e.code, ErrorCode::InternalData);
    assert_eq!(e.severity, ErrorSeverity::Blocking);
    assert!(!e.retryable);
    assert_eq!(
        e.message,
        "frame-to-session attribution is unreadable for 2 session(s) (ses-1, ses-2), \
         so raw sub-frame cleanup cannot tell an unattributed frame from one \
         of theirs. Repair or re-import those sessions first."
    );
}

#[test]
fn a_session_override_is_used_only_when_it_exists() {
    assert_eq!(frame_protection_source(Some("ses-1"), "root-1", true), "ses-1");
    assert_eq!(frame_protection_source(Some("ses-1"), "root-1", false), "root-1");
    assert_eq!(frame_protection_source(None, "root-1", true), "root-1");
}

#[test]
fn saturating_addition_clamps_at_both_ends() {
    assert_eq!(saturating_add_i64(2, 3), 5);
    assert_eq!(saturating_add_i64(i64::MAX, 1), i64::MAX);
    assert_eq!(saturating_add_i64(i64::MIN, -1), i64::MIN);
    assert_eq!(saturating_add_i64(i64::MAX, i64::MIN), -1);
}

fn frame(t: RawFrameType, size: i64, state: FramePresenceState) -> InventoryFrame {
    InventoryFrame {
        frame_id: "f".to_owned(),
        session_id: None,
        root_id: "root-1".to_owned(),
        relative_path: "a/f.fits".to_owned(),
        frame_type: t,
        size_bytes: size,
        state,
    }
}

#[test]
fn protected_frames_are_never_candidates() {
    let frames = vec![
        frame(RawFrameType::Light, 10, FramePresenceState::Present),
        frame(RawFrameType::Dark, 20, FramePresenceState::Protected),
        frame(RawFrameType::Flat, 30, FramePresenceState::Present),
    ];
    assert_eq!(scan_candidates(&frames, None), (vec![0, 2], 40));
}

#[test]
fn a_kind_filter_keeps_only_the_requested_types() {
    let frames = vec![
        frame(RawFrameType::Light, 10, FramePresenceState::Present),
        frame(RawFrameType::Dark, 20, FramePresenceState::Present),
        frame(RawFrameType::Bias, 5, FramePresenceState::Present),
    ];
    let kinds = vec![RawFrameType::Dark, RawFrameType::Bias];
    assert_eq!(scan_candidates(&frames, Some(&kinds)), (vec![1, 2], 25));
    assert_eq!(scan_candidates(&frames, Some(&Vec::new())), (vec![], 0));
}

#[test]
fn reclaimable_bytes_saturate() {
    let frames = vec![
        frame(RawFrameType::Light, i64::MAX, FramePresenceState::Present),
        frame(RawFrameType::Light, 1, FramePresenceState::Present),
    ];
    assert_eq!(scan_candidates(&frames, None).1, i64::MAX);
}

fn record(state: &str, path: &str, size: i64) -> FrameRecordRow {
    FrameRecordRow {
        id: "r".to_owned(),
        state: state.to_owned(),
        root_id: "root-1".to_owned(),
        relative_path: path.to_owned(),
        size_bytes: size,
    }
}

#[test]
fn missing_records_are_never_planned() {
    let rows = vec![record("present", "a", 1), record("missing", "b", 1), record("", "c", 1)];
    assert_eq!(plannable_rows(&rows), vec![0, 2]);
}

#[test]
fn file_names_are_the_last_path_segment() {
    assert_eq!(file_name("M51/LUM/frame_001.fits"), "frame_001.fits");
    assert_eq!(file_name("frame.fits"), "frame.fits");
    assert_eq!(file_name("dir/"), "");
    assert_eq!(file_name(""), "");
}

#[test]
fn every_selected_frame_becomes_a_numbered_archive_item() {
    let rows = vec![record("present", "M51/a.fits", 100), record("present", "M51/b.fits", -5)];
    let attrs = vec![
        FrameAttribution { frame_type: RawFrameType::Light, source_id: "ses-1".to_owned() },
        FrameAttribution { frame_type: RawFrameType::Dark, source_id: "root-1".to_owned() },
    ];
    let plan = raw_frame_plan_items("plan-9", &rows, &attrs).ok().unwrap();
    assert_eq!(plan.total_bytes_required, 100);
    assert_eq!(plan.items.len(), 2);
    let a = &plan.items[0];
    assert_eq!(a.id, "plan-9-item-0");
    assert_eq!(a.name, "a.fits");
    assert_eq!(a.action, "archive");
    assert_eq!(a.source_id, "ses-1");
    assert_eq!(a.category, "lights");
    assert_eq!(a.from_relative_path, "M51/a.fits");
    assert_eq!(a.from_root_id.as_deref(), Some("root-1"));
    assert_eq!(a.to_relative_path, "");
    assert_eq!(plan.items[1].id, "plan-9-item-1");
    assert_eq!(plan.items[1].category, "darks");
}

#[test]
fn an_empty_selection_is_refused_as_a_warning() {
    let e = raw_frame_plan_items("plan-9", &Vec::new(), &Vec::new()).err().unwrap();
    assert_eq!(e.code, ErrorCode::InternalError);
    assert_eq!(e.severity, ErrorSeverity::Warning);
    assert_eq!(e.message, "no selected frame resolved to a present file_record row");
}

#[test]
fn counts_saturate_at_u32_max() {
    assert_eq!(count_u32(7), 7);
    assert_eq!(count_u32(u32::MAX as usize + 5), u32::MAX);
}

#[test]
fn plan_labels_default_the_title_and_destination() {
    assert_eq!(plan_labels(None, None), ("Raw sub-frame cleanup".to_owned(), "archive".to_owned()));
    assert_eq!(
        plan_labels(Some("Tidy".to_owned()), Some("trash".to_owned())),
        ("Tidy".to_owned(), "trash".to_owned())
    );
}
