use astro_plan::artifacts::{
    detect_actions, detect_events, gone_ids, missing_events, scan_incomplete_event, ArtifactEvent,
    ArtifactRow, DetectAction, DetectEvent, DetectedFile, GoneArtifact,
};

fn gone(id: &str, path: &str) -> GoneArtifact {
    GoneArtifact { id: id.to_owned(), path: path.to_owned() }
}

#[test]
fn nothing_gone_touches_nothing() {
    assert!(gone_ids(&Vec::new()).is_none());
    assert_eq!(
        gone_ids(&vec![gone("a-1", "x"), gone("a-2", "y")]),
        Some(vec!["a-1".to_owned(), "a-2".to_owned()])
    );
}

#[test]
fn gone_artifacts_publish_missing_then_source_missing_events() {
    let matches = vec![("a-1".to_owned(), "m-7".to_owned())];
    let events = missing_events("prj-1", &vec![gone("a-1", "out/a.fits")], Some(&matches), "t0");
    assert_eq!(events.len(), 2);
    match &events[0] {
        ArtifactEvent::Missing { artifact_id, project_id, path, at } => {
            assert_eq!((artifact_id.as_str(), project_id.as_str()), ("a-1", "prj-1"));
            assert_eq!((path.as_str(), at.as_str()), ("out/a.fits", "t0"));
        }
        _ => panic!("first event is artifact.missing"),
    }
    match &events[1] {
        ArtifactEvent::CalibrationSourceMissing { match_id, frame_id, at } => {
            assert_eq!((match_id.as_str(), frame_id.as_str(), at.as_str()), ("m-7", "a-1", "t0"));
        }
        _ => panic!("second event is the source-missing event"),
    }
}

#[test]
fn a_failed_match_lookup_publishes_only_missing_events() {
    let events = missing_events("prj-1", &vec![gone("a-1", "p"), gone("a-2", "q")], None, "t0");
    assert_eq!(events.len(), 2);
    assert!(events.iter().all(|e| matches!(e, ArtifactEvent::Missing { .. })));
}

#[test]
fn a_complete_scan_records_no_incompleteness() {
    assert!(scan_incomplete_event("prj-1", &Vec::new(), "t0").is_none());
    let e = scan_incomplete_event("prj-1", &vec!["/locked".to_owned()], "t0").unwrap();
    match e {
        ArtifactEvent::ScanIncomplete { project_id, unreadable_paths, at } => {
            assert_eq!(project_id, "prj-1");
            assert_eq!(unreadable_paths, vec!["/locked".to_owned()]);
            assert_eq!(at, "t0");
        }
        _ => panic!("a scan_incomplete event"),
    }
}

fn file(path: &str) -> DetectedFile {
    DetectedFile {
        path: path.to_owned(),
        size_bytes: 1,
        file_mtime: "m".to_owned(),
        detected_at: "d".to_owned(),
    }
}

fn row(id: &str, path: &str) -> ArtifactRow {
    ArtifactRow { id: id.to_owned(), path: path.to_owned(), content_hash: None }
}

#[test]
fn known_paths_update_their_first_row_and_new_paths_insert() {
    let existing = vec![row("r-0", "a"), row("r-1", "b"), row("r-2", "a")];
    let actions = detect_actions(&vec![file("a"), file("c"), file("b")], &existing);
    assert!(
        actions
            == vec![DetectAction::Update { row: 0 }, DetectAction::Insert, DetectAction::Update { row: 1 }]
    );
}

#[test]
fn only_landed_inserts_emit_detected_and_classified() {
    let inserts = vec!["n-1".to_owned(), "n-2".to_owned()];
    let landed = vec!["n-2".to_owned(), "other".to_owned()];
    let events = detect_events(2, &inserts, &landed);
    assert!(
        events
            == vec![
                DetectEvent::Updated { update: 0 },
                DetectEvent::Updated { update: 1 },
                DetectEvent::Detected { insert: 1 },
                DetectEvent::Classified { insert: 1 },
            ]
    );
    assert!(detect_events(0, &Vec::new(), &Vec::new()).is_empty());
}
