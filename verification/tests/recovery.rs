use astro_plan::recovery::{
    empty_report, item_paths, resolve, resolve_archive, roots_to_resolve, shape_for,
    ItemRewrite, MutationShape, ReconcileReport, ReconcileTally, ReconcileVerdict, RootMap,
    UnreconciledItem, AMBIGUOUS_REASON,
};

fn item(action: &str, from: Option<&str>, to: Option<&str>, archive: Option<&str>) -> UnreconciledItem {
    UnreconciledItem {
        id: "i-1".to_owned(),
        plan_id: "p-1".to_owned(),
        action: action.to_owned(),
        from_root_id: from.map(str::to_owned),
        from_relative_path: "raw/file.fits".to_owned(),
        to_root_id: to.map(str::to_owned),
        to_relative_path: "sorted/file.fits".to_owned(),
        archive_path: archive.map(str::to_owned),
    }
}

fn library() -> RootMap {
    let mut m = RootMap::new();
    m.insert("root-001".to_owned(), "/mnt/library".to_owned());
    m.insert("root-002".to_owned(), "/mnt/lights".to_owned());
    m
}

#[test]
fn actions_map_to_their_filesystem_shape() {
    assert!(shape_for("move") == MutationShape::Relocate);
    assert!(shape_for("archive") == MutationShape::Relocate);
    assert!(shape_for("delete") == MutationShape::Remove);
    assert!(shape_for("trash") == MutationShape::Remove);
    assert!(shape_for("mkdir") == MutationShape::Create);
    assert!(shape_for("link") == MutationShape::Create);
    assert!(shape_for("write_manifest") == MutationShape::Create);
    assert!(shape_for("catalogue") == MutationShape::NoEffect);
    assert!(shape_for("") == MutationShape::NoEffect);
}

#[test]
fn a_report_needs_review_only_with_an_ambiguous_plan() {
    let clean = ReconcileReport { healed: 3, left_for_resume: 1, ambiguous_plan_ids: vec![] };
    assert!(!clean.needs_user_review());
    let ambiguous =
        ReconcileReport { healed: 0, left_for_resume: 0, ambiguous_plan_ids: vec!["p".to_owned()] };
    assert!(ambiguous.needs_user_review());
    assert!(!empty_report().needs_user_review());
}

#[test]
fn each_referenced_root_is_resolved_once() {
    let items = vec![
        item("move", Some("root-001"), Some("root-002"), None),
        item("move", Some("root-002"), None, None),
        item("delete", None, Some("root-001"), None),
        item("catalogue", None, None, None),
    ];
    let mut roots = roots_to_resolve(&items);
    roots.sort();
    assert_eq!(roots, vec!["root-001".to_owned(), "root-002".to_owned()]);
    assert!(roots_to_resolve(&Vec::new()).is_empty());
}

#[test]
fn the_root_map_answers_only_inserted_roots() {
    let m = library();
    assert_eq!(m.get("root-001").map(String::as_str), Some("/mnt/library"));
    assert_eq!(m.get("root-002").map(String::as_str), Some("/mnt/lights"));
    assert_eq!(m.get("root-003"), None);
}

#[test]
fn a_relative_path_resolves_against_its_root() {
    let m = library();
    assert_eq!(
        resolve(&m, &Some("root-001".to_owned()), "raw/file.fits").as_deref(),
        Some("/mnt/library/raw/file.fits")
    );
}

#[test]
fn an_empty_path_or_an_unresolved_root_resolves_nothing() {
    let m = library();
    assert_eq!(resolve(&m, &Some("root-001".to_owned()), ""), None);
    assert_eq!(resolve(&m, &Some("gone".to_owned()), "a"), None);
    assert_eq!(resolve(&m, &None, "a"), None);
}

#[test]
fn an_archive_path_is_root_relative_when_its_source_root_resolves() {
    let m = library();
    let it = item("archive", Some("root-001"), None, Some("archive/file.fits"));
    assert_eq!(resolve_archive(&m, &it).as_deref(), Some("/mnt/library/archive/file.fits"));
}

#[test]
fn an_archive_path_without_a_source_root_is_used_as_stored() {
    let m = library();
    let it = item("archive", None, None, Some("/vault/archive/file.fits"));
    assert_eq!(resolve_archive(&m, &it).as_deref(), Some("/vault/archive/file.fits"));
    let unresolved = item("archive", Some("gone"), None, Some("/vault/a"));
    assert_eq!(resolve_archive(&m, &unresolved).as_deref(), Some("/vault/a"));
}

#[test]
fn a_missing_or_empty_archive_path_resolves_nothing() {
    let m = library();
    assert_eq!(resolve_archive(&m, &item("archive", Some("root-001"), None, None)), None);
    assert_eq!(resolve_archive(&m, &item("archive", Some("root-001"), None, Some(""))), None);
}

#[test]
fn archive_items_probe_their_archive_path_and_others_their_destination() {
    let m = library();
    let archived = item_paths(&m, &item("archive", Some("root-001"), Some("root-002"), Some("a/f")));
    assert_eq!(archived.0.as_deref(), Some("/mnt/library/raw/file.fits"));
    assert_eq!(archived.1.as_deref(), Some("/mnt/library/a/f"));

    let moved = item_paths(&m, &item("move", Some("root-001"), Some("root-002"), Some("a/f")));
    assert_eq!(moved.1.as_deref(), Some("/mnt/lights/sorted/file.fits"));
}

#[test]
fn the_tally_counts_verdicts_and_sorts_review_plans_once_each() {
    let mut t = ReconcileTally::new();
    assert!(t.record("p-2", ReconcileVerdict::Ambiguous) == ItemRewrite::Fail);
    assert!(t.record("p-1", ReconcileVerdict::Completed) == ItemRewrite::Heal);
    assert!(t.record("p-1", ReconcileVerdict::NotStarted) == ItemRewrite::Keep);
    assert!(t.record("p-1", ReconcileVerdict::Ambiguous) == ItemRewrite::Fail);
    assert!(t.record("p-2", ReconcileVerdict::Ambiguous) == ItemRewrite::Fail);
    let r = t.finish();
    assert_eq!(r.healed, 1);
    assert_eq!(r.left_for_resume, 1);
    assert_eq!(r.ambiguous_plan_ids, vec!["p-1".to_owned(), "p-2".to_owned()]);
    assert!(r.needs_user_review());
}

#[test]
fn a_pass_without_ambiguity_needs_no_review() {
    let mut t = ReconcileTally::new();
    t.record("p-1", ReconcileVerdict::Completed);
    t.record("p-1", ReconcileVerdict::NotStarted);
    let r = t.finish();
    assert!(!r.needs_user_review());
}

#[test]
fn the_ambiguity_reason_is_fixed() {
    assert_eq!(AMBIGUOUS_REASON, "filesystem state ambiguous at boot; needs user resume/repair");
}

#[test]
fn an_absolute_relative_path_replaces_the_root() {
    let m = library();
    assert_eq!(
        resolve(&m, &Some("root-001".to_owned()), "/elsewhere/f.fits").as_deref(),
        Some("/elsewhere/f.fits")
    );
}
