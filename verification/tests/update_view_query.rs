use astro_plan::update_view::query::{
    conflict_page, contract_state, item_page, overlay_mapping_page, plan_dto,
    plan_not_found, session_page, ConflictRow, OverlayMappingRow, PlanEntryRow, PlanRefs,
    PlanSessionRow, UpdatePlanRow, PAGE_LIMIT,
};
use astro_plan::errors::ErrorCode;

#[test]
fn draft_is_presented_as_open() {
    assert_eq!(contract_state("draft"), "open");
}

#[test]
fn known_states_keep_their_name_and_others_are_unknown() {
    for s in ["approved", "applying", "stopped", "applied", "failed", "discarded", "stale"] {
        assert_eq!(contract_state(s), s);
    }
    assert_eq!(contract_state("open"), "unknown");
    assert_eq!(contract_state(""), "unknown");
    assert_eq!(contract_state("Draft"), "unknown");
}

fn plan_row(state: &str) -> UpdatePlanRow {
    UpdatePlanRow {
        row_id: 7,
        public_id: "plan-1".to_owned(),
        project_row_id: 3,
        state: state.to_owned(),
        content_digest: "sha256:abc".to_owned(),
        session_count: 2,
        item_count: 5,
        source_frame_count: 5,
        source_byte_count: 1234,
        remaining_session_count: 1,
        base_snapshot_row_id: None,
        target_membership_revision_row_id: 9,
        next_session_row_id: Some(4),
        actor_row_id: 1,
        created_at: "2026-01-01T00:00:00.000000Z".to_owned(),
    }
}

fn refs() -> PlanRefs {
    PlanRefs {
        project_id: "prj-1".to_owned(),
        base_snapshot_id: None,
        target_membership_revision_id: "rev-9".to_owned(),
        next_session_id: Some("ses-4".to_owned()),
        created_by: "actor-1".to_owned(),
    }
}

#[test]
fn the_plan_dto_carries_the_row_under_its_contract_state() {
    let dto = plan_dto(plan_row("draft"), refs(), 3);
    assert_eq!(dto.plan_id, "plan-1");
    assert_eq!(dto.state, "open");
    assert_eq!(dto.project_id, "prj-1");
    assert_eq!(dto.base_snapshot_id, None);
    assert_eq!(dto.target_membership_revision_id, "rev-9");
    assert_eq!(dto.plan_digest, "sha256:abc");
    assert_eq!(dto.session_count, 2);
    assert_eq!(dto.item_count, 5);
    assert_eq!(dto.source_frame_count, 5);
    assert_eq!(dto.source_byte_count, 1234);
    assert_eq!(dto.conflict_count, 3);
    assert_eq!(dto.remaining_session_count, 1);
    assert_eq!(dto.next_session_id.as_deref(), Some("ses-4"));
    assert_eq!(dto.created_at, "2026-01-01T00:00:00.000000Z");
    assert_eq!(dto.created_by, "actor-1");
}

#[test]
fn an_unknown_plan_id_is_refused_with_its_id_in_the_message() {
    let e = plan_not_found("plan-x");
    assert_eq!(e.code, ErrorCode::ProjectUpdateViewPlanNotFound);
    assert_eq!(e.message, "update view plan plan-x not found");
    assert!(!e.retryable);
}

#[test]
fn a_short_fetch_is_one_final_page() {
    let rows: Vec<ConflictRow> = (1..=3)
        .map(|i| ConflictRow { public_id: format!("e-{i}"), relative_path: "p".to_owned(), ordinal: i })
        .collect();
    let page = conflict_page(&rows);
    assert_eq!(page.conflicts.len(), 3);
    assert_eq!(page.next_ordinal, None);
    assert_eq!(conflict_page(&Vec::new()).conflicts.len(), 0);
}

#[test]
fn exactly_a_page_has_no_next_cursor() {
    let rows: Vec<PlanSessionRow> = (1..=PAGE_LIMIT as i64)
        .map(|i| PlanSessionRow { session_public_id: format!("s-{i}"), ordinal: i })
        .collect();
    let page = session_page(&rows);
    assert_eq!(page.sessions.len(), PAGE_LIMIT);
    assert_eq!(page.next_ordinal, None);
}

#[test]
fn one_row_past_a_page_names_the_last_shown_ordinal() {
    let rows: Vec<PlanSessionRow> = (1..=(PAGE_LIMIT as i64 + 1))
        .map(|i| PlanSessionRow { session_public_id: format!("s-{i}"), ordinal: i * 10 })
        .collect();
    let page = session_page(&rows);
    assert_eq!(page.sessions.len(), PAGE_LIMIT);
    assert_eq!(page.next_ordinal, Some(PAGE_LIMIT as i64 * 10));
}

#[test]
fn session_pages_keep_row_order_and_cut_at_the_limit() {
    let rows: Vec<PlanSessionRow> = (0..(PAGE_LIMIT as i64 + 1))
        .map(|i| PlanSessionRow { session_public_id: format!("s-{i}"), ordinal: i + 1 })
        .collect();
    let page = session_page(&rows);
    assert_eq!(page.sessions.len(), PAGE_LIMIT);
    assert_eq!(page.sessions[0].session_id, "s-0");
    assert_eq!(page.sessions[99].ordinal, 100);
    assert_eq!(page.next_ordinal, Some(100));

    let short = session_page(&rows[..2].iter().map(|r| PlanSessionRow {
        session_public_id: r.session_public_id.clone(),
        ordinal: r.ordinal,
    }).collect());
    assert_eq!(short.sessions.len(), 2);
    assert_eq!(short.next_ordinal, None);
}

#[test]
fn item_pages_carry_each_row_and_its_session_id() {
    let rows = vec![PlanEntryRow {
        row_id: 1,
        public_id: "e-1".to_owned(),
        session_row_id: 4,
        frame_row_id: 8,
        destination_root_row_id: 2,
        relative_path: "ses/frame.fits".to_owned(),
        collision_state: "none".to_owned(),
        approved_fingerprint: "fp".to_owned(),
        ordinal: 1,
    }];
    let page = item_page(&rows, &vec!["ses-4".to_owned()]);
    assert_eq!(page.items.len(), 1);
    let d = &page.items[0];
    assert_eq!(d.item_id, "e-1");
    assert_eq!(d.session_id, "ses-4");
    assert_eq!(d.destination_relative_path, "ses/frame.fits");
    assert_eq!(d.collision_state, "none");
    assert_eq!(d.approved_fingerprint, "fp");
    assert_eq!(d.ordinal, 1);
    assert_eq!(page.next_ordinal, None);
}

#[test]
fn conflict_and_mapping_pages_map_their_rows() {
    let conflicts = conflict_page(&vec![ConflictRow {
        public_id: "e-2".to_owned(),
        relative_path: "a/b.fits".to_owned(),
        ordinal: 5,
    }]);
    assert_eq!(conflicts.conflicts.len(), 1);
    assert_eq!(conflicts.conflicts[0].item_id, "e-2");
    assert_eq!(conflicts.conflicts[0].destination_relative_path, "a/b.fits");
    assert_eq!(conflicts.conflicts[0].ordinal, 5);

    let mappings = overlay_mapping_page(&vec![OverlayMappingRow {
        ordinal: 1,
        predecessor_entry_public_id: "old-1".to_owned(),
        replacement_plan_entry_public_id: None,
        exclusion_reason_code: Some("excluded".to_owned()),
    }]);
    assert_eq!(mappings.mappings.len(), 1);
    assert_eq!(mappings.mappings[0].predecessor_entry_id, "old-1");
    assert_eq!(mappings.mappings[0].replacement_entry_id, None);
    assert_eq!(mappings.mappings[0].exclusion_reason_code.as_deref(), Some("excluded"));
    assert_eq!(mappings.next_ordinal, None);
}
