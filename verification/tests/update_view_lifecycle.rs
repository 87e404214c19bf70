use astro_plan::errors::ErrorCode;
use astro_plan::update_view::lifecycle::{
    apply_gate, apply_loop_gate, apply_response, approve_gate, approved_plan_dto, cancel_gate,
    classify_failure_to_leave, leave_target, stale_plan, ApplyFailure, LeftApplying, PlanStateRead,
};
use astro_plan::update_view::query::{PlanRefs, UpdatePlanRow};

#[test]
fn an_open_conflict_free_reviewed_plan_is_approved() {
    assert!(approve_gate("p-1", "draft", 0, "sha256:a", "sha256:a").is_ok());
}

#[test]
fn approving_a_plan_that_is_not_open_names_its_contract_state() {
    let e = approve_gate("p-1", "applying", 0, "d", "d").unwrap_err();
    assert_eq!(e.code, ErrorCode::ProjectUpdateViewPlanNotOpen);
    assert_eq!(e.message, "plan p-1 is in state 'applying', not open");
    let e = approve_gate("p-1", "weird", 0, "d", "d").unwrap_err();
    assert_eq!(e.message, "plan p-1 is in state 'unknown', not open");
}

#[test]
fn conflicts_block_approval_before_the_digest_is_checked() {
    let e = approve_gate("p-1", "draft", 2, "x", "y").unwrap_err();
    assert_eq!(e.code, ErrorCode::ProjectUpdateViewPathConflict);
    assert_eq!(e.message, "plan p-1 has 2 path conflicts; resolve before approval");
}

#[test]
fn an_unreviewed_digest_is_refused_at_approval() {
    let e = approve_gate("p-1", "draft", 0, "x", "y").unwrap_err();
    assert_eq!(e.code, ErrorCode::ProjectUpdateViewPlanDigestMismatch);
    assert_eq!(e.message, "plan p-1 approval digest mismatch");
    assert!(!e.retryable);
}

#[test]
fn approved_and_stopped_plans_can_be_applied() {
    assert_eq!(apply_gate("p-1", "approved", "d", "d").ok(), Some("approved"));
    assert_eq!(apply_gate("p-1", "stopped", "d", "d").ok(), Some("stopped"));
}

#[test]
fn applying_from_another_state_is_refused() {
    let e = apply_gate("p-1", "draft", "d", "d").unwrap_err();
    assert_eq!(e.code, ErrorCode::ProjectUpdateViewPlanNotApproved);
    assert_eq!(e.message, "plan p-1 state 'draft' is not approved or stopped");
}

#[test]
fn applying_with_a_different_digest_is_refused() {
    let e = apply_gate("p-1", "approved", "a", "b").unwrap_err();
    assert_eq!(e.code, ErrorCode::ProjectUpdateViewPlanDigestMismatch);
    assert_eq!(e.message, "plan p-1 apply digest mismatch");
}

#[test]
fn an_accepted_apply_reports_the_command_as_the_operation() {
    let r = apply_response("cmd-1", "p-1".to_owned());
    assert_eq!(r.operation_id, "cmd-1");
    assert_eq!(r.plan_id, "p-1");
    assert_eq!(r.state, "applying");
}

#[test]
fn only_an_applying_plan_can_be_cancelled() {
    assert!(cancel_gate("p-1", "applying").is_ok());
    let e = cancel_gate("p-1", "stopped").unwrap_err();
    assert_eq!(e.code, ErrorCode::ProjectUpdateViewOperationNotCancellable);
    assert_eq!(e.message, "plan p-1 is in state 'stopped'; only applying plans can be cancelled");
}

#[test]
fn the_install_loop_only_drives_an_applying_plan() {
    assert!(apply_loop_gate("p-1", "applying").is_ok());
    let e = apply_loop_gate("p-1", "approved").unwrap_err();
    assert_eq!(e.code, ErrorCode::ProjectUpdateViewPlanNotApproved);
    assert_eq!(e.message, "plan p-1 is not in applying state");
}

#[test]
fn a_lost_transition_is_a_stale_plan() {
    let e = stale_plan("CAS failed".to_owned());
    assert_eq!(e.code, ErrorCode::ProjectUpdateViewPlanStale);
    assert_eq!(e.message, "CAS failed");
}

#[test]
fn the_approved_dto_has_no_conflicts() {
    let row = UpdatePlanRow {
        row_id: 1,
        public_id: "p-1".to_owned(),
        project_row_id: 1,
        state: "draft".to_owned(),
        content_digest: "sha256:d".to_owned(),
        session_count: 1,
        item_count: 1,
        source_frame_count: 1,
        source_byte_count: 1,
        remaining_session_count: 0,
        base_snapshot_row_id: None,
        target_membership_revision_row_id: 2,
        next_session_row_id: None,
        actor_row_id: 1,
        created_at: "t".to_owned(),
    };
    let refs = PlanRefs {
        project_id: "prj".to_owned(),
        base_snapshot_id: None,
        target_membership_revision_id: "rev".to_owned(),
        next_session_id: None,
        created_by: "a".to_owned(),
    };
    let dto = approved_plan_dto(row, refs);
    assert_eq!(dto.state, "approved");
    assert_eq!(dto.conflict_count, 0);
    assert_eq!(dto.plan_digest, "sha256:d");
}

/// A cancel moves a running plan out of `applying` while the loop is still
/// working; the loop's own transition loses the race and the plan is not stuck.
#[test]
fn a_plan_another_writer_already_moved_is_not_stuck() {
    match classify_failure_to_leave(PlanStateRead::State("stopped".to_owned())) {
        LeftApplying::AlreadyLeft { observed } => assert_eq!(observed.as_deref(), Some("stopped")),
        _ => panic!("a plan already out of applying is not stuck"),
    }
}

#[test]
fn a_plan_row_that_is_gone_is_not_stuck() {
    assert!(matches!(
        classify_failure_to_leave(PlanStateRead::Gone),
        LeftApplying::AlreadyLeft { observed: None }
    ));
}

#[test]
fn a_plan_still_applying_or_unreadable_is_stuck() {
    assert!(matches!(
        classify_failure_to_leave(PlanStateRead::State("applying".to_owned())),
        LeftApplying::Stuck
    ));
    assert!(matches!(classify_failure_to_leave(PlanStateRead::Unreadable), LeftApplying::Stuck));
}

#[test]
fn install_failures_stop_and_finalize_failures_fail() {
    assert_eq!(leave_target(ApplyFailure::Install), "stopped");
    assert_eq!(leave_target(ApplyFailure::Finalize), "failed");
}

#[test]
fn an_unknown_plan_is_refused_by_the_lifecycle_requests() {
    let e = astro_plan::update_view::lifecycle::missing_plan("p-404");
    assert_eq!(e.code, ErrorCode::ProjectUpdateViewPlanNotFound);
    assert_eq!(e.message, "plan p-404 not found");
}
