use astro_plan::notify::{
    ingest_drain_notification, notification_for, notifier_step, plan_apply_body, should_notify,
    BusReceive, NotifierStep,
    workflow_run_body, PlanApplyingCompleted, WorkflowRunCompleted,
    TOPIC_PLAN_APPLYING_COMPLETED, TOPIC_WORKFLOW_RUN_COMPLETED,
};

#[test]
fn focused_window_suppresses_the_notification() {
    assert!(!should_notify(Some(true), true));
}

#[test]
fn unfocused_window_notifies() {
    assert!(should_notify(Some(false), true));
}

#[test]
fn unknown_focus_notifies() {
    assert!(should_notify(None, true));
}

#[test]
fn an_empty_drain_pass_never_notifies() {
    assert!(!should_notify(Some(false), false));
    assert!(!should_notify(None, false));
}

/// A full typed completion, as the terminal apply handlers publish it.
fn plan_completion() -> PlanApplyingCompleted {
    PlanApplyingCompleted {
        plan_id: "p-1".to_owned(),
        run_id: "r-1".to_owned(),
        terminal_state: "partially_applied".to_owned(),
        items_applied: 3,
        items_failed: 1,
        items_skipped: 2,
        items_cancelled: 0,
        at: "2026-08-20T00:00:00Z".to_owned(),
    }
}

fn workflow_run(artifacts: &[&str]) -> WorkflowRunCompleted {
    WorkflowRunCompleted {
        project_id: "prj-1".to_owned(),
        tool_id: "siril".to_owned(),
        tool_launch_id: "tl-1".to_owned(),
        completed_at: "2026-08-20T00:00:00Z".to_owned(),
        artifact_ids: artifacts.iter().map(|a| (*a).to_owned()).collect(),
    }
}

#[test]
fn plan_apply_body_summarises_counts() {
    assert_eq!(
        plan_apply_body(Some(&plan_completion())).as_deref(),
        Some("partially_applied: 3 applied, 1 failed, 2 skipped.")
    );
}

/// The degraded bulk-cancel payload (only a plan id and a cancelled count)
/// does not deserialise as a typed completion, so it reaches the body builder
/// as no event at all.
#[test]
fn the_degraded_bulk_cancel_payload_raises_no_notification() {
    assert_eq!(plan_apply_body(None), None);
}

#[test]
fn workflow_run_body_names_the_tool_and_counts_artifacts() {
    assert_eq!(
        workflow_run_body(Some(&workflow_run(&["a-1", "a-2"]))).as_deref(),
        Some("siril run recorded: 2 new artifact(s) attributed.")
    );
}

#[test]
fn workflow_run_body_rejects_an_untyped_payload() {
    assert_eq!(workflow_run_body(None), None);
}

#[test]
fn the_plan_apply_topic_dispatches_to_the_plan_apply_notification() {
    let completion = plan_completion();
    assert_eq!(
        notification_for(TOPIC_PLAN_APPLYING_COMPLETED, Some(&completion), None),
        Some((
            "Plan apply finished".to_owned(),
            "partially_applied: 3 applied, 1 failed, 2 skipped.".to_owned()
        ))
    );
}

#[test]
fn the_workflow_run_topic_dispatches_to_the_workflow_run_notification() {
    let run = workflow_run(&["a-1"]);
    assert_eq!(
        notification_for(TOPIC_WORKFLOW_RUN_COMPLETED, None, Some(&run)),
        Some((
            "Workflow run finished".to_owned(),
            "siril run recorded: 1 new artifact(s) attributed.".to_owned()
        ))
    );
}

#[test]
fn an_unsubscribed_topic_raises_no_notification() {
    let completion = plan_completion();
    let run = workflow_run(&["a-1"]);
    assert_eq!(notification_for("plan.applying.started", Some(&completion), Some(&run)), None);
    assert_eq!(notification_for("manifest.write.success", Some(&completion), Some(&run)), None);
}

#[test]
fn a_subscribed_topic_with_an_undeserialisable_payload_raises_no_notification() {
    assert_eq!(notification_for(TOPIC_PLAN_APPLYING_COMPLETED, None, None), None);
    assert_eq!(notification_for(TOPIC_WORKFLOW_RUN_COMPLETED, None, None), None);
}

#[test]
fn a_drain_pass_that_resolved_targets_notifies_with_the_count() {
    assert_eq!(
        ingest_drain_notification(Some(false), 7),
        Some(("Target resolution finished".to_owned(), "Resolved 7 queued target(s).".to_owned()))
    );
    assert_eq!(ingest_drain_notification(None, 0), None);
    assert_eq!(ingest_drain_notification(Some(true), 3), None);
}

#[test]
fn counts_render_in_decimal_with_zero_and_large_values() {
    let mut e = plan_completion();
    e.items_applied = 0;
    e.items_failed = 10;
    e.items_skipped = u64::MAX;
    assert_eq!(
        plan_apply_body(Some(&e)).as_deref(),
        Some("partially_applied: 0 applied, 10 failed, 18446744073709551615 skipped.")
    );
}

#[test]
fn the_notifier_notifies_on_a_completion_envelope() {
    let completion = plan_completion();
    let step = notifier_step(BusReceive::Envelope {
        topic: TOPIC_PLAN_APPLYING_COMPLETED,
        plan_event: Some(&completion),
        run_event: None,
    });
    match step {
        NotifierStep::Notify(title, body) => {
            assert_eq!(title, "Plan apply finished");
            assert_eq!(body, "partially_applied: 3 applied, 1 failed, 2 skipped.");
        }
        _ => panic!("a typed completion notifies"),
    }
}

#[test]
fn the_notifier_drops_lagged_completions_and_stops_on_close() {
    assert!(matches!(notifier_step(BusReceive::Lagged), NotifierStep::Continue));
    assert!(matches!(notifier_step(BusReceive::Closed), NotifierStep::Stop));
    let silent = notifier_step(BusReceive::Envelope {
        topic: "plan.applying.started",
        plan_event: None,
        run_event: None,
    });
    assert!(matches!(silent, NotifierStep::Continue));
}
