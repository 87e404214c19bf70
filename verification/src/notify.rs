//! OS-notification policy for long-running task completions.
//!
//! Three completions notify: an approved filesystem plan finishing its apply
//! run, a tool workflow run being attributed as complete, and an
//! ingest-resolution drain pass that resolved at least one queued target.
//! Showing the notification and reading the window focus are the caller's
//! work; this module decides whether to notify and what to say.
use vstd::prelude::*;
use crate::text::{decimal, from_str, push_decimal, push_str, str_eq};

verus! {

/// Topic of the terminal plan-apply event.
pub const TOPIC_PLAN_APPLYING_COMPLETED: &'static str = "plan.applying.completed";
/// Topic of the workflow-run attribution event.
pub const TOPIC_WORKFLOW_RUN_COMPLETED: &'static str = "workflow.run_completed";

/// A fully typed `plan.applying.completed` payload.
pub struct PlanApplyingCompleted {
    pub plan_id: String,
    pub run_id: String,
    pub terminal_state: String,
    pub items_applied: u64,
    pub items_failed: u64,
    pub items_skipped: u64,
    pub items_cancelled: u64,
    pub at: String,
}

/// A fully typed `workflow.run_completed` payload.
pub struct WorkflowRunCompleted {
    pub project_id: String,
    pub tool_id: String,
    pub tool_launch_id: String,
    pub completed_at: String,
    pub artifact_ids: Vec<String>,
}

/// Whether a completed task should raise an OS notification.
///
/// `focused` is `None` when window focus could not be read; an unknown focus
/// notifies, because losing the notification is the worse failure of the two.
pub fn should_notify(focused: Option<bool>, did_meaningful_work: bool) -> (r: bool)
    ensures
        r == (did_meaningful_work && focused != Some(true)),
{
    did_meaningful_work && !matches!(focused, Some(true))
}

/// Body text of a plan-apply completion.
pub open spec fn plan_apply_text(e: PlanApplyingCompleted) -> Seq<char> {
    e.terminal_state@ + ": "@ + decimal(e.items_applied as nat) + " applied, "@
        + decimal(e.items_failed as nat) + " failed, "@ + decimal(e.items_skipped as nat)
        + " skipped."@
}

/// Body text of a workflow-run completion.
pub open spec fn workflow_run_text(e: WorkflowRunCompleted) -> Seq<char> {
    e.tool_id@ + " run recorded: "@ + decimal(e.artifact_ids@.len()) + " new artifact(s) attributed."@
}

/// Body text of a drain pass that resolved `resolved` queued targets.
pub open spec fn drain_text(resolved: u64) -> Seq<char> {
    "Resolved "@ + decimal(resolved as nat) + " queued target(s)."@
}

/// Summarise a `plan.applying.completed` payload, or `None` when the payload
/// did not deserialise into a full typed completion (`event` is `None`).
///
/// The topic carries one degraded publisher whose payload holds only the plan
/// id and a cancelled count; such a payload never reaches this function as a
/// typed event, so it is dropped instead of reporting zero counts.
pub fn plan_apply_body(event: Option<&PlanApplyingCompleted>) -> (r: Option<String>)
    ensures
        r is Some <==> event is Some,
        r matches Some(s) ==> s@ == plan_apply_text(*event->0),
{
    match event {
        None => None,
        Some(e) => {
            let mut s = String::new();
            push_str(&mut s, e.terminal_state.as_str());
            push_str(&mut s, ": ");
            push_decimal(&mut s, e.items_applied);
            push_str(&mut s, " applied, ");
            push_decimal(&mut s, e.items_failed);
            push_str(&mut s, " failed, ");
            push_decimal(&mut s, e.items_skipped);
            push_str(&mut s, " skipped.");
            proof {
                assert(s@ =~= plan_apply_text(*e));
            }
            Some(s)
        },
    }
}

/// Summarise a `workflow.run_completed` payload, or `None` when it did not
/// deserialise.
pub fn workflow_run_body(event: Option<&WorkflowRunCompleted>) -> (r: Option<String>)
    ensures
        r is Some <==> event is Some,
        r matches Some(s) ==> s@ == workflow_run_text(*event->0),
{
    match event {
        None => None,
        Some(e) => {
            let mut s = String::new();
            push_str(&mut s, e.tool_id.as_str());
            push_str(&mut s, " run recorded: ");
            push_decimal(&mut s, e.artifact_ids.len() as u64);
            push_str(&mut s, " new artifact(s) attributed.");
            proof {
                assert(s@ =~= workflow_run_text(*e));
            }
            Some(s)
        },
    }
}

/// The notification (title, body) a bus envelope earns, or `None` for every
/// topic and payload that must stay silent. `plan_event` and `run_event` are
/// the envelope's payload read as each typed completion, `None` where it does
/// not deserialise as that type.
pub fn notification_for(
    topic: &str,
    plan_event: Option<&PlanApplyingCompleted>,
    run_event: Option<&WorkflowRunCompleted>,
) -> (r: Option<(String, String)>)
    ensures
        topic@ == TOPIC_PLAN_APPLYING_COMPLETED@ ==> (r is Some <==> plan_event is Some) && (
        r matches Some(p) ==> p.0@ == "Plan apply finished"@ && p.1@ == plan_apply_text(
            *plan_event->0,
        )),
        topic@ == TOPIC_WORKFLOW_RUN_COMPLETED@ ==> (r is Some <==> run_event is Some) && (
        r matches Some(p) ==> p.0@ == "Workflow run finished"@ && p.1@ == workflow_run_text(
            *run_event->0,
        )),
        topic@ != TOPIC_PLAN_APPLYING_COMPLETED@ && topic@ != TOPIC_WORKFLOW_RUN_COMPLETED@
            ==> r is None,
{
    proof {
        reveal_strlit("plan.applying.completed");
        reveal_strlit("workflow.run_completed");
        assert(TOPIC_PLAN_APPLYING_COMPLETED@.len() != TOPIC_WORKFLOW_RUN_COMPLETED@.len());
    }
    if str_eq(topic, TOPIC_PLAN_APPLYING_COMPLETED) {
        match plan_apply_body(plan_event) {
            Some(body) => Some((from_str("Plan apply finished"), body)),
            None => None,
        }
    } else if str_eq(topic, TOPIC_WORKFLOW_RUN_COMPLETED) {
        match workflow_run_body(run_event) {
            Some(body) => Some((from_str("Workflow run finished"), body)),
            None => None,
        }
    } else {
        None
    }
}

/// The notification for a finished ingest-resolution drain pass. The periodic
/// drain is usually a no-op, so only a pass that resolved at least one queued
/// target notifies, and only while the main window is not focused.
pub fn ingest_drain_notification(focused: Option<bool>, resolved: u64) -> (r: Option<(String, String)>)
    ensures
        r is Some <==> should_notify_spec(focused, resolved > 0),
        r matches Some(p) ==> p.0@ == "Target resolution finished"@ && p.1@ == drain_text(resolved),
{
    if !should_notify(focused, resolved > 0) {
        return None;
    }
    let mut body = String::new();
    push_str(&mut body, "Resolved ");
    push_decimal(&mut body, resolved);
    push_str(&mut body, " queued target(s).");
    proof {
        assert(body@ =~= drain_text(resolved));
    }
    Some((from_str("Target resolution finished"), body))
}

/// What the completion notifier receives from the bus.
pub enum BusReceive<'a> {
    /// An envelope on `topic`, its payload read as each typed completion
    /// (`None` where it does not deserialise as that type).
    Envelope {
        topic: &'a str,
        plan_event: Option<&'a PlanApplyingCompleted>,
        run_event: Option<&'a WorkflowRunCompleted>,
    },
    /// The receiver fell behind and missed envelopes.
    Lagged,
    /// The bus closed.
    Closed,
}

/// What the completion notifier does next.
pub enum NotifierStep {
    /// Show a notification (title, body), then keep listening.
    Notify(String, String),
    /// Keep listening without notifying.
    Continue,
    /// Stop the notifier.
    Stop,
}

/// The completion notifier's reaction to one receive: an envelope notifies
/// exactly as `notification_for` says, a lag drops the missed completions
/// rather than replaying them, and a closed bus stops the notifier.
pub fn notifier_step(received: BusReceive) -> (step: NotifierStep)
    ensures
        received matches BusReceive::Envelope { topic, plan_event, run_event } ==> ({
            let expected = notification_text(topic@, plan_event, run_event);
            &&& expected is None ==> (step is Continue)
            &&& expected matches Some(p) ==> (step matches NotifierStep::Notify(title, body) && title@
                == p.0 && body@ == p.1)
        }),
        received is Lagged ==> (step is Continue),
        received is Closed ==> (step is Stop),
{
    match received {
        BusReceive::Envelope { topic, plan_event, run_event } => {
            proof {
                reveal_strlit("plan.applying.completed");
                reveal_strlit("workflow.run_completed");
                assert(TOPIC_PLAN_APPLYING_COMPLETED@.len() != TOPIC_WORKFLOW_RUN_COMPLETED@.len());
            }
            match notification_for(topic, plan_event, run_event) {
                Some((title, body)) => NotifierStep::Notify(title, body),
                None => NotifierStep::Continue,
            }
        },
        BusReceive::Lagged => NotifierStep::Continue,
        BusReceive::Closed => NotifierStep::Stop,
    }
}

/// The (title, body) `notification_for` yields for a topic and its typed
/// payloads.
pub open spec fn notification_text(
    topic: Seq<char>,
    plan_event: Option<&PlanApplyingCompleted>,
    run_event: Option<&WorkflowRunCompleted>,
) -> Option<(Seq<char>, Seq<char>)> {
    if topic == TOPIC_PLAN_APPLYING_COMPLETED@ {
        match plan_event {
            Some(e) => Some(("Plan apply finished"@, plan_apply_text(*e))),
            None => None,
        }
    } else if topic == TOPIC_WORKFLOW_RUN_COMPLETED@ {
        match run_event {
            Some(e) => Some(("Workflow run finished"@, workflow_run_text(*e))),
            None => None,
        }
    } else {
        None
    }
}

/// The value `should_notify` returns.
pub open spec fn should_notify_spec(focused: Option<bool>, did_meaningful_work: bool) -> bool {
    did_meaningful_work && focused != Some(true)
}

} // verus!
