//! State gates of the Update View lifecycle:
//! `draft` →approve→ `approved` →apply→ `applying` →cancel→ `stopped`
//! →apply→ `applying`; an apply run ends `applied`, or `stopped`/`failed`
//! when it has to leave `applying` on an error path.
use vstd::prelude::*;
use crate::errors::{ContractError, ErrorCode, ErrorSeverity};
use crate::text::{push_str, str_eq};
use crate::update_view::query::{contract_state, contract_state_of, presents, PlanRefs, UpdatePlanRow, UpdateViewPlan};

verus! {

pub struct ApproveUpdateViewRequest<'a> {
    pub plan_id: &'a str,
    pub approval_digest: &'a str,
    pub actor_id: &'a str,
    pub command_id: &'a str,
}

pub struct ApproveUpdateViewResponse {
    pub plan: UpdateViewPlan,
}

pub struct ApplyUpdateViewRequest<'a> {
    pub plan_id: &'a str,
    pub approval_digest: &'a str,
    pub actor_id: &'a str,
    pub command_id: &'a str,
}

pub struct ApplyUpdateViewResponse {
    pub operation_id: String,
    pub plan_id: String,
    pub state: String,
}

pub struct CancelUpdateViewRequest<'a> {
    pub plan_id: &'a str,
    pub actor_id: &'a str,
    pub command_id: &'a str,
}

// ── Which requests a plan state admits ───────────────────────────────────────

/// Approval needs an open (`draft`) plan with no path conflicts whose digest
/// is the one the caller reviewed.
pub open spec fn approve_allowed(state: Seq<char>, conflicts: i64, digest: Seq<char>, content: Seq<char>) -> bool {
    state == "draft"@ && conflicts <= 0 && digest == content
}

/// Applying needs an `approved` or `stopped` plan whose digest matches.
pub open spec fn apply_allowed(state: Seq<char>, digest: Seq<char>, content: Seq<char>) -> bool {
    (state == "approved"@ || state == "stopped"@) && digest == content
}

/// Only an `applying` plan can be cancelled (it moves to `stopped`).
pub open spec fn cancel_allowed(state: Seq<char>) -> bool {
    state == "applying"@
}

proof fn lemma_lifecycle_states_distinct()
    ensures
        "draft"@ != "approved"@,
        "draft"@ != "stopped"@,
        "draft"@ != "applying"@,
        "approved"@ != "stopped"@,
        "approved"@ != "applying"@,
        "stopped"@ != "applying"@,
{
    reveal_strlit("draft");
    reveal_strlit("approved");
    reveal_strlit("stopped");
    reveal_strlit("applying");
    assert("draft"@.len() == 5);
    assert("approved"@.len() == 8);
    assert("stopped"@.len() == 7);
    assert("applying"@.len() == 8);
    assert("approved"@[3] != "applying"@[3]);
}

/// At most one lifecycle request is admitted in any state, and a digest the
/// caller did not review admits neither approval nor apply.
pub proof fn lemma_lifecycle_gates_exclusive(state: Seq<char>, conflicts: i64, digest: Seq<char>, content: Seq<char>)
    ensures
        !(approve_allowed(state, conflicts, digest, content) && apply_allowed(state, digest, content)),
        !(approve_allowed(state, conflicts, digest, content) && cancel_allowed(state)),
        !(apply_allowed(state, digest, content) && cancel_allowed(state)),
        digest != content ==> !approve_allowed(state, conflicts, digest, content) && !apply_allowed(
            state,
            digest,
            content,
        ),
{
    lemma_lifecycle_states_distinct();
}

/// Cancel is admitted in exactly one state, `applying`: every other state,
/// `applied` and `stopped` among them, is refused.
pub proof fn lemma_cancel_only_while_applying(state: Seq<char>)
    ensures
        cancel_allowed(state) <==> state == "applying"@,
        !cancel_allowed("applied"@),
        !cancel_allowed("stopped"@),
        !cancel_allowed("approved"@),
        !cancel_allowed("draft"@),
{
    lemma_lifecycle_states_distinct();
    reveal_strlit("applied");
    reveal_strlit("applying");
    assert("applied"@.len() == 7);
    assert("applying"@.len() == 8);
}

/// Approval is admitted only for an open (`draft`) plan with no conflicts and
/// the reviewed digest; apply only for an `approved` or `stopped` plan with the
/// reviewed digest.
pub proof fn lemma_approve_and_apply_states(state: Seq<char>, conflicts: i64, digest: Seq<char>, content: Seq<char>)
    ensures
        approve_allowed(state, conflicts, digest, content) <==> (state == "draft"@ && conflicts <= 0
            && digest == content),
        apply_allowed(state, digest, content) <==> ((state == "approved"@ || state == "stopped"@)
            && digest == content),
{
}

/// The lifecycle a reviewed, conflict-free plan goes through: approve the
/// open plan, apply it, cancel the running apply, and apply the stopped plan
/// again; and none of these steps is admitted from the wrong state.
pub proof fn lemma_lifecycle_round_trip(digest: Seq<char>)
    ensures
        approve_allowed("draft"@, 0, digest, digest),
        apply_allowed("approved"@, digest, digest),
        cancel_allowed("applying"@),
        apply_allowed("stopped"@, digest, digest),
        !approve_allowed("approved"@, 0, digest, digest),
        !apply_allowed("draft"@, digest, digest),
        !apply_allowed("applying"@, digest, digest),
        !cancel_allowed("stopped"@),
        !cancel_allowed("draft"@),
{
    lemma_lifecycle_states_distinct();
}

pub open spec fn not_open_text(plan_id: Seq<char>, state: Seq<char>) -> Seq<char> {
    "plan "@ + plan_id + " is in state '"@ + contract_state_of(state) + "', not open"@
}

pub open spec fn conflicts_text(plan_id: Seq<char>, conflicts: i64) -> Seq<char> {
    "plan "@ + plan_id + " has "@ + crate::text::signed_decimal(conflicts as int)
        + " path conflicts; resolve before approval"@
}

pub open spec fn approval_mismatch_text(plan_id: Seq<char>) -> Seq<char> {
    "plan "@ + plan_id + " approval digest mismatch"@
}

pub open spec fn not_approved_text(plan_id: Seq<char>, state: Seq<char>) -> Seq<char> {
    "plan "@ + plan_id + " state '"@ + state + "' is not approved or stopped"@
}

pub open spec fn apply_mismatch_text(plan_id: Seq<char>) -> Seq<char> {
    "plan "@ + plan_id + " apply digest mismatch"@
}

pub open spec fn not_cancellable_text(plan_id: Seq<char>, state: Seq<char>) -> Seq<char> {
    "plan "@ + plan_id + " is in state '"@ + state + "'; only applying plans can be cancelled"@
}

pub open spec fn not_applying_text(plan_id: Seq<char>) -> Seq<char> {
    "plan "@ + plan_id + " is not in applying state"@
}

pub open spec fn missing_plan_text(plan_id: Seq<char>) -> Seq<char> {
    "plan "@ + plan_id + " not found"@
}

/// The refusal of approve, apply and cancel for a plan id that names no plan.
pub fn missing_plan(plan_id: &str) -> (e: ContractError)
    ensures
        e.code == ErrorCode::ProjectUpdateViewPlanNotFound,
        e.message@ == missing_plan_text(plan_id@),
        blocking(e),
{
    let mut m = String::new();
    push_str(&mut m, "plan ");
    push_str(&mut m, plan_id);
    push_str(&mut m, " not found");
    proof {
        assert(m@ =~= missing_plan_text(plan_id@));
    }
    ContractError::blocking(ErrorCode::ProjectUpdateViewPlanNotFound, m)
}

pub open spec fn blocking(e: ContractError) -> bool {
    e.severity == ErrorSeverity::Blocking && !e.retryable
}

/// Gate of `project.update_view.approve`, checked in this order: the plan
/// must be open, conflict-free, and carry the reviewed digest.
pub fn approve_gate(
    plan_id: &str,
    state: &str,
    conflicts: i64,
    approval_digest: &str,
    content_digest: &str,
) -> (r: Result<(), ContractError>)
    ensures
        r is Ok <==> approve_allowed(state@, conflicts, approval_digest@, content_digest@),
        r is Ok <==> (state@ == "draft"@ && conflicts <= 0 && approval_digest@ == content_digest@),
        state@ != "draft"@ ==> (r matches Err(e) && e.code == ErrorCode::ProjectUpdateViewPlanNotOpen
            && e.message@ == not_open_text(plan_id@, state@)),
        state@ == "draft"@ && conflicts > 0 ==> (r matches Err(e) && e.code
            == ErrorCode::ProjectUpdateViewPathConflict && e.message@ == conflicts_text(plan_id@, conflicts)),
        state@ == "draft"@ && conflicts <= 0 && approval_digest@ != content_digest@ ==> (r matches Err(
            e,
        ) && e.code == ErrorCode::ProjectUpdateViewPlanDigestMismatch && e.message@
            == approval_mismatch_text(plan_id@)),
        r matches Err(e) ==> blocking(e),
{
    if !str_eq(state, "draft") {
        let mut m = String::new();
        push_str(&mut m, "plan ");
        push_str(&mut m, plan_id);
        push_str(&mut m, " is in state '");
        push_str(&mut m, contract_state(state));
        push_str(&mut m, "', not open");
        proof {
            assert(m@ =~= not_open_text(plan_id@, state@));
        }
        return Err(ContractError::blocking(ErrorCode::ProjectUpdateViewPlanNotOpen, m));
    }
    if conflicts > 0 {
        let mut m = String::new();
        push_str(&mut m, "plan ");
        push_str(&mut m, plan_id);
        push_str(&mut m, " has ");
        crate::text::push_signed_decimal(&mut m, conflicts);
        push_str(&mut m, " path conflicts; resolve before approval");
        proof {
            assert(m@ =~= conflicts_text(plan_id@, conflicts));
        }
        return Err(ContractError::blocking(ErrorCode::ProjectUpdateViewPathConflict, m));
    }
    if !str_eq(approval_digest, content_digest) {
        let mut m = String::new();
        push_str(&mut m, "plan ");
        push_str(&mut m, plan_id);
        push_str(&mut m, " approval digest mismatch");
        proof {
            assert(m@ =~= approval_mismatch_text(plan_id@));
        }
        return Err(ContractError::blocking(ErrorCode::ProjectUpdateViewPlanDigestMismatch, m));
    }
    Ok(())
}

/// The DTO `project.update_view.approve` returns once the plan moved to
/// `approved`: no conflicts remain.
pub fn approved_plan_dto(row: UpdatePlanRow, refs: PlanRefs) -> (dto: UpdateViewPlan)
    ensures
        presents(dto, row, refs, "approved"@, 0),
{
    let state = crate::text::from_str("approved");
    UpdateViewPlan {
        plan_id: row.public_id,
        state,
        project_id: refs.project_id,
        base_snapshot_id: refs.base_snapshot_id,
        target_membership_revision_id: refs.target_membership_revision_id,
        plan_digest: row.content_digest,
        session_count: row.session_count,
        item_count: row.item_count,
        source_frame_count: row.source_frame_count,
        source_byte_count: row.source_byte_count,
        conflict_count: 0,
        remaining_session_count: row.remaining_session_count,
        next_session_id: refs.next_session_id,
        created_at: row.created_at,
        created_by: refs.created_by,
    }
}

/// Gate of `project.update_view.apply`. On success, the state the plan moves
/// out of (`approved` or `stopped`) on its way to `applying`.
pub fn apply_gate(plan_id: &str, state: &str, approval_digest: &str, content_digest: &str) -> (r: Result<
    &'static str,
    ContractError,
>)
    ensures
        r is Ok <==> apply_allowed(state@, approval_digest@, content_digest@),
        r is Ok <==> ((state@ == "approved"@ || state@ == "stopped"@) && approval_digest@
            == content_digest@),
        r matches Ok(from) ==> from@ == state@,
        !(state@ == "approved"@ || state@ == "stopped"@) ==> (r matches Err(e) && e.code
            == ErrorCode::ProjectUpdateViewPlanNotApproved && e.message@ == not_approved_text(plan_id@, state@)),
        (state@ == "approved"@ || state@ == "stopped"@) && approval_digest@ != content_digest@ ==> (
        r matches Err(e) && e.code == ErrorCode::ProjectUpdateViewPlanDigestMismatch && e.message@
            == apply_mismatch_text(plan_id@)),
        r matches Err(e) ==> blocking(e),
{
    let approved = str_eq(state, "approved");
    let stopped = str_eq(state, "stopped");
    if !approved && !stopped {
        let mut m = String::new();
        push_str(&mut m, "plan ");
        push_str(&mut m, plan_id);
        push_str(&mut m, " state '");
        push_str(&mut m, state);
        push_str(&mut m, "' is not approved or stopped");
        proof {
            assert(m@ =~= not_approved_text(plan_id@, state@));
        }
        return Err(ContractError::blocking(ErrorCode::ProjectUpdateViewPlanNotApproved, m));
    }
    if !str_eq(approval_digest, content_digest) {
        let mut m = String::new();
        push_str(&mut m, "plan ");
        push_str(&mut m, plan_id);
        push_str(&mut m, " apply digest mismatch");
        proof {
            assert(m@ =~= apply_mismatch_text(plan_id@));
        }
        return Err(ContractError::blocking(ErrorCode::ProjectUpdateViewPlanDigestMismatch, m));
    }
    if stopped {
        Ok("stopped")
    } else {
        Ok("approved")
    }
}

/// The response of an accepted apply: the operation is the command, and the
/// plan is now `applying`.
pub fn apply_response(command_id: &str, plan_public_id: String) -> (r: ApplyUpdateViewResponse)
    ensures
        r.operation_id@ == command_id@,
        r.plan_id == plan_public_id,
        r.state@ == "applying"@,
{
    ApplyUpdateViewResponse {
        operation_id: crate::text::from_str(command_id),
        plan_id: plan_public_id,
        state: crate::text::from_str("applying"),
    }
}

/// Gate of `project.update_view.cancel`.
pub fn cancel_gate(plan_id: &str, state: &str) -> (r: Result<(), ContractError>)
    ensures
        r is Ok <==> cancel_allowed(state@),
        r is Ok <==> state@ == "applying"@,
        r matches Err(e) ==> e.code == ErrorCode::ProjectUpdateViewOperationNotCancellable
            && e.message@ == not_cancellable_text(plan_id@, state@) && blocking(e),
{
    if !str_eq(state, "applying") {
        let mut m = String::new();
        push_str(&mut m, "plan ");
        push_str(&mut m, plan_id);
        push_str(&mut m, " is in state '");
        push_str(&mut m, state);
        push_str(&mut m, "'; only applying plans can be cancelled");
        proof {
            assert(m@ =~= not_cancellable_text(plan_id@, state@));
        }
        return Err(ContractError::blocking(ErrorCode::ProjectUpdateViewOperationNotCancellable, m));
    }
    Ok(())
}

/// Gate of the install loop: it only drives an `applying` plan.
pub fn apply_loop_gate(plan_id: &str, state: &str) -> (r: Result<(), ContractError>)
    ensures
        r is Ok <==> state@ == "applying"@,
        r matches Err(e) ==> e.code == ErrorCode::ProjectUpdateViewPlanNotApproved && e.message@
            == not_applying_text(plan_id@) && blocking(e),
{
    if !str_eq(state, "applying") {
        let mut m = String::new();
        push_str(&mut m, "plan ");
        push_str(&mut m, plan_id);
        push_str(&mut m, " is not in applying state");
        proof {
            assert(m@ =~= not_applying_text(plan_id@));
        }
        return Err(ContractError::blocking(ErrorCode::ProjectUpdateViewPlanNotApproved, m));
    }
    Ok(())
}

/// A state transition that matched no row (another writer moved the plan)
/// surfaces as a stale plan carrying the store's message.
pub fn stale_plan(message: String) -> (e: ContractError)
    ensures
        e.code == ErrorCode::ProjectUpdateViewPlanStale,
        e.message == message,
        blocking(e),
{
    ContractError::blocking(ErrorCode::ProjectUpdateViewPlanStale, message)
}

// ── Leaving `applying` on an error path ──────────────────────────────────────

/// What a re-read of a plan's state showed after a failed transition.
pub enum PlanStateRead {
    /// The state could not be read (no connection, or the read failed).
    Unreadable,
    /// The row is gone.
    Gone,
    /// The row's current state.
    State(String),
}

/// Where a plan ended up after an error path tried to move it out of
/// `applying`.
pub enum LeftApplying {
    /// The transition committed.
    Transitioned,
    /// Another writer moved the plan out of `applying` first; `observed` is
    /// the state now on the row, or `None` when the row is gone.
    AlreadyLeft { observed: Option<String> },
    /// The row is still `applying` (or unreadable) and nothing remains that
    /// will move it.
    Stuck,
}

/// Classify a failed transition out of `applying` by the state re-read
/// afterwards: a lost race against a cancel is not a stuck plan.
pub fn classify_failure_to_leave(read: PlanStateRead) -> (r: LeftApplying)
    ensures
        read is Unreadable ==> (r is Stuck),
        read is Gone ==> (r == (LeftApplying::AlreadyLeft { observed: None })),
        read matches PlanStateRead::State(s) ==> (if s@ == "applying"@ {
            r is Stuck
        } else {
            r == (LeftApplying::AlreadyLeft { observed: Some(s) })
        }),
{
    match read {
        PlanStateRead::Unreadable => LeftApplying::Stuck,
        PlanStateRead::Gone => LeftApplying::AlreadyLeft { observed: None },
        PlanStateRead::State(s) => {
            if str_eq(s.as_str(), "applying") {
                LeftApplying::Stuck
            } else {
                LeftApplying::AlreadyLeft { observed: Some(s) }
            }
        },
    }
}

/// Why an apply run has to leave `applying`.
pub enum ApplyFailure {
    /// An item failed to install: the run can be resumed.
    Install,
    /// The snapshot could not be finalized.
    Finalize,
}

/// The state an apply run leaves `applying` for: `stopped` after an install
/// failure (resumable by a new apply), `failed` after a finalize failure.
pub fn leave_target(f: ApplyFailure) -> (s: &'static str)
    ensures
        f is Install ==> (s@ == "stopped"@),
        f is Finalize ==> (s@ == "failed"@),
{
    match f {
        ApplyFailure::Install => "stopped",
        ApplyFailure::Finalize => "failed",
    }
}

} // verus!
