//! Returning a filesystem plan to `draft` for further editing.
//!
//! Only `approved` and `ready_for_review` have an edge back to `draft`: once a
//! plan is applying, its filesystem actions are in flight or done and the
//! reviewed intent can no longer be withdrawn. A draft is already where a
//! reopen leads, so reopening it changes nothing.
use vstd::prelude::*;
use crate::errors::{ContractError, ErrorCode, ErrorSeverity};
use crate::text::{push_str, str_eq};

verus! {

/// Characters that `Debug` prints unescaped inside a quoted string.
pub open spec fn debug_plain(c: char) -> bool {
    (c as u32) >= 0x20 && (c as u32) < 0x7f && c != '"' && c != '\\'
}

/// The text `Debug` renders for a string slice.
pub uninterp spec fn debug_text(s: Seq<char>) -> Seq<char>;

/// `format!("{:?}", s)` for a string slice: `s` quoted, with its special
/// characters escaped. The contract names the result; for text made of
/// printable ASCII other than quotes and backslashes it is exactly `s`
/// between double quotes, and the escapes of other characters are not
/// restated.
#[verifier::external_body]
fn debug_quoted(s: &str) -> (r: String)
    ensures
        r@ == debug_text(s@),
        (forall|i: int| 0 <= i < s@.len() ==> debug_plain(#[trigger] s@[i])) ==> r@ == seq!['"'] + s@
            + seq!['"'],
{
    format!("{:?}", s)
}

/// What a reopen request does to a plan in a given state.
pub enum ReopenDecision {
    /// Already a draft: nothing to reverse.
    AlreadyDraft,
    /// Move the plan back to `draft`, clearing its approval.
    Reopen,
    /// The state has no edge back to `draft`.
    Refuse(ContractError),
}

pub open spec fn reopen_refusal_text(quoted_state: Seq<char>) -> Seq<char> {
    "cannot reopen a plan in state "@ + quoted_state
        + "; only an approved or ready_for_review plan can return to draft"@
}

/// The states with an edge back to `draft`.
pub open spec fn can_return_to_draft(state: Seq<char>) -> bool {
    state == "approved"@ || state == "ready_for_review"@
}

proof fn lemma_reopen_states_distinct()
    ensures
        "draft"@ != "approved"@,
        "draft"@ != "ready_for_review"@,
        "approved"@ != "ready_for_review"@,
        "applied"@ != "approved"@,
        "applied"@ != "ready_for_review"@,
{
    reveal_strlit("draft");
    reveal_strlit("approved");
    reveal_strlit("ready_for_review");
    reveal_strlit("applied");
    assert("draft"@.len() == 5);
    assert("approved"@.len() == 8);
    assert("ready_for_review"@.len() == 16);
    assert("applied"@.len() == 7);
}

/// Only an `approved` or a `ready_for_review` plan goes back to `draft`;
/// every other state, `applied` among them, has no such edge.
pub proof fn lemma_reopen_only_from_approved_or_review(state: Seq<char>)
    ensures
        can_return_to_draft(state) <==> (state == "approved"@ || state == "ready_for_review"@),
        !can_return_to_draft("draft"@),
        !can_return_to_draft("applied"@),
{
    lemma_reopen_states_distinct();
}

/// Decide a reopen request for a plan stored in `state`.
pub fn reopen_decision(state: &str) -> (d: ReopenDecision)
    ensures
        state@ == "draft"@ ==> (d is AlreadyDraft),
        state@ != "draft"@ && can_return_to_draft(state@) ==> (d is Reopen),
        state@ != "draft"@ && !can_return_to_draft(state@) ==> (d matches ReopenDecision::Refuse(e)
            && e.code == ErrorCode::PlanInvalidState && e.severity == ErrorSeverity::Blocking
            && !e.retryable && e.message@ == reopen_refusal_text(debug_text(state@))),
        (d is AlreadyDraft) <==> state@ == "draft"@,
        (d is Reopen) <==> (state@ == "approved"@ || state@ == "ready_for_review"@),
        (d is Refuse) <==> (state@ != "draft"@ && state@ != "approved"@ && state@
            != "ready_for_review"@),
        d matches ReopenDecision::Refuse(e) ==> e.code == ErrorCode::PlanInvalidState,
{
    proof {
        lemma_reopen_states_distinct();
    }
    if str_eq(state, "draft") {
        return ReopenDecision::AlreadyDraft;
    }
    if str_eq(state, "approved") || str_eq(state, "ready_for_review") {
        return ReopenDecision::Reopen;
    }
    let q = debug_quoted(state);
    ReopenDecision::Refuse(reopen_refusal(q.as_str()))
}

/// The refusal of a reopen, given the plan's state as `Debug` renders it.
pub fn reopen_refusal(quoted_state: &str) -> (e: ContractError)
    ensures
        e.code == ErrorCode::PlanInvalidState,
        e.severity == ErrorSeverity::Blocking,
        !e.retryable,
        e.message@ == reopen_refusal_text(quoted_state@),
{
    let mut m = String::new();
    push_str(&mut m, "cannot reopen a plan in state ");
    push_str(&mut m, quoted_state);
    push_str(&mut m, "; only an approved or ready_for_review plan can return to draft");
    proof {
        assert(m@ =~= reopen_refusal_text(quoted_state@));
    }
    ContractError::blocking(ErrorCode::PlanInvalidState, m)
}

/// Response of a reopen.
pub struct PlanReopenResponse {
    pub plan_id: String,
    pub new_state: String,
    pub prior_state: String,
    pub reopened_at: String,
}

/// The response of a reopen (or of the no-op reopen of a draft): the plan is
/// now `draft`, and `prior_state` is the state it was stored in.
pub fn reopen_response(plan_id: &str, prior_state: String, reopened_at: String) -> (r: PlanReopenResponse)
    ensures
        r.plan_id@ == plan_id@,
        r.new_state@ == "draft"@,
        r.prior_state == prior_state,
        r.reopened_at == reopened_at,
{
    PlanReopenResponse {
        plan_id: crate::text::from_str(plan_id),
        new_state: crate::text::from_str("draft"),
        prior_state,
        reopened_at,
    }
}

} // verus!
