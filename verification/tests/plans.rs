use astro_plan::errors::ErrorCode;
use astro_plan::plans::{reopen_decision, reopen_response, ReopenDecision};

#[test]
fn a_draft_is_already_where_a_reopen_leads() {
    assert!(matches!(reopen_decision("draft"), ReopenDecision::AlreadyDraft));
}

#[test]
fn approved_and_ready_for_review_plans_reopen() {
    assert!(matches!(reopen_decision("approved"), ReopenDecision::Reopen));
    assert!(matches!(reopen_decision("ready_for_review"), ReopenDecision::Reopen));
}

#[test]
fn an_applying_plan_cannot_be_reopened() {
    match reopen_decision("applying") {
        ReopenDecision::Refuse(e) => {
            assert_eq!(e.code, ErrorCode::PlanInvalidState);
            assert_eq!(
                e.message,
                "cannot reopen a plan in state \"applying\"; only an approved or ready_for_review plan can return to draft"
            );
            assert!(!e.retryable);
        }
        _ => panic!("applying has no edge back to draft"),
    }
}

#[test]
fn the_refusal_quotes_the_state_as_debug_does() {
    match reopen_decision("we\"ird") {
        ReopenDecision::Refuse(e) => assert!(e.message.contains("state \"we\\\"ird\";")),
        _ => panic!("unknown states are refused"),
    }
}

#[test]
fn the_reopen_response_reports_draft_and_the_prior_state() {
    let r = reopen_response("plan-1", "approved".to_owned(), "t0".to_owned());
    assert_eq!(r.plan_id, "plan-1");
    assert_eq!(r.new_state, "draft");
    assert_eq!(r.prior_state, "approved");
    assert_eq!(r.reopened_at, "t0");
}

#[test]
fn the_reopen_refusal_embeds_the_quoted_state() {
    let e = astro_plan::plans::reopen_refusal("\"applied\"");
    assert_eq!(e.code, ErrorCode::PlanInvalidState);
    assert_eq!(
        e.message,
        "cannot reopen a plan in state \"applied\"; only an approved or ready_for_review plan can return to draft"
    );
}
