use astro_plan::stale::{
    dispatch_errors, on_received, replay_step, Received, ReplayPage, SubscriberAction,
    TOPIC_LIFECYCLE_TRANSITION_APPLIED,
};

#[test]
fn hook_failures_are_collected_in_hook_order() {
    let results = vec![Err("first".to_owned()), Ok(()), Err("second".to_owned())];
    assert_eq!(dispatch_errors(&results), vec!["first".to_owned(), "second".to_owned()]);
    assert!(dispatch_errors(&vec![Ok(()), Ok(())]).is_empty());
}

#[test]
fn only_the_transition_topic_is_dispatched() {
    assert_eq!(TOPIC_LIFECYCLE_TRANSITION_APPLIED, "lifecycle.transition.applied");
    let handled = Received::Envelope { topic: TOPIC_LIFECYCLE_TRANSITION_APPLIED.to_owned() };
    assert!(on_received(&handled) == SubscriberAction::Dispatch);
    let other = Received::Envelope { topic: "plan.applying.completed".to_owned() };
    assert!(on_received(&other) == SubscriberAction::Ignore);
}

#[test]
fn a_lag_replays_and_a_closed_bus_stops() {
    assert!(on_received(&Received::Lagged) == SubscriberAction::Replay);
    assert!(on_received(&Received::Closed) == SubscriberAction::Stop);
}

#[test]
fn a_full_page_moves_the_cursor_to_its_last_row_and_asks_for_more() {
    let s = replay_step(0, &ReplayPage::Rows(vec![3, 4, 9]), 3);
    assert_eq!((s.cursor, s.more), (9, true));
}

#[test]
fn a_short_page_is_the_last() {
    let s = replay_step(9, &ReplayPage::Rows(vec![12]), 3);
    assert_eq!((s.cursor, s.more), (12, false));
}

#[test]
fn an_empty_or_failed_page_leaves_the_cursor() {
    let s = replay_step(5, &ReplayPage::Rows(vec![]), 3);
    assert_eq!((s.cursor, s.more), (5, false));
    let s = replay_step(5, &ReplayPage::Failed, 3);
    assert_eq!((s.cursor, s.more), (5, false));
}

#[test]
fn a_negative_page_size_stops_after_one_page() {
    let s = replay_step(0, &ReplayPage::Rows(vec![1, 2]), -1);
    assert_eq!((s.cursor, s.more), (2, false));
}

/// A second lag replays only what arrived since the first: the cursor is a
/// high-water mark that never moves backwards.
#[test]
fn the_replay_cursor_ratchets_across_lags() {
    let first = replay_step(0, &ReplayPage::Rows(vec![1, 2, 3]), 10);
    assert_eq!(first.cursor, 3);
    let second = replay_step(first.cursor, &ReplayPage::Rows(vec![4]), 10);
    assert_eq!(second.cursor, 4);
    assert!(second.cursor > first.cursor);
}
