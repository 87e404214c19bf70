//! Decisions of the stale-propagation subscriber.
//!
//! The subscriber fans `lifecycle.transition.applied` events out to its
//! hooks. When the live broadcast lags it replays the missed events from the
//! durable events table, page by page, from a cursor that only the replay
//! moves.
use vstd::prelude::*;
use crate::text::str_eq;

verus! {

/// The topic the subscriber handles.
pub const TOPIC_LIFECYCLE_TRANSITION_APPLIED: &'static str = "lifecycle.transition.applied";

/// The messages of the failed hook results, in hook order.
pub open spec fn error_messages(results: Seq<Result<(), String>>) -> Seq<Seq<char>>
    decreases results.len(),
{
    if results.len() == 0 {
        Seq::empty()
    } else {
        let rest = error_messages(results.drop_last());
        match results.last() {
            Ok(_) => rest,
            Err(m) => rest.push(m@),
        }
    }
}

/// The errors of one dispatch: each failing hook's message, in hook order.
/// Hook failures never stop the other hooks.
pub fn dispatch_errors(results: &Vec<Result<(), String>>) -> (errors: Vec<String>)
    ensures
        errors@.map_values(|s: String| s@) == error_messages(results@),
{
    let mut errors: Vec<String> = Vec::new();
    let mut i: usize = 0;
    while i < results.len()
        invariant
            i <= results@.len(),
            errors@.map_values(|s: String| s@) == error_messages(results@.take(i as int)),
        decreases results@.len() - i,
    {
        proof {
            assert(results@.take(i as int + 1).drop_last() =~= results@.take(i as int));
        }
        let ghost before = errors@;
        match &results[i] {
            Ok(_) => {},
            Err(m) => {
                errors.push(m.clone());
                proof {
                    assert(errors@.map_values(|s: String| s@) =~= before.map_values(|s: String| s@).push(
                        m@,
                    ));
                }
            },
        }
        i += 1;
    }
    proof {
        assert(results@.take(results@.len() as int) =~= results@);
    }
    errors
}

/// What the live subscriber receives from the broadcast.
pub enum Received {
    /// An envelope on `topic`.
    Envelope { topic: String },
    /// The receiver fell behind and missed events.
    Lagged,
    /// The bus closed.
    Closed,
}

/// What the live subscriber does next.
#[derive(PartialEq, Eq, Structural)]
pub enum SubscriberAction {
    /// Run every hook on the envelope.
    Dispatch,
    /// Other topics pass through unhandled.
    Ignore,
    /// Replay the missed events from the durable table.
    Replay,
    /// Stop the subscriber.
    Stop,
}

/// The live subscriber's reaction: handled-topic envelopes dispatch, other
/// topics are ignored, a lag replays, a closed bus stops. The live path never
/// moves the replay cursor.
pub fn on_received(r: &Received) -> (a: SubscriberAction)
    ensures
        r matches Received::Envelope { topic } ==> a == (if topic@
            == TOPIC_LIFECYCLE_TRANSITION_APPLIED@ {
            SubscriberAction::Dispatch
        } else {
            SubscriberAction::Ignore
        }),
        r is Lagged ==> a == SubscriberAction::Replay,
        r is Closed ==> a == SubscriberAction::Stop,
{
    match r {
        Received::Envelope { topic } => {
            if str_eq(topic.as_str(), TOPIC_LIFECYCLE_TRANSITION_APPLIED) {
                SubscriberAction::Dispatch
            } else {
                SubscriberAction::Ignore
            }
        },
        Received::Lagged => SubscriberAction::Replay,
        Received::Closed => SubscriberAction::Stop,
    }
}

/// One page of durable events read after the cursor, in id order.
pub enum ReplayPage {
    /// The read failed.
    Failed,
    /// The event ids of the rows read.
    Rows(Vec<i64>),
}

/// Where a replay goes after a page.
pub struct ReplayStep {
    /// The cursor after this page.
    pub cursor: i64,
    /// Whether another page should be read.
    pub more: bool,
}

/// The cursor after a page of event ids.
pub open spec fn cursor_after(cursor: i64, ids: Seq<i64>) -> i64 {
    if ids.len() == 0 {
        cursor
    } else {
        ids.last()
    }
}

/// Advance a replay over one page: the cursor moves to the last row read (a
/// failed or empty page leaves it), and only a full page asks for another.
/// A negative page size can never be filled, so it stops after one page.
pub fn replay_step(cursor: i64, page: &ReplayPage, page_size: i64) -> (s: ReplayStep)
    ensures
        page is Failed ==> s.cursor == cursor && !s.more,
        page matches ReplayPage::Rows(ids) ==> s.cursor == cursor_after(cursor, ids@) && s.more == (
        ids@.len() > 0 && page_size >= 0 && ids@.len() >= page_size),
{
    match page {
        ReplayPage::Failed => ReplayStep { cursor, more: false },
        ReplayPage::Rows(ids) => {
            if ids.len() == 0 {
                ReplayStep { cursor, more: false }
            } else {
                let last = ids[ids.len() - 1];
                let more = page_size >= 0 && ids.len() as u64 >= page_size as u64;
                ReplayStep { cursor: last, more }
            }
        },
    }
}

/// The replay cursor never moves backwards: rows read after the cursor carry
/// larger ids, so the cursor after any page is at least the cursor before.
pub proof fn lemma_replay_cursor_monotone(cursor: i64, ids: Seq<i64>)
    requires
        forall|k: int| 0 <= k < ids.len() ==> ids[k] > cursor,
    ensures
        cursor_after(cursor, ids) >= cursor,
        ids.len() > 0 ==> cursor_after(cursor, ids) > cursor,
{
}

// ── Replays across lags ─────────────────────────────────────────────────────

/// Event ids in strictly increasing order, as the durable table lists them.
pub open spec fn increasing(t: Seq<i64>) -> bool {
    forall|i: int, j: int| 0 <= i < j < t.len() ==> t[i] < t[j]
}

/// How many leading rows of `t` are at or below `cursor`.
pub open spec fn first_above(t: Seq<i64>, cursor: i64) -> nat
    decreases t.len(),
{
    if t.len() == 0 {
        0
    } else if t[0] > cursor {
        0
    } else {
        1 + first_above(t.drop_first(), cursor)
    }
}

/// The rows of an id-ordered table that a replay from `cursor` reads: every
/// row after the cursor, in id order.
pub open spec fn after(t: Seq<i64>, cursor: i64) -> Seq<i64> {
    t.skip(first_above(t, cursor) as int)
}

proof fn lemma_first_above_bounds(t: Seq<i64>, cursor: i64)
    ensures
        first_above(t, cursor) <= t.len(),
        forall|i: int| 0 <= i < first_above(t, cursor) ==> t[i] <= cursor,
        first_above(t, cursor) < t.len() ==> t[first_above(t, cursor) as int] > cursor,
    decreases t.len(),
{
    if t.len() > 0 && t[0] <= cursor {
        let d = t.drop_first();
        lemma_first_above_bounds(d, cursor);
        assert forall|i: int| 0 <= i < first_above(t, cursor) implies t[i] <= cursor by {
            if i > 0 {
                assert(t[i] == d[i - 1]);
            }
        }
    }
}

/// The rows after the cursor are exactly a suffix whose rows are all above it.
proof fn lemma_after_is_suffix_above(t: Seq<i64>, cursor: i64)
    requires
        increasing(t),
    ensures
        first_above(t, cursor) <= t.len(),
        forall|i: int| 0 <= i < first_above(t, cursor) ==> t[i] <= cursor,
        forall|i: int| first_above(t, cursor) <= i < t.len() ==> t[i] > cursor,
{
    lemma_first_above_bounds(t, cursor);
}

/// The split point is the only one with every row before it at or below the
/// cursor and every row from it above.
proof fn lemma_first_above_unique(t: Seq<i64>, cursor: i64, j: int)
    requires
        increasing(t),
        0 <= j <= t.len(),
        forall|i: int| 0 <= i < j ==> t[i] <= cursor,
        forall|i: int| j <= i < t.len() ==> t[i] > cursor,
    ensures
        first_above(t, cursor) == j,
{
    lemma_after_is_suffix_above(t, cursor);
    let k = first_above(t, cursor) as int;
    if k < j {
        assert(t[k] <= cursor);
    }
    if j < k {
        assert(t[j] > cursor);
    }
}

/// Pages of a replay tile the rows after the cursor: once a page holding the
/// first `m` of those rows is read, the cursor it leaves reads exactly the
/// rest on the next page query.
pub proof fn lemma_replay_pages_tile(t: Seq<i64>, cursor: i64, m: int)
    requires
        increasing(t),
        0 < m <= after(t, cursor).len(),
    ensures
        after(t, cursor_after(cursor, after(t, cursor).take(m))) == after(t, cursor).skip(m),
{
    lemma_after_is_suffix_above(t, cursor);
    let k = first_above(t, cursor) as int;
    let page = after(t, cursor).take(m);
    let moved = cursor_after(cursor, page);
    assert(moved == t[k + m - 1]);
    assert forall|i: int| 0 <= i < k + m implies t[i] <= moved by {
        if i < k + m - 1 {
            assert(t[i] < t[k + m - 1]);
        }
    }
    assert forall|i: int| k + m <= i < t.len() implies t[i] > moved by {
        assert(t[k + m - 1] < t[i]);
    }
    lemma_first_above_unique(t, moved, k + m);
    assert(after(t, moved) =~= after(t, cursor).skip(m));
}

/// Successive lags never lose or repeat a durable row: if a first lag
/// replays from `cursor` over the table `table`, and rows `fresh` (with
/// larger ids) are added before a second lag, which replays from where the
/// first left the cursor, then the two replays together read every row after
/// the original cursor, each exactly once and in id order; and when the
/// first replay read anything, the second reads exactly the rows that
/// arrived since.
pub proof fn lemma_each_lag_replays_new_rows_once(table: Seq<i64>, fresh: Seq<i64>, cursor: i64)
    requires
        increasing(table + fresh),
    ensures
        ({
            let whole = table + fresh;
            let first = after(table, cursor);
            let moved = cursor_after(cursor, first);
            let second = after(whole, moved);
            &&& after(whole, cursor) == first + second
            &&& forall|i: int, j: int| 0 <= i < first.len() && 0 <= j < second.len() ==> first[i] < second[j]
            &&& forall|j: int| 0 <= j < second.len() ==> second[j] > moved
            &&& moved >= cursor
            &&& first.len() > 0 ==> second == fresh
        }),
{
    let whole = table + fresh;
    let n = table.len() as int;
    assert(increasing(table)) by {
        assert forall|i: int, j: int| 0 <= i < j < table.len() implies table[i] < table[j] by {
            assert(whole[i] == table[i] && whole[j] == table[j]);
        }
    }
    assert(increasing(fresh)) by {
        assert forall|i: int, j: int| 0 <= i < j < fresh.len() implies fresh[i] < fresh[j] by {
            assert(whole[n + i] == fresh[i] && whole[n + j] == fresh[j]);
        }
    }
    lemma_after_is_suffix_above(table, cursor);
    lemma_after_is_suffix_above(whole, cursor);
    let k = first_above(table, cursor) as int;
    let first = after(table, cursor);
    let moved = cursor_after(cursor, first);
    if k < n {
        // The first replay read something: it ends at the table's last row.
        assert(first.len() > 0);
        assert(moved == table[n - 1]);
        assert(moved > cursor);
        assert(first_above(whole, cursor) == k) by {
            assert forall|i: int| 0 <= i < k implies whole[i] <= cursor by {
                assert(whole[i] == table[i]);
            }
            assert forall|i: int| k <= i < whole.len() implies whole[i] > cursor by {
                if i > k {
                    assert(whole[k] < whole[i]);
                }
                assert(whole[k] == table[k]);
            }
            lemma_first_above_unique(whole, cursor, k);
        }
        assert(first_above(whole, moved) == n) by {
            assert forall|i: int| 0 <= i < n implies whole[i] <= moved by {
                assert(whole[i] == table[i]);
                if i < n - 1 {
                    assert(table[i] < table[n - 1]);
                }
            }
            assert forall|i: int| n <= i < whole.len() implies whole[i] > moved by {
                assert(whole[n - 1] == table[n - 1]);
                assert(whole[n - 1] < whole[i]);
            }
            lemma_first_above_unique(whole, moved, n);
        }
        let second = after(whole, moved);
        assert(second =~= fresh);
        assert(after(whole, cursor) =~= first + second);
        assert forall|i: int, j: int| 0 <= i < first.len() && 0 <= j < second.len() implies first[i]
            < second[j] by {
            assert(first[i] == table[k + i]);
            if k + i < n - 1 {
                assert(table[k + i] < table[n - 1]);
            }
            assert(whole[n - 1] < whole[n + j]);
            assert(whole[n + j] == fresh[j]);
        }
    } else {
        // The first replay read nothing: the cursor stays and the second
        // replay reads everything after it.
        assert(first.len() == 0);
        assert(moved == cursor);
        let second = after(whole, moved);
        assert(after(whole, cursor) =~= first + second);
    }
    lemma_after_is_suffix_above(whole, moved);
    let second = after(whole, moved);
    assert forall|j: int| 0 <= j < second.len() implies second[j] > moved by {
        assert(second[j] == whole[first_above(whole, moved) + j]);
    }
}

} // verus!
