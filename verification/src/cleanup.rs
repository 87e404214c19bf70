//! Raw sub-frame cleanup: which frames are candidates, what they reclaim,
//! and the archive plan built from a user's selection.
use vstd::prelude::*;
use crate::errors::{ContractError, ErrorCode, ErrorSeverity};
use crate::text::{decimal, push_decimal, push_str, str_eq};

verus! {

/// A raw frame's type.
#[derive(Clone, Copy, PartialEq, Eq, Structural)]
pub enum RawFrameType {
    Light,
    Dark,
    Flat,
    Bias,
}

pub open spec fn category_of(t: RawFrameType) -> Seq<char> {
    match t {
        RawFrameType::Light => "lights"@,
        RawFrameType::Dark => "darks"@,
        RawFrameType::Flat => "flats"@,
        RawFrameType::Bias => "bias"@,
    }
}

/// The protection category a raw frame resolves under: the name of its own
/// type, so the configured protected categories (such as `lights`) apply to it.
pub fn raw_frame_protection_category(frame_type: RawFrameType) -> (c: &'static str)
    ensures
        c@ == category_of(frame_type),
{
    match frame_type {
        RawFrameType::Light => "lights",
        RawFrameType::Dark => "darks",
        RawFrameType::Flat => "flats",
        RawFrameType::Bias => "bias",
    }
}

// ── Attribution guard ────────────────────────────────────────────────────────

/// The column holding a session's frame membership.
pub const FRAME_IDS_COLUMN: &'static str = "frame_ids";

/// A stored JSON column that is not valid JSON.
pub struct MalformedColumn {
    pub table_name: String,
    pub column_name: String,
    pub row_id: String,
}

/// Sessions whose frame membership cannot be read.
pub open spec fn unreadable_sessions(rows: Seq<MalformedColumn>) -> Seq<Seq<char>>
    decreases rows.len(),
{
    if rows.len() == 0 {
        Seq::empty()
    } else {
        let rest = unreadable_sessions(rows.drop_last());
        if rows.last().column_name@ == FRAME_IDS_COLUMN@ {
            rest.push(rows.last().row_id@)
        } else {
            rest
        }
    }
}

/// `parts` joined with `sep` between consecutive parts.
pub open spec fn joined(parts: Seq<Seq<char>>, sep: Seq<char>) -> Seq<char>
    decreases parts.len(),
{
    if parts.len() == 0 {
        Seq::empty()
    } else if parts.len() == 1 {
        parts[0]
    } else {
        joined(parts.drop_last(), sep) + sep + parts.last()
    }
}

pub open spec fn unreadable_text(ids: Seq<Seq<char>>) -> Seq<char> {
    "frame-to-session attribution is unreadable for "@ + decimal(ids.len()) + " session(s) ("@
        + joined(ids, ", "@)
        + "), so raw sub-frame cleanup cannot tell an unattributed frame from one of theirs. Repair or re-import those sessions first."@
}

/// Refuse raw-frame cleanup while any session's frame membership is
/// unreadable: such a session's frames would look unattributed, and a
/// destructive plan must not be built on that. Malformed columns of other
/// kinds do not refuse.
pub fn refuse_unreadable_frame_attribution(malformed: &Vec<MalformedColumn>) -> (r: Result<
    (),
    ContractError,
>)
    ensures
        r is Ok <==> unreadable_sessions(malformed@).len() == 0,
        r matches Err(e) ==> e.code == ErrorCode::InternalData && e.message@ == unreadable_text(
            unreadable_sessions(malformed@),
        ) && e.severity == ErrorSeverity::Blocking && !e.retryable,
{
    let mut ids: Vec<String> = Vec::new();
    let mut i: usize = 0;
    while i < malformed.len()
        invariant
            i <= malformed@.len(),
            ids@.map_values(|s: String| s@) == unreadable_sessions(malformed@.take(i as int)),
        decreases malformed@.len() - i,
    {
        proof {
            assert(malformed@.take(i as int + 1).drop_last() =~= malformed@.take(i as int));
        }
        let ghost before = ids@;
        if str_eq(malformed[i].column_name.as_str(), FRAME_IDS_COLUMN) {
            ids.push(malformed[i].row_id.clone());
            proof {
                assert(ids@.map_values(|s: String| s@) =~= before.map_values(|s: String| s@).push(malformed@[i as int].row_id@));
            }
        }
        proof {
            assert(ids@.map_values(|s: String| s@) =~= unreadable_sessions(malformed@.take(i as int + 1)));
        }
        i += 1;
    }
    proof {
        assert(malformed@.take(malformed@.len() as int) =~= malformed@);
    }
    let ghost id_texts = ids@.map_values(|s: String| s@);
    if ids.len() == 0 {
        return Ok(());
    }
    let mut m = String::new();
    push_str(&mut m, "frame-to-session attribution is unreadable for ");
    push_decimal(&mut m, ids.len() as u64);
    push_str(&mut m, " session(s) (");
    let mut j: usize = 0;
    let ghost prefix = m@;
    while j < ids.len()
        invariant
            1 <= ids@.len(),
            j <= ids@.len(),
            id_texts == ids@.map_values(|s: String| s@),
            m@ == prefix + joined(id_texts.take(j as int), ", "@),
        decreases ids@.len() - j,
    {
        if j > 0 {
            push_str(&mut m, ", ");
        }
        push_str(&mut m, ids[j].as_str());
        proof {
            let t = id_texts.take(j as int + 1);
            assert(t.drop_last() =~= id_texts.take(j as int));
            if j == 0 {
                assert(joined(id_texts.take(0), ", "@) =~= Seq::<char>::empty());
                assert(joined(t, ", "@) == t[0]);
            }
            assert(m@ =~= prefix + joined(t, ", "@));
        }
        j += 1;
    }
    push_str(&mut m, "), so raw sub-frame cleanup cannot tell an unattributed frame from one of theirs. Repair or re-import those sessions first.");
    proof {
        assert(id_texts.take(ids@.len() as int) =~= id_texts);
        assert(m@ =~= unreadable_text(unreadable_sessions(malformed@)));
    }
    Err(ContractError::blocking(ErrorCode::InternalData, m))
}

/// The protection source a raw frame resolves under: its owning session when
/// that session has its own protection row, otherwise the frame's root.
pub fn frame_protection_source(session_id: Option<&str>, root_id: &str, session_has_override: bool) -> (s:
    String)
    ensures
        s@ == (match session_id {
            Some(sid) => if session_has_override {
                sid@
            } else {
                root_id@
            },
            None => root_id@,
        }),
{
    match session_id {
        Some(sid) => if session_has_override {
            crate::text::from_str(sid)
        } else {
            crate::text::from_str(root_id)
        },
        None => crate::text::from_str(root_id),
    }
}

// ── Scan ─────────────────────────────────────────────────────────────────────

/// An inventory frame's presence state.
#[derive(Clone, Copy, PartialEq, Eq, Structural)]
pub enum FramePresenceState {
    Present,
    Missing,
    Protected,
}

/// A present per-frame inventory entry.
pub struct InventoryFrame {
    pub frame_id: String,
    pub session_id: Option<String>,
    pub root_id: String,
    pub relative_path: String,
    pub frame_type: RawFrameType,
    pub size_bytes: i64,
    pub state: FramePresenceState,
}

/// `a + b`, clamped to the `i64` range.
pub open spec fn sat_add(a: int, b: int) -> int {
    if a + b > i64::MAX {
        i64::MAX as int
    } else if a + b < i64::MIN {
        i64::MIN as int
    } else {
        a + b
    }
}

/// `a + b` clamped to the `i64` range.
pub fn saturating_add_i64(a: i64, b: i64) -> (r: i64)
    ensures
        r == sat_add(a as int, b as int),
{
    if b > 0 && a > i64::MAX - b {
        i64::MAX
    } else if b < 0 && a < i64::MIN - b {
        i64::MIN
    } else {
        a + b
    }
}

/// A frame is a cleanup candidate unless it is protected or outside the
/// requested kinds.
pub open spec fn is_candidate(f: InventoryFrame, kinds: Option<Seq<RawFrameType>>) -> bool {
    f.state != FramePresenceState::Protected && match kinds {
        None => true,
        Some(k) => k.contains(f.frame_type),
    }
}

/// A protected frame is never a candidate, whatever kinds are asked for; an
/// unprotected frame is one exactly when no kinds are given or its kind is
/// among them.
pub proof fn lemma_protected_never_candidate(f: InventoryFrame, kinds: Option<Seq<RawFrameType>>)
    ensures
        f.state == FramePresenceState::Protected ==> !is_candidate(f, kinds),
        is_candidate(f, kinds) <==> (f.state != FramePresenceState::Protected && (kinds matches Some(
            k,
        ) ==> k.contains(f.frame_type))),
{
}

/// Running clamped total of the sizes of `frames[idx[k]]`.
pub open spec fn clamped_total(frames: Seq<InventoryFrame>, idx: Seq<usize>) -> int
    decreases idx.len(),
{
    if idx.len() == 0 {
        0
    } else {
        sat_add(clamped_total(frames, idx.drop_last()), frames[idx.last() as int].size_bytes as int)
    }
}

/// The candidates of a scan: the indices of the candidate frames, in order,
/// and the bytes reclaimed by removing them (summed, clamped to `i64`).
/// Frames listed by the inventory are present ones; missing frames are never
/// listed.
pub fn scan_candidates(frames: &Vec<InventoryFrame>, kinds: Option<&Vec<RawFrameType>>) -> (r: (
    Vec<usize>,
    i64,
))
    ensures
        forall|k: int| 0 <= k < r.0@.len() ==> (#[trigger] r.0@[k]) < frames@.len(),
        forall|k: int, l: int| 0 <= k < l < r.0@.len() ==> #[trigger] r.0@[k] < #[trigger] r.0@[l],
        forall|i: int|
            0 <= i < frames@.len() ==> (r.0@.contains(i as usize) <==> is_candidate(
                #[trigger] frames@[i],
                match kinds {
                    Some(k) => Some(k@),
                    None => None,
                },
            )),
        forall|i: int|
            0 <= i < frames@.len() && (#[trigger] frames@[i]).state == FramePresenceState::Protected
                ==> !r.0@.contains(i as usize),
        forall|i: int|
            0 <= i < frames@.len() && (#[trigger] frames@[i]).state != FramePresenceState::Protected
                && (kinds matches Some(k) ==> k@.contains(frames@[i].frame_type)) ==> r.0@.contains(
                i as usize,
            ),
        forall|i: int|
            0 <= i < frames@.len() && (kinds matches Some(k) && !k@.contains(
                (#[trigger] frames@[i]).frame_type,
            )) ==> !r.0@.contains(i as usize),
        r.1 == clamped_total(frames@, r.0@),
{
    let ghost ks = match kinds {
        Some(k) => Some(k@),
        None => None,
    };
    let mut idx: Vec<usize> = Vec::new();
    let mut total: i64 = 0;
    let mut i: usize = 0;
    while i < frames.len()
        invariant
            i <= frames@.len(),
            ks == (match kinds {
                Some(k) => Some(k@),
                None => None::<Seq<RawFrameType>>,
            }),
            forall|k: int| 0 <= k < idx@.len() ==> (#[trigger] idx@[k]) < i,
            forall|k: int, l: int| 0 <= k < l < idx@.len() ==> #[trigger] idx@[k] < #[trigger] idx@[l],
            forall|j: int| 0 <= j < i ==> (idx@.contains(j as usize) <==> is_candidate(#[trigger] frames@[j], ks)),
            total == clamped_total(frames@, idx@),
        decreases frames@.len() - i,
    {
        let f = &frames[i];
        let wanted = match kinds {
            None => true,
            Some(k) => contains_type(k, f.frame_type),
        };
        let ghost before = idx@;
        if f.state != FramePresenceState::Protected && wanted {
            idx.push(i);
            total = saturating_add_i64(total, f.size_bytes);
            proof {
                assert(idx@.drop_last() =~= before);
            }
        }
        proof {
            assert forall|j: int| 0 <= j < i + 1 implies (idx@.contains(j as usize) <==> is_candidate(
                #[trigger] frames@[j],
                ks,
            )) by {
                if j < i {
                    if idx@.contains(j as usize) {
                        let k = choose|k: int| 0 <= k < idx@.len() && idx@[k] == j as usize;
                        if k < before.len() {
                            assert(before[k] == j as usize);
                        }
                    }
                    if before.contains(j as usize) {
                        let k = choose|k: int| 0 <= k < before.len() && before[k] == j as usize;
                        assert(idx@[k] == j as usize);
                    }
                } else {
                    if idx@.contains(j as usize) {
                        let k = choose|k: int| 0 <= k < idx@.len() && idx@[k] == j as usize;
                        if k < before.len() {
                            assert(before[k] < i);
                        }
                    }
                    if is_candidate(frames@[j], ks) {
                        assert(idx@[idx@.len() - 1] == j as usize);
                    }
                }
            }
        }
        i += 1;
    }
    (idx, total)
}

fn contains_type(kinds: &Vec<RawFrameType>, t: RawFrameType) -> (r: bool)
    ensures
        r == kinds@.contains(t),
{
    let mut i: usize = 0;
    while i < kinds.len()
        invariant
            i <= kinds@.len(),
            forall|k: int| 0 <= k < i ==> kinds@[k] != t,
        decreases kinds@.len() - i,
    {
        if kinds[i] == t {
            assert(kinds@[i as int] == t);
            return true;
        }
        i += 1;
    }
    false
}

// ── Plan generation ──────────────────────────────────────────────────────────

/// A selected frame's stored record.
pub struct FrameRecordRow {
    pub id: String,
    pub state: String,
    pub root_id: String,
    pub relative_path: String,
    pub size_bytes: i64,
}

/// The indices of the selected records that can be planned: a missing record
/// never is, even when a stale selection still names it.
pub fn plannable_rows(rows: &Vec<FrameRecordRow>) -> (r: Vec<usize>)
    ensures
        forall|k: int| 0 <= k < r@.len() ==> (#[trigger] r@[k]) < rows@.len(),
        forall|k: int, l: int| 0 <= k < l < r@.len() ==> #[trigger] r@[k] < #[trigger] r@[l],
        forall|i: int|
            0 <= i < rows@.len() ==> (r@.contains(i as usize) <==> (#[trigger] rows@[i]).state@
                != "missing"@),
{
    let mut r: Vec<usize> = Vec::new();
    let mut i: usize = 0;
    while i < rows.len()
        invariant
            i <= rows@.len(),
            forall|k: int| 0 <= k < r@.len() ==> (#[trigger] r@[k]) < i,
            forall|k: int, l: int| 0 <= k < l < r@.len() ==> #[trigger] r@[k] < #[trigger] r@[l],
            forall|j: int| 0 <= j < i ==> (r@.contains(j as usize) <==> (#[trigger] rows@[j]).state@ != "missing"@),
        decreases rows@.len() - i,
    {
        let ghost before = r@;
        if !str_eq(rows[i].state.as_str(), "missing") {
            r.push(i);
        }
        proof {
            assert forall|j: int| 0 <= j < i + 1 implies (r@.contains(j as usize) <==> (
            #[trigger] rows@[j]).state@ != "missing"@) by {
                if r@.contains(j as usize) {
                    let k = choose|k: int| 0 <= k < r@.len() && r@[k] == j as usize;
                    if k < before.len() {
                        assert(before[k] == j as usize);
                    }
                }
                if j < i && before.contains(j as usize) {
                    let k = choose|k: int| 0 <= k < before.len() && before[k] == j as usize;
                    assert(r@[k] == j as usize);
                }
                if j == i && rows@[j].state@ != "missing"@ {
                    assert(r@[r@.len() - 1] == j as usize);
                }
            }
        }
        i += 1;
    }
    r
}

/// What the store knows of a plannable frame: its owning session's frame
/// type and the protection source it resolves under.
pub struct FrameAttribution {
    pub frame_type: RawFrameType,
    pub source_id: String,
}

/// A cleanup plan item.
pub struct CleanupPlanItem {
    pub id: String,
    pub name: String,
    pub action: String,
    pub source_id: String,
    pub category: String,
    pub from_relative_path: String,
    pub from_root_id: Option<String>,
    pub to_relative_path: String,
}

/// The last `/`-separated segment of a root-relative path.
pub open spec fn last_segment(path: Seq<char>) -> Seq<char>
    decreases path.len(),
{
    if path.len() == 0 {
        path
    } else if path.last() == '/' {
        Seq::empty()
    } else {
        last_segment(path.drop_last()).push(path.last())
    }
}

/// The file name shown for a root-relative path.
pub fn file_name(path: &str) -> (n: String)
    ensures
        n@ == last_segment(path@),
{
    let len = path.unicode_len();
    let mut n = String::new();
    let mut i: usize = 0;
    while i < len
        invariant
            len == path@.len(),
            i <= len,
            n@ == last_segment(path@.take(i as int)),
        decreases len - i,
    {
        let c = path.get_char(i);
        proof {
            assert(path@.take(i as int + 1).drop_last() =~= path@.take(i as int));
        }
        if c == '/' {
            n = String::new();
        } else {
            crate::text::push_char(&mut n, c);
        }
        i += 1;
    }
    proof {
        assert(path@.take(len as int) =~= path@);
    }
    n
}

/// Outcome of building a raw-frame archive plan.
pub struct RawFramePlan {
    pub items: Vec<CleanupPlanItem>,
    /// Bytes the plan moves: sizes of the planned frames (negative sizes
    /// count as zero), summed and clamped to `i64`.
    pub total_bytes_required: i64,
}

pub open spec fn item_id_text(plan_id: Seq<char>, n: nat) -> Seq<char> {
    plan_id + "-item-"@ + decimal(n)
}

/// Whether `item` is the archive item planned for `row` under `attr`.
pub open spec fn plans_frame(item: CleanupPlanItem, plan_id: Seq<char>, n: nat, row: FrameRecordRow, attr: FrameAttribution) -> bool {
    &&& item.id@ == item_id_text(plan_id, n)
    &&& item.name@ == last_segment(row.relative_path@)
    &&& item.action@ == "archive"@
    &&& item.source_id == attr.source_id
    &&& item.category@ == category_of(attr.frame_type)
    &&& item.from_relative_path == row.relative_path
    &&& item.from_root_id == Some(row.root_id)
    &&& item.to_relative_path@ == Seq::<char>::empty()
}

/// Running clamped total of the non-negative sizes of `rows`.
pub open spec fn clamped_size_total(rows: Seq<FrameRecordRow>) -> int
    decreases rows.len(),
{
    if rows.len() == 0 {
        0
    } else {
        let s = rows.last().size_bytes;
        sat_add(clamped_size_total(rows.drop_last()), if s < 0 { 0 } else { s as int })
    }
}

pub open spec fn nothing_planned_text() -> Seq<char> {
    "no selected frame resolved to a present file_record row"@
}

/// Build the archive plan items of the plannable selected frames `rows`, each
/// with its attribution: every item archives its frame (archive is preferred
/// over deletion), items are numbered in order, and an empty selection is
/// refused.
pub fn raw_frame_plan_items(plan_id: &str, rows: &Vec<FrameRecordRow>, attrs: &Vec<FrameAttribution>) -> (r: Result<
    RawFramePlan,
    ContractError,
>)
    requires
        attrs@.len() == rows@.len(),
        rows@.len() <= u64::MAX,
    ensures
        r is Err <==> rows@.len() == 0,
        r matches Err(e) ==> e.code == ErrorCode::InternalError && e.message@ == nothing_planned_text()
            && e.severity == ErrorSeverity::Warning && !e.retryable,
        r matches Ok(p) ==> p.items@.len() == rows@.len() && p.total_bytes_required
            == clamped_size_total(rows@) && forall|k: int|
            0 <= k < rows@.len() ==> plans_frame(#[trigger] p.items@[k], plan_id@, k as nat, rows@[k], attrs@[k]),
{
    if rows.len() == 0 {
        let m = crate::text::from_str("no selected frame resolved to a present file_record row");
        return Err(ContractError::new(ErrorCode::InternalError, m, ErrorSeverity::Warning, false));
    }
    let mut items: Vec<CleanupPlanItem> = Vec::new();
    let mut total: i64 = 0;
    let mut k: usize = 0;
    while k < rows.len()
        invariant
            attrs@.len() == rows@.len(),
            rows@.len() <= u64::MAX,
            k <= rows@.len(),
            items@.len() == k,
            total == clamped_size_total(rows@.take(k as int)),
            forall|j: int| 0 <= j < k ==> plans_frame(#[trigger] items@[j], plan_id@, j as nat, rows@[j], attrs@[j]),
        decreases rows@.len() - k,
    {
        let row = &rows[k];
        let size = if row.size_bytes < 0 { 0 } else { row.size_bytes };
        total = saturating_add_i64(total, size);
        proof {
            assert(rows@.take(k as int + 1).drop_last() =~= rows@.take(k as int));
        }
        let mut id = crate::text::from_str(plan_id);
        push_str(&mut id, "-item-");
        push_decimal(&mut id, k as u64);
        proof {
            assert(id@ =~= item_id_text(plan_id@, k as nat));
        }
        items.push(
            CleanupPlanItem {
                id,
                name: file_name(row.relative_path.as_str()),
                action: crate::text::from_str("archive"),
                source_id: attrs[k].source_id.clone(),
                category: crate::text::from_str(raw_frame_protection_category(attrs[k].frame_type)),
                from_relative_path: row.relative_path.clone(),
                from_root_id: Some(row.root_id.clone()),
                to_relative_path: String::new(),
            },
        );
        k += 1;
    }
    proof {
        assert(rows@.take(rows@.len() as int) =~= rows@);
    }
    Ok(RawFramePlan { items, total_bytes_required: total })
}

/// A count as a `u32`, saturating at `u32::MAX`.
pub fn count_u32(n: usize) -> (r: u32)
    ensures
        r == (if n > u32::MAX { u32::MAX as int } else { n as int }),
{
    if n > u32::MAX as usize {
        u32::MAX
    } else {
        n as u32
    }
}

/// The plan title and destructive destination, with their defaults.
pub fn plan_labels(title: Option<String>, destination: Option<String>) -> (r: (String, String))
    ensures
        r.0@ == (match title {
            Some(t) => t@,
            None => "Raw sub-frame cleanup"@,
        }),
        r.1@ == (match destination {
            Some(d) => d@,
            None => "archive"@,
        }),
{
    let t = match title {
        Some(t) => t,
        None => crate::text::from_str("Raw sub-frame cleanup"),
    };
    let d = match destination {
        Some(d) => d,
        None => crate::text::from_str("archive"),
    };
    (t, d)
}

} // verus!
