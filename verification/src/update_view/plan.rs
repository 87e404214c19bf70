//! `project.update_view.plan`: the bounded additive plan.
//!
//! Unmaterialized sessions are admitted in candidate order while the plan
//! stays within its work limits. A session that would overflow a limit ends
//! the plan there (the rest remain for a later plan), except that a first
//! session which alone exceeds the limits refuses the whole plan. Every
//! admitted session and every entry of it feed the plan's content digest.
use vstd::prelude::*;
use vstd::utf8::encode_utf8;
use crate::digest::{sha256_label, sha256_labelled};
use crate::errors::{ContractError, ErrorCode};
use crate::text::{push_signed_decimal, push_str, signed_decimal};
use crate::update_view::query::{contract_state_of, UpdateViewPlan};

verus! {

/// Most sessions one plan admits.
pub const MAX_SESSIONS: i64 = 500;
/// Most items (frames) one plan installs.
pub const MAX_ITEMS: i64 = 100_000;
/// Most source frames one plan reads.
pub const MAX_SOURCE_FRAMES: i64 = 100_000;
/// Most source bytes one plan copies (16 TiB).
pub const MAX_SOURCE_BYTES: i64 = 17_592_186_044_416;

pub struct PlanUpdateViewRequest<'a> {
    pub project_id: &'a str,
    pub expected_project_revision: i64,
    pub actor_id: &'a str,
    pub command_id: &'a str,
}

pub struct PlanUpdateViewResponse {
    pub plan: UpdateViewPlan,
}

// ── Preconditions ────────────────────────────────────────────────────────────

pub open spec fn project_not_found_text(project_id: Seq<char>) -> Seq<char> {
    "project "@ + project_id + " not found"@
}

/// The refusal for a project id that names no project.
pub fn project_not_found(project_id: &str) -> (e: ContractError)
    ensures
        e.code == ErrorCode::ProjectNotFound,
        e.message@ == project_not_found_text(project_id@),
        e.severity == crate::errors::ErrorSeverity::Blocking,
        !e.retryable,
{
    let mut m = String::new();
    push_str(&mut m, "project ");
    push_str(&mut m, project_id);
    push_str(&mut m, " not found");
    proof {
        assert(m@ =~= project_not_found_text(project_id@));
    }
    ContractError::blocking(ErrorCode::ProjectNotFound, m)
}

pub open spec fn membership_conflict_text(project_id: Seq<char>, expected: i64, found: i64) -> Seq<
    char,
> {
    "project "@ + project_id + " expected revision "@ + signed_decimal(expected as int)
        + " but found "@ + signed_decimal(found as int)
}

pub open spec fn no_head_text(project_id: Seq<char>) -> Seq<char> {
    "project "@ + project_id + " has no membership head"@
}

pub open spec fn no_unmaterialized_text(project_id: Seq<char>) -> Seq<char> {
    "project "@ + project_id + " has no unmaterialized sessions"@
}

/// Check a project before planning: its membership generation must be the
/// revision the caller planned against, and it must have a membership head,
/// whose revision row id is returned.
pub fn plan_preconditions(
    project_id: &str,
    expected_revision: i64,
    head_generation: i64,
    head_revision_row_id: Option<i64>,
) -> (r: Result<i64, ContractError>)
    ensures
        head_generation != expected_revision ==> (r matches Err(e) && e.code
            == ErrorCode::ProjectMembershipConflict && e.message@ == membership_conflict_text(
            project_id@,
            expected_revision,
            head_generation,
        )),
        head_generation == expected_revision && head_revision_row_id is None ==> (r matches Err(e)
            && e.code == ErrorCode::ProjectUpdateViewNoAdditions && e.message@ == no_head_text(
            project_id@,
        )),
        head_generation == expected_revision && head_revision_row_id is Some ==> r == Ok::<
            i64,
            ContractError,
        >(head_revision_row_id->0),
        r matches Err(e) ==> e.severity == crate::errors::ErrorSeverity::Blocking && !e.retryable,
{
    if head_generation != expected_revision {
        let mut m = String::new();
        push_str(&mut m, "project ");
        push_str(&mut m, project_id);
        push_str(&mut m, " expected revision ");
        push_signed_decimal(&mut m, expected_revision);
        push_str(&mut m, " but found ");
        push_signed_decimal(&mut m, head_generation);
        proof {
            assert(m@ =~= membership_conflict_text(project_id@, expected_revision, head_generation));
        }
        return Err(ContractError::blocking(ErrorCode::ProjectMembershipConflict, m));
    }
    match head_revision_row_id {
        Some(id) => Ok(id),
        None => {
            let mut m = String::new();
            push_str(&mut m, "project ");
            push_str(&mut m, project_id);
            push_str(&mut m, " has no membership head");
            proof {
                assert(m@ =~= no_head_text(project_id@));
            }
            Err(ContractError::blocking(ErrorCode::ProjectUpdateViewNoAdditions, m))
        },
    }
}

/// Refuse to plan when no session is left to materialize.
pub fn require_unmaterialized(project_id: &str, unmaterialized_count: i64) -> (r: Result<
    (),
    ContractError,
>)
    ensures
        r is Ok <==> unmaterialized_count != 0,
        r matches Err(e) ==> e.code == ErrorCode::ProjectUpdateViewNoAdditions && e.message@
            == no_unmaterialized_text(project_id@) && e.severity
            == crate::errors::ErrorSeverity::Blocking && !e.retryable,
{
    if unmaterialized_count == 0 {
        let mut m = String::new();
        push_str(&mut m, "project ");
        push_str(&mut m, project_id);
        push_str(&mut m, " has no unmaterialized sessions");
        proof {
            assert(m@ =~= no_unmaterialized_text(project_id@));
        }
        return Err(ContractError::blocking(ErrorCode::ProjectUpdateViewNoAdditions, m));
    }
    Ok(())
}

// ── Frames of a candidate session ────────────────────────────────────────────

/// A source frame of a candidate session.
pub struct SessionFrame {
    pub frame_row_id: i64,
    pub frame_public_id: String,
    pub byte_size: i64,
}

/// Sum of the byte sizes of `frames`.
pub open spec fn bytes_sum(frames: Seq<SessionFrame>) -> int
    decreases frames.len(),
{
    if frames.len() == 0 {
        0
    } else {
        bytes_sum(frames.drop_last()) + frames.last().byte_size
    }
}

/// Every running total of the byte sizes fits in an `i64`.
pub open spec fn sum_fits(frames: Seq<SessionFrame>) -> bool {
    forall|k: int| 0 <= k <= frames.len() ==> i64::MIN <= #[trigger] bytes_sum(frames.take(k)) <= i64::MAX
}

/// Total bytes of a candidate session's frames.
pub fn session_bytes(frames: &Vec<SessionFrame>) -> (total: i64)
    requires
        sum_fits(frames@),
    ensures
        total == bytes_sum(frames@),
{
    let mut total: i64 = 0;
    let mut i: usize = 0;
    while i < frames.len()
        invariant
            i <= frames@.len(),
            sum_fits(frames@),
            total == bytes_sum(frames@.take(i as int)),
        decreases frames@.len() - i,
    {
        proof {
            assert(frames@.take(i as int + 1).drop_last() =~= frames@.take(i as int));
            assert(i64::MIN <= bytes_sum(frames@.take(i as int + 1)) <= i64::MAX);
        }
        total = total + frames[i].byte_size;
        i += 1;
    }
    proof {
        assert(frames@.take(frames@.len() as int) =~= frames@);
    }
    total
}

// ── Plan building ────────────────────────────────────────────────────────────

/// Bytes a session contributes to the plan digest: its public id and `|`.
pub open spec fn session_piece(session_public_id: Seq<char>) -> Seq<u8> {
    encode_utf8(session_public_id) + seq![124u8]
}

/// Bytes an entry contributes to the plan digest: its public id, destination
/// path and collision state, then `|`.
pub open spec fn entry_piece(entry_public_id: Seq<char>, path: Seq<char>, collision: Seq<char>) -> Seq<
    u8,
> {
    encode_utf8(entry_public_id) + encode_utf8(path) + encode_utf8(collision) + seq![124u8]
}

/// Destination path of a plan entry: `<session public id>/<frame public id>`.
pub open spec fn entry_path_text(session_public_id: Seq<char>, frame_public_id: Seq<char>) -> Seq<
    char,
> {
    session_public_id + "/"@ + frame_public_id
}

/// The destination path of a frame's plan entry.
pub fn plan_entry_path(session_public_id: &str, frame_public_id: &str) -> (p: String)
    ensures
        p@ == entry_path_text(session_public_id@, frame_public_id@),
{
    let mut p = String::new();
    push_str(&mut p, session_public_id);
    push_str(&mut p, "/");
    push_str(&mut p, frame_public_id);
    proof {
        assert(p@ =~= entry_path_text(session_public_id@, frame_public_id@));
    }
    p
}

/// The collision state recorded on an entry whose destination path exists
/// (`collision`) or does not (`clear`).
pub fn collision_label(collision: bool) -> (s: &'static str)
    ensures
        s@ == (if collision { "collision"@ } else { "clear"@ }),
{
    if collision {
        "collision"
    } else {
        "clear"
    }
}

pub open spec fn too_large_text(session_public_id: Seq<char>, items: i64, bytes: i64) -> Seq<char> {
    "session "@ + session_public_id + " exceeds Update View limits: items="@ + signed_decimal(
        items as int,
    ) + " bytes="@ + signed_decimal(bytes as int)
}

pub open spec fn cumulative_too_large_text(session_public_id: Seq<char>) -> Seq<char> {
    "session "@ + session_public_id + " alone exceeds cumulative limits"@
}

/// What happens to a candidate session.
pub enum Admission {
    /// The session joins the plan; its plan-session ordinal.
    Take { session_ordinal: i64 },
    /// The plan ends before this session: it is the next session to plan,
    /// with `remaining` candidates (itself included) left over.
    Defer { next_session_index: usize, remaining: i64 },
    /// The first session alone exceeds the limits: the plan is refused.
    TooLarge(ContractError),
}

/// Which way the admission of a candidate session goes.
#[derive(PartialEq, Eq, Structural)]
pub enum AdmissionKind {
    Take,
    Defer,
    /// The first session exceeds a per-session limit.
    TooLargeAlone,
    /// The first session exceeds a cumulative limit.
    TooLargeCumulative,
}

/// The admission of a session of `items` frames and `bytes` bytes into a
/// plan that already holds `sessions` sessions, `total_items` items and
/// `total_bytes` bytes.
pub open spec fn admission_kind(sessions: i64, total_items: i64, total_bytes: i64, items: i64, bytes: i64) -> AdmissionKind {
    let over_alone = items > MAX_ITEMS || bytes > MAX_SOURCE_BYTES;
    let over_total = total_items + items > MAX_ITEMS || total_bytes + bytes > MAX_SOURCE_BYTES;
    if sessions >= MAX_SESSIONS || ((over_alone || over_total) && sessions > 0) {
        AdmissionKind::Defer
    } else if over_alone {
        AdmissionKind::TooLargeAlone
    } else if over_total {
        AdmissionKind::TooLargeCumulative
    } else {
        AdmissionKind::Take
    }
}

/// The first candidate is never deferred: it joins the plan or, when it alone
/// exceeds the limits, refuses the whole plan. Every later candidate that
/// would overflow a limit ends the plan instead of refusing it.
pub proof fn lemma_only_the_first_session_refuses(sessions: i64, total_items: i64, total_bytes: i64, items: i64, bytes: i64)
    ensures
        sessions == 0 ==> admission_kind(sessions, total_items, total_bytes, items, bytes) != AdmissionKind::Defer,
        sessions > 0 ==> admission_kind(sessions, total_items, total_bytes, items, bytes) == AdmissionKind::Take
            || admission_kind(sessions, total_items, total_bytes, items, bytes) == AdmissionKind::Defer,
        sessions == 0 && total_items == 0 && total_bytes == 0 ==> admission_kind(
            sessions,
            total_items,
            total_bytes,
            items,
            bytes,
        ) != AdmissionKind::TooLargeCumulative,
{
}

/// A candidate is deferred only when admitting it would break a work limit,
/// and a candidate that keeps the session count, every total and its own size
/// within the limits is always taken. A later candidate that breaks a limit
/// ends the plan; the first one refuses it.
pub proof fn lemma_admission_follows_limits(
    sessions: i64,
    total_items: i64,
    total_bytes: i64,
    items: i64,
    bytes: i64,
)
    requires
        0 <= sessions,
    ensures
        admission_kind(sessions, total_items, total_bytes, items, bytes) == AdmissionKind::Take <==> (
        sessions < MAX_SESSIONS && items <= MAX_ITEMS && bytes <= MAX_SOURCE_BYTES && total_items
            + items <= MAX_ITEMS && total_bytes + bytes <= MAX_SOURCE_BYTES),
        admission_kind(sessions, total_items, total_bytes, items, bytes) == AdmissionKind::Defer <==> (
        sessions >= MAX_SESSIONS || (sessions > 0 && (items > MAX_ITEMS || bytes > MAX_SOURCE_BYTES
            || total_items + items > MAX_ITEMS || total_bytes + bytes > MAX_SOURCE_BYTES))),
        admission_kind(sessions, total_items, total_bytes, items, bytes) == AdmissionKind::TooLargeAlone
            <==> (sessions == 0 && (items > MAX_ITEMS || bytes > MAX_SOURCE_BYTES)),
{
}

/// Running state of a plan being built: its totals, the ordinal of the next
/// entry, the frames of the last admitted session still to be entered, and
/// the bytes fed to the content digest so far.
pub struct PlanBuilder {
    sessions: i64,
    items: i64,
    bytes: i64,
    pending_frames: i64,
    next_ordinal: i64,
    digest_input: Vec<u8>,
}

impl PlanBuilder {
    pub closed spec fn session_total(&self) -> i64 {
        self.sessions
    }

    pub closed spec fn item_total(&self) -> i64 {
        self.items
    }

    pub closed spec fn byte_total(&self) -> i64 {
        self.bytes
    }

    /// Frames of the last admitted session not yet entered.
    pub closed spec fn pending(&self) -> i64 {
        self.pending_frames
    }

    /// Bytes fed to the content digest so far.
    pub closed spec fn digest_bytes(&self) -> Seq<u8> {
        self.digest_input@
    }

    /// A plan never exceeds its work limits, and an empty plan has no totals.
    pub closed spec fn within_limits(&self) -> bool {
        &&& 0 <= self.sessions <= MAX_SESSIONS
        &&& 0 <= self.items <= MAX_ITEMS
        &&& self.bytes <= MAX_SOURCE_BYTES
        &&& self.sessions == 0 ==> self.items == 0 && self.bytes == 0
        &&& 0 <= self.pending_frames <= self.items
        &&& self.next_ordinal == self.items - self.pending_frames
    }

    /// An empty plan.
    pub fn new() -> (b: PlanBuilder)
        ensures
            b.within_limits(),
            b.session_total() == 0,
            b.item_total() == 0,
            b.byte_total() == 0,
            b.pending() == 0,
            b.digest_bytes() == Seq::<u8>::empty(),
    {
        PlanBuilder {
            sessions: 0,
            items: 0,
            bytes: 0,
            pending_frames: 0,
            next_ordinal: 0,
            digest_input: Vec::new(),
        }
    }

    /// Decide candidate `index` of `candidate_count`, a session of
    /// `session_items` frames totalling `session_bytes` bytes.
    pub fn consider(
        &mut self,
        session_public_id: &str,
        index: usize,
        candidate_count: usize,
        session_items: i64,
        session_bytes: i64,
    ) -> (a: Admission)
        requires
            old(self).within_limits(),
            old(self).pending() == 0,
            index < candidate_count <= i64::MAX,
            0 <= session_items,
            old(self).session_total() >= MAX_SESSIONS || session_items > MAX_ITEMS || session_bytes
                > MAX_SOURCE_BYTES || i64::MIN <= old(self).byte_total() + session_bytes,
        ensures
            final(self).within_limits(),
            ({
                let s = *old(self);
                let kind = admission_kind(
                    s.session_total(),
                    s.item_total(),
                    s.byte_total(),
                    session_items,
                    session_bytes,
                );
                if kind == AdmissionKind::Defer {
                    &&& a == Admission::Defer {
                        next_session_index: index,
                        remaining: (candidate_count - index) as i64,
                    }
                    &&& *final(self) == s
                } else if kind == AdmissionKind::TooLargeAlone {
                    &&& a matches Admission::TooLarge(e)
                    &&& e.code == ErrorCode::ProjectUpdateViewSessionTooLarge
                    &&& e.message@ == too_large_text(session_public_id@, session_items, session_bytes)
                    &&& *final(self) == s
                } else if kind == AdmissionKind::TooLargeCumulative {
                    &&& a matches Admission::TooLarge(e)
                    &&& e.code == ErrorCode::ProjectUpdateViewSessionTooLarge
                    &&& e.message@ == cumulative_too_large_text(session_public_id@)
                    &&& *final(self) == s
                } else {
                    &&& a == Admission::Take { session_ordinal: s.session_total() }
                    &&& final(self).session_total() == s.session_total() + 1
                    &&& final(self).item_total() == s.item_total() + session_items
                    &&& final(self).byte_total() == s.byte_total() + session_bytes
                    &&& final(self).pending() == session_items
                    &&& final(self).digest_bytes() == s.digest_bytes() + session_piece(
                        session_public_id@,
                    )
                }
            }),
            a matches Admission::TooLarge(e) ==> e.severity == crate::errors::ErrorSeverity::Blocking
                && !e.retryable,
            (a is Take) <==> (old(self).session_total() < MAX_SESSIONS && session_items <= MAX_ITEMS
                && session_bytes <= MAX_SOURCE_BYTES && old(self).item_total() + session_items
                <= MAX_ITEMS && old(self).byte_total() + session_bytes <= MAX_SOURCE_BYTES),
            (a is Defer) ==> old(self).session_total() >= MAX_SESSIONS || old(self).item_total()
                + session_items > MAX_ITEMS || old(self).byte_total() + session_bytes > MAX_SOURCE_BYTES
                || session_items > MAX_ITEMS || session_bytes > MAX_SOURCE_BYTES,
            (a is TooLarge) ==> old(self).session_total() == 0,
    {
        if self.sessions >= MAX_SESSIONS {
            return Admission::Defer {
                next_session_index: index,
                remaining: candidate_count as i64 - index as i64,
            };
        }
        if session_items > MAX_ITEMS || session_bytes > MAX_SOURCE_BYTES {
            if self.sessions == 0 {
                let mut m = String::new();
                push_str(&mut m, "session ");
                push_str(&mut m, session_public_id);
                push_str(&mut m, " exceeds Update View limits: items=");
                push_signed_decimal(&mut m, session_items);
                push_str(&mut m, " bytes=");
                push_signed_decimal(&mut m, session_bytes);
                proof {
                    assert(m@ =~= too_large_text(session_public_id@, session_items, session_bytes));
                }
                return Admission::TooLarge(
                    ContractError::blocking(ErrorCode::ProjectUpdateViewSessionTooLarge, m),
                );
            }
            return Admission::Defer {
                next_session_index: index,
                remaining: candidate_count as i64 - index as i64,
            };
        }
        if self.items + session_items > MAX_ITEMS || self.bytes + session_bytes > MAX_SOURCE_BYTES {
            if self.sessions == 0 {
                let mut m = String::new();
                push_str(&mut m, "session ");
                push_str(&mut m, session_public_id);
                push_str(&mut m, " alone exceeds cumulative limits");
                proof {
                    assert(m@ =~= cumulative_too_large_text(session_public_id@));
                }
                return Admission::TooLarge(
                    ContractError::blocking(ErrorCode::ProjectUpdateViewSessionTooLarge, m),
                );
            }
            return Admission::Defer {
                next_session_index: index,
                remaining: candidate_count as i64 - index as i64,
            };
        }
        let session_ordinal = self.sessions;
        self.sessions = self.sessions + 1;
        self.items = self.items + session_items;
        self.bytes = self.bytes + session_bytes;
        self.pending_frames = session_items;
        self.digest_input.extend_from_slice(session_public_id.as_bytes());
        self.digest_input.push(124u8);
        proof {
            assert(self.digest_input@ =~= old(self).digest_input@ + session_piece(
                session_public_id@,
            ));
        }
        Admission::Take { session_ordinal }
    }

    /// Record the next entry of the last admitted session, returning its
    /// plan-entry ordinal (entries are numbered consecutively from 0 across
    /// the whole plan).
    pub fn add_entry(&mut self, entry_public_id: &str, path: &str, collision_state: &str) -> (ordinal:
        i64)
        requires
            old(self).within_limits(),
            old(self).pending() > 0,
        ensures
            final(self).within_limits(),
            ordinal == old(self).item_total() - old(self).pending(),
            final(self).pending() == old(self).pending() - 1,
            final(self).session_total() == old(self).session_total(),
            final(self).item_total() == old(self).item_total(),
            final(self).byte_total() == old(self).byte_total(),
            final(self).digest_bytes() == old(self).digest_bytes() + entry_piece(
                entry_public_id@,
                path@,
                collision_state@,
            ),
    {
        let ordinal = self.next_ordinal;
        self.next_ordinal = self.next_ordinal + 1;
        self.pending_frames = self.pending_frames - 1;
        self.digest_input.extend_from_slice(entry_public_id.as_bytes());
        self.digest_input.extend_from_slice(path.as_bytes());
        self.digest_input.extend_from_slice(collision_state.as_bytes());
        self.digest_input.push(124u8);
        proof {
            assert(self.digest_input@ =~= old(self).digest_input@ + entry_piece(
                entry_public_id@,
                path@,
                collision_state@,
            ));
        }
        ordinal
    }

    /// The plan's content digest: `sha256:` and the hex SHA-256 of every
    /// digest piece in the order the sessions and entries were recorded.
    pub fn digest(&self) -> (d: String)
        ensures
            d@ == sha256_label(self.digest_bytes()),
    {
        sha256_labelled(self.digest_input.as_slice())
    }

    pub fn sessions(&self) -> (n: i64)
        ensures
            n == self.session_total(),
    {
        self.sessions
    }

    pub fn items(&self) -> (n: i64)
        ensures
            n == self.item_total(),
    {
        self.items
    }

    pub fn bytes(&self) -> (n: i64)
        ensures
            n == self.byte_total(),
    {
        self.bytes
    }
}

/// A plan being built never exceeds its work limits: at most
/// `MAX_SESSIONS` sessions, `MAX_ITEMS` items and `MAX_SOURCE_BYTES` bytes.
pub proof fn lemma_plan_within_work_limits(b: PlanBuilder)
    requires
        b.within_limits(),
    ensures
        0 <= b.session_total() <= MAX_SESSIONS,
        0 <= b.item_total() <= MAX_ITEMS,
        b.item_total() <= MAX_SOURCE_FRAMES,
        b.byte_total() <= MAX_SOURCE_BYTES,
        b.session_total() == 0 ==> b.item_total() == 0 && b.byte_total() == 0,
{
}

/// Where planning stopped: the next session to plan and how many candidates
/// were left over, or nothing when every candidate was admitted.
pub struct PlanRemainder {
    pub next_session_public_id: Option<String>,
    pub remaining: i64,
}

/// A remainder names a next session exactly when candidates were left over
/// (a deferred session counts itself), and never counts fewer than none.
pub open spec fn remainder_consistent(r: PlanRemainder) -> bool {
    &&& r.remaining >= 0
    &&& (r.remaining > 0 <==> r.next_session_public_id is Some)
}

/// The `UpdateViewPlan` of a freshly generated plan: state `open`, no
/// conflicts counted yet (they are computed at query time), item and frame
/// counts equal.
pub fn draft_plan_dto(
    plan_public_id: String,
    project_id: &str,
    base_snapshot_id: Option<String>,
    target_membership_revision_id: String,
    builder: &PlanBuilder,
    remainder: PlanRemainder,
    created_at: &str,
    actor_id: &str,
) -> (dto: UpdateViewPlan)
    requires
        remainder_consistent(remainder),
    ensures
        dto.remaining_session_count > 0 <==> dto.next_session_id is Some,
        dto.plan_id == plan_public_id,
        dto.state@ == contract_state_of("draft"@),
        dto.state@ == "open"@,
        dto.project_id@ == project_id@,
        dto.base_snapshot_id == base_snapshot_id,
        dto.target_membership_revision_id == target_membership_revision_id,
        dto.plan_digest@ == sha256_label(builder.digest_bytes()),
        dto.session_count == builder.session_total(),
        dto.item_count == builder.item_total(),
        dto.source_frame_count == builder.item_total(),
        dto.source_byte_count == builder.byte_total(),
        dto.conflict_count == 0,
        dto.remaining_session_count == remainder.remaining,
        dto.next_session_id == remainder.next_session_public_id,
        dto.created_at@ == created_at@,
        dto.created_by@ == actor_id@,
{
    let state = crate::text::from_str(crate::update_view::query::contract_state("draft"));
    proof {
        reveal_strlit("draft");
    }
    UpdateViewPlan {
        plan_id: plan_public_id,
        state,
        project_id: crate::text::from_str(project_id),
        base_snapshot_id,
        target_membership_revision_id,
        plan_digest: builder.digest(),
        session_count: builder.sessions(),
        item_count: builder.items(),
        source_frame_count: builder.items(),
        source_byte_count: builder.bytes(),
        conflict_count: 0,
        remaining_session_count: remainder.remaining,
        next_session_id: remainder.next_session_public_id,
        created_at: crate::text::from_str(created_at),
        created_by: crate::text::from_str(actor_id),
    }
}

} // verus!
