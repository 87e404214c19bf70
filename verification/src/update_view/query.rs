//! Read-side of the Update View: the contract state names, the plan DTO, and
//! the paging of session, item, conflict and overlay-mapping lists.
use vstd::prelude::*;
use crate::errors::{ContractError, ErrorCode};
use crate::text::{push_str, str_eq};

verus! {

/// Rows per page of every Update View list.
pub const PAGE_LIMIT: usize = 100;

/// The contract name of a stored plan state: `draft` is presented as `open`,
/// the other known states keep their name, anything else is `unknown`.
pub open spec fn contract_state_of(db_state: Seq<char>) -> Seq<char> {
    if db_state == "draft"@ {
        "open"@
    } else if db_state == "approved"@ {
        "approved"@
    } else if db_state == "applying"@ {
        "applying"@
    } else if db_state == "stopped"@ {
        "stopped"@
    } else if db_state == "applied"@ {
        "applied"@
    } else if db_state == "failed"@ {
        "failed"@
    } else if db_state == "discarded"@ {
        "discarded"@
    } else if db_state == "stale"@ {
        "stale"@
    } else {
        "unknown"@
    }
}

/// Map a stored plan state to its contract name (`draft` → `open`).
pub fn contract_state(db_state: &str) -> (r: &'static str)
    ensures
        r@ == contract_state_of(db_state@),
{
    if str_eq(db_state, "draft") {
        "open"
    } else if str_eq(db_state, "approved") {
        "approved"
    } else if str_eq(db_state, "applying") {
        "applying"
    } else if str_eq(db_state, "stopped") {
        "stopped"
    } else if str_eq(db_state, "applied") {
        "applied"
    } else if str_eq(db_state, "failed") {
        "failed"
    } else if str_eq(db_state, "discarded") {
        "discarded"
    } else if str_eq(db_state, "stale") {
        "stale"
    } else {
        "unknown"
    }
}

/// A stored `materialization_update_plan` row.
pub struct UpdatePlanRow {
    pub row_id: i64,
    pub public_id: String,
    pub project_row_id: i64,
    pub state: String,
    pub content_digest: String,
    pub session_count: i64,
    pub item_count: i64,
    pub source_frame_count: i64,
    pub source_byte_count: i64,
    pub remaining_session_count: i64,
    pub base_snapshot_row_id: Option<i64>,
    pub target_membership_revision_row_id: i64,
    pub next_session_row_id: Option<i64>,
    pub actor_row_id: i64,
    pub created_at: String,
}

/// `UpdateViewPlan` contract DTO.
pub struct UpdateViewPlan {
    pub plan_id: String,
    pub state: String,
    pub project_id: String,
    pub base_snapshot_id: Option<String>,
    pub target_membership_revision_id: String,
    pub plan_digest: String,
    pub session_count: i64,
    pub item_count: i64,
    pub source_frame_count: i64,
    pub source_byte_count: i64,
    pub conflict_count: i64,
    pub remaining_session_count: i64,
    pub next_session_id: Option<String>,
    pub created_at: String,
    pub created_by: String,
}

/// The public identifiers a plan row's foreign keys resolve to.
pub struct PlanRefs {
    pub project_id: String,
    pub base_snapshot_id: Option<String>,
    pub target_membership_revision_id: String,
    pub next_session_id: Option<String>,
    pub created_by: String,
}

/// Whether `dto` presents `row` under the contract state `state`, with the
/// resolved identifiers `refs` and `conflict_count` conflicts.
pub open spec fn presents(
    dto: UpdateViewPlan,
    row: UpdatePlanRow,
    refs: PlanRefs,
    state: Seq<char>,
    conflict_count: i64,
) -> bool {
    &&& dto.plan_id == row.public_id
    &&& dto.state@ == state
    &&& dto.project_id == refs.project_id
    &&& dto.base_snapshot_id == refs.base_snapshot_id
    &&& dto.target_membership_revision_id == refs.target_membership_revision_id
    &&& dto.plan_digest == row.content_digest
    &&& dto.session_count == row.session_count
    &&& dto.item_count == row.item_count
    &&& dto.source_frame_count == row.source_frame_count
    &&& dto.source_byte_count == row.source_byte_count
    &&& dto.conflict_count == conflict_count
    &&& dto.remaining_session_count == row.remaining_session_count
    &&& dto.next_session_id == refs.next_session_id
    &&& dto.created_at == row.created_at
    &&& dto.created_by == refs.created_by
}

/// Build the `UpdateViewPlan` DTO of `row` as `project.update_view.query`
/// returns it: the stored state under its contract name.
pub fn plan_dto(row: UpdatePlanRow, refs: PlanRefs, conflict_count: i64) -> (dto: UpdateViewPlan)
    ensures
        presents(dto, row, refs, contract_state_of(row.state@), conflict_count),
{
    let state = crate::text::from_str(contract_state(row.state.as_str()));
    UpdateViewPlan {
        plan_id: row.public_id,
        state,
        project_id: refs.project_id,
        base_snapshot_id: refs.base_snapshot_id,
        target_membership_revision_id: refs.target_membership_revision_id,
        plan_digest: row.content_digest,
        session_count: row.session_count,
        item_count: row.item_count,
        source_frame_count: row.source_frame_count,
        source_byte_count: row.source_byte_count,
        conflict_count,
        remaining_session_count: row.remaining_session_count,
        next_session_id: refs.next_session_id,
        created_at: row.created_at,
        created_by: refs.created_by,
    }
}

/// Message of the plan-not-found refusal.
pub open spec fn plan_not_found_text(plan_id: Seq<char>) -> Seq<char> {
    "update view plan "@ + plan_id + " not found"@
}

/// The refusal for a plan id that names no plan.
pub fn plan_not_found(plan_id: &str) -> (e: ContractError)
    ensures
        e.code == ErrorCode::ProjectUpdateViewPlanNotFound,
        e.message@ == plan_not_found_text(plan_id@),
        e.severity == crate::errors::ErrorSeverity::Blocking,
        !e.retryable,
{
    let mut m = String::new();
    push_str(&mut m, "update view plan ");
    push_str(&mut m, plan_id);
    push_str(&mut m, " not found");
    proof {
        assert(m@ =~= plan_not_found_text(plan_id@));
    }
    ContractError::blocking(ErrorCode::ProjectUpdateViewPlanNotFound, m)
}

// ── Paging ───────────────────────────────────────────────────────────────────

/// Number of rows a page shows out of `n` fetched (the query fetches one more
/// than a page to learn whether another page follows).
pub open spec fn page_len(n: nat) -> nat {
    if n > PAGE_LIMIT { PAGE_LIMIT as nat } else { n }
}

/// The cursor of the next page: the ordinal of the last row shown, present
/// only when more rows were fetched than a page holds.
pub open spec fn next_page_ordinal(ordinals: Seq<i64>) -> Option<i64> {
    if ordinals.len() > PAGE_LIMIT {
        Some(ordinals[PAGE_LIMIT as int - 1])
    } else {
        None
    }
}

/// A page never shows more than `PAGE_LIMIT` rows, and it names a next-page
/// cursor exactly when more rows were fetched than it shows.
pub proof fn lemma_page_bounds(ordinals: Seq<i64>)
    ensures
        page_len(ordinals.len()) <= PAGE_LIMIT,
        page_len(ordinals.len()) <= ordinals.len(),
        next_page_ordinal(ordinals) is Some <==> ordinals.len() > page_len(ordinals.len()),
{
}

/// A pinned/added session row of a plan.
pub struct PlanSessionRow {
    pub session_public_id: String,
    pub ordinal: i64,
}

pub struct PlanSessionItem {
    pub session_id: String,
    pub ordinal: i64,
}

/// Paged result for pinned/added session lists.
pub struct PinnedSessionPage {
    pub sessions: Vec<PlanSessionItem>,
    pub next_ordinal: Option<i64>,
}

/// Paged result for the added-session list.
pub type AddedSessionPage = PinnedSessionPage;

/// A plan entry row.
pub struct PlanEntryRow {
    pub row_id: i64,
    pub public_id: String,
    pub session_row_id: i64,
    pub frame_row_id: i64,
    pub destination_root_row_id: i64,
    pub relative_path: String,
    pub collision_state: String,
    pub approved_fingerprint: String,
    pub ordinal: i64,
}

pub struct PlanItemDto {
    pub item_id: String,
    pub session_id: String,
    pub destination_relative_path: String,
    pub collision_state: String,
    pub approved_fingerprint: String,
    pub ordinal: i64,
}

/// Paged plan items.
pub struct ItemPage {
    pub items: Vec<PlanItemDto>,
    pub next_ordinal: Option<i64>,
}

/// A colliding plan entry.
pub struct ConflictRow {
    pub public_id: String,
    pub relative_path: String,
    pub ordinal: i64,
}

pub struct ConflictDto {
    pub item_id: String,
    pub destination_relative_path: String,
    pub ordinal: i64,
}

/// Paged conflict list.
pub struct ConflictPage {
    pub conflicts: Vec<ConflictDto>,
    pub next_ordinal: Option<i64>,
}

/// An overlay-mapping row.
pub struct OverlayMappingRow {
    pub ordinal: i64,
    pub predecessor_entry_public_id: String,
    pub replacement_plan_entry_public_id: Option<String>,
    pub exclusion_reason_code: Option<String>,
}

pub struct OverlayMappingDto {
    pub ordinal: i64,
    pub predecessor_entry_id: String,
    pub replacement_entry_id: Option<String>,
    pub exclusion_reason_code: Option<String>,
}

/// Paged overlay-mapping list.
pub struct OverlayMappingPage {
    pub mappings: Vec<OverlayMappingDto>,
    pub next_ordinal: Option<i64>,
}

/// `UpdateViewOperationProgress` DTO.
pub struct OperationProgress {
    pub operation_id: String,
    pub plan_id: String,
    pub state: String,
    pub completed_items: u64,
    pub total_items: u64,
}

pub open spec fn session_ordinals(rows: Seq<PlanSessionRow>) -> Seq<i64> {
    rows.map_values(|r: PlanSessionRow| r.ordinal)
}

pub open spec fn entry_ordinals(rows: Seq<PlanEntryRow>) -> Seq<i64> {
    rows.map_values(|r: PlanEntryRow| r.ordinal)
}

pub open spec fn conflict_ordinals(rows: Seq<ConflictRow>) -> Seq<i64> {
    rows.map_values(|r: ConflictRow| r.ordinal)
}

pub open spec fn mapping_ordinals(rows: Seq<OverlayMappingRow>) -> Seq<i64> {
    rows.map_values(|r: OverlayMappingRow| r.ordinal)
}

/// `project.update_view.pinned_session.list` page over the fetched rows.
pub fn session_page(rows: &Vec<PlanSessionRow>) -> (page: PinnedSessionPage)
    ensures
        page.sessions@.len() == page_len(rows@.len()),
        forall|i: int|
            0 <= i < page.sessions@.len() ==> (#[trigger] page.sessions@[i]).session_id
                == rows@[i].session_public_id && page.sessions@[i].ordinal == rows@[i].ordinal,
        page.next_ordinal == next_page_ordinal(session_ordinals(rows@)),
{
    let mut sessions: Vec<PlanSessionItem> = Vec::new();
    let n = if rows.len() > PAGE_LIMIT { PAGE_LIMIT } else { rows.len() };
    let mut i: usize = 0;
    while i < n
        invariant
            n == page_len(rows@.len()),
            i <= n,
            sessions@.len() == i,
            forall|j: int|
                0 <= j < i ==> (#[trigger] sessions@[j]).session_id == rows@[j].session_public_id
                    && sessions@[j].ordinal == rows@[j].ordinal,
        decreases n - i,
    {
        let r = &rows[i];
        sessions.push(PlanSessionItem { session_id: r.session_public_id.clone(), ordinal: r.ordinal });
        i += 1;
    }
    let next_ordinal = if rows.len() > PAGE_LIMIT {
        Some(rows[PAGE_LIMIT - 1].ordinal)
    } else {
        None
    };
    PinnedSessionPage { sessions, next_ordinal }
}

/// `project.update_view.item.list` page over the fetched rows; `session_ids`
/// holds the public id of each shown row's session, in row order.
pub fn item_page(rows: &Vec<PlanEntryRow>, session_ids: &Vec<String>) -> (page: ItemPage)
    requires
        session_ids@.len() >= page_len(rows@.len()),
    ensures
        page.items@.len() == page_len(rows@.len()),
        forall|i: int|
            0 <= i < page.items@.len() ==> {
                let d = #[trigger] page.items@[i];
                let r = rows@[i];
                &&& d.item_id == r.public_id
                &&& d.session_id == session_ids@[i]
                &&& d.destination_relative_path == r.relative_path
                &&& d.collision_state == r.collision_state
                &&& d.approved_fingerprint == r.approved_fingerprint
                &&& d.ordinal == r.ordinal
            },
        page.next_ordinal == next_page_ordinal(entry_ordinals(rows@)),
{
    let mut items: Vec<PlanItemDto> = Vec::new();
    let n = if rows.len() > PAGE_LIMIT { PAGE_LIMIT } else { rows.len() };
    let mut i: usize = 0;
    while i < n
        invariant
            n == page_len(rows@.len()),
            session_ids@.len() >= n,
            i <= n,
            items@.len() == i,
            forall|j: int|
                0 <= j < i ==> {
                    let d = #[trigger] items@[j];
                    let r = rows@[j];
                    &&& d.item_id == r.public_id
                    &&& d.session_id == session_ids@[j]
                    &&& d.destination_relative_path == r.relative_path
                    &&& d.collision_state == r.collision_state
                    &&& d.approved_fingerprint == r.approved_fingerprint
                    &&& d.ordinal == r.ordinal
                },
        decreases n - i,
    {
        let r = &rows[i];
        items.push(
            PlanItemDto {
                item_id: r.public_id.clone(),
                session_id: session_ids[i].clone(),
                destination_relative_path: r.relative_path.clone(),
                collision_state: r.collision_state.clone(),
                approved_fingerprint: r.approved_fingerprint.clone(),
                ordinal: r.ordinal,
            },
        );
        i += 1;
    }
    let next_ordinal = if rows.len() > PAGE_LIMIT {
        Some(rows[PAGE_LIMIT - 1].ordinal)
    } else {
        None
    };
    ItemPage { items, next_ordinal }
}

/// `project.update_view.conflict.list` page over the fetched rows.
pub fn conflict_page(rows: &Vec<ConflictRow>) -> (page: ConflictPage)
    ensures
        page.conflicts@.len() == page_len(rows@.len()),
        forall|i: int|
            0 <= i < page.conflicts@.len() ==> (#[trigger] page.conflicts@[i]).item_id
                == rows@[i].public_id && page.conflicts@[i].destination_relative_path
                == rows@[i].relative_path && page.conflicts@[i].ordinal == rows@[i].ordinal,
        page.next_ordinal == next_page_ordinal(conflict_ordinals(rows@)),
{
    let mut conflicts: Vec<ConflictDto> = Vec::new();
    let n = if rows.len() > PAGE_LIMIT { PAGE_LIMIT } else { rows.len() };
    let mut i: usize = 0;
    while i < n
        invariant
            n == page_len(rows@.len()),
            i <= n,
            conflicts@.len() == i,
            forall|j: int|
                0 <= j < i ==> (#[trigger] conflicts@[j]).item_id == rows@[j].public_id
                    && conflicts@[j].destination_relative_path == rows@[j].relative_path
                    && conflicts@[j].ordinal == rows@[j].ordinal,
        decreases n - i,
    {
        let r = &rows[i];
        conflicts.push(
            ConflictDto {
                item_id: r.public_id.clone(),
                destination_relative_path: r.relative_path.clone(),
                ordinal: r.ordinal,
            },
        );
        i += 1;
    }
    let next_ordinal = if rows.len() > PAGE_LIMIT {
        Some(rows[PAGE_LIMIT - 1].ordinal)
    } else {
        None
    };
    ConflictPage { conflicts, next_ordinal }
}

/// `project.update_view.overlay_mapping.list` page over the fetched rows.
pub fn overlay_mapping_page(rows: &Vec<OverlayMappingRow>) -> (page: OverlayMappingPage)
    ensures
        page.mappings@.len() == page_len(rows@.len()),
        forall|i: int|
            0 <= i < page.mappings@.len() ==> {
                let d = #[trigger] page.mappings@[i];
                let r = rows@[i];
                &&& d.ordinal == r.ordinal
                &&& d.predecessor_entry_id == r.predecessor_entry_public_id
                &&& d.replacement_entry_id == r.replacement_plan_entry_public_id
                &&& d.exclusion_reason_code == r.exclusion_reason_code
            },
        page.next_ordinal == next_page_ordinal(mapping_ordinals(rows@)),
{
    let mut mappings: Vec<OverlayMappingDto> = Vec::new();
    let n = if rows.len() > PAGE_LIMIT { PAGE_LIMIT } else { rows.len() };
    let mut i: usize = 0;
    while i < n
        invariant
            n == page_len(rows@.len()),
            i <= n,
            mappings@.len() == i,
            forall|j: int|
                0 <= j < i ==> {
                    let d = #[trigger] mappings@[j];
                    let r = rows@[j];
                    &&& d.ordinal == r.ordinal
                    &&& d.predecessor_entry_id == r.predecessor_entry_public_id
                    &&& d.replacement_entry_id == r.replacement_plan_entry_public_id
                    &&& d.exclusion_reason_code == r.exclusion_reason_code
                },
        decreases n - i,
    {
        let r = &rows[i];
        mappings.push(
            OverlayMappingDto {
                ordinal: r.ordinal,
                predecessor_entry_id: r.predecessor_entry_public_id.clone(),
                replacement_entry_id: r.replacement_plan_entry_public_id.clone(),
                exclusion_reason_code: r.exclusion_reason_code.clone(),
            },
        );
        i += 1;
    }
    let next_ordinal = if rows.len() > PAGE_LIMIT {
        Some(rows[PAGE_LIMIT - 1].ordinal)
    } else {
        None
    };
    OverlayMappingPage { mappings, next_ordinal }
}

} // verus!
