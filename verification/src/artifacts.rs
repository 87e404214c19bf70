//! Batched phases of a project's artifact reconciliation: which artifact rows
//! are marked missing, which scanned files update rows and which insert them,
//! and the audit events each phase publishes.
use vstd::prelude::*;
use crate::order::{contains_text, text_set};
use crate::text::str_eq;

verus! {

/// An artifact the reconcile scan found gone from disk.
pub struct GoneArtifact {
    pub id: String,
    pub path: String,
}

/// A file the reconcile scan found on disk.
pub struct DetectedFile {
    pub path: String,
    pub size_bytes: i64,
    pub file_mtime: String,
    pub detected_at: String,
}

/// A stored artifact row of the project.
pub struct ArtifactRow {
    pub id: String,
    pub path: String,
    pub content_hash: Option<String>,
}

/// An audit event of the reconcile phases.
pub enum ArtifactEvent {
    /// `artifact.missing`.
    Missing { artifact_id: String, project_id: String, path: String, at: String },
    /// `calibration_match.source_missing`.
    CalibrationSourceMissing { match_id: String, frame_id: String, at: String },
    /// `artifact.scan_incomplete`.
    ScanIncomplete { project_id: String, unreadable_paths: Vec<String>, at: String },
}

/// The ids to transition to `missing`, or `None` when nothing is gone (the
/// phase then touches nothing).
pub fn gone_ids(gone: &Vec<GoneArtifact>) -> (r: Option<Vec<String>>)
    ensures
        r is None <==> gone@.len() == 0,
        r matches Some(ids) ==> ids@.len() == gone@.len() && forall|i: int|
            0 <= i < gone@.len() ==> (#[trigger] ids@[i]) == gone@[i].id,
{
    if gone.len() == 0 {
        return None;
    }
    let mut ids: Vec<String> = Vec::new();
    let mut i: usize = 0;
    while i < gone.len()
        invariant
            i <= gone@.len(),
            ids@.len() == i,
            forall|k: int| 0 <= k < i ==> (#[trigger] ids@[k]) == gone@[k].id,
        decreases gone@.len() - i,
    {
        ids.push(gone[i].id.clone());
        i += 1;
    }
    Some(ids)
}

/// Whether `e` is the `artifact.missing` event of `g`.
pub open spec fn missing_event_of(e: ArtifactEvent, g: GoneArtifact, project_id: Seq<char>, at: Seq<char>) -> bool {
    e matches ArtifactEvent::Missing { artifact_id, project_id: p, path, at: a } && artifact_id == g.id
        && p@ == project_id && path == g.path && a@ == at
}

/// Whether `e` is the source-missing event of calibration match `m`
/// (`(artifact id, match id)`).
pub open spec fn source_missing_event_of(e: ArtifactEvent, m: (String, String), at: Seq<char>) -> bool {
    e matches ArtifactEvent::CalibrationSourceMissing { match_id, frame_id, at: a } && match_id == m.1
        && frame_id == m.0 && a@ == at
}

/// The events of the gone phase: one `artifact.missing` per gone artifact,
/// then one source-missing event per calibration match that used a gone
/// artifact as its source (none when that lookup failed, `matches` `None`:
/// the flag is re-derived on the next read).
pub fn missing_events(project_id: &str, gone: &Vec<GoneArtifact>, matches: Option<&Vec<(String, String)>>, at: &str) -> (events: Vec<ArtifactEvent>)
    ensures
        ({
            let ms = match matches {
                Some(m) => m@,
                None => Seq::empty(),
            };
            &&& events@.len() == gone@.len() + ms.len()
            &&& forall|i: int| 0 <= i < gone@.len() ==> missing_event_of(#[trigger] events@[i], gone@[i], project_id@, at@)
            &&& forall|j: int| 0 <= j < ms.len() ==> source_missing_event_of(#[trigger] events@[gone@.len() + j], ms[j], at@)
        }),
{
    let mut events: Vec<ArtifactEvent> = Vec::new();
    let mut i: usize = 0;
    while i < gone.len()
        invariant
            i <= gone@.len(),
            events@.len() == i,
            forall|k: int| 0 <= k < i ==> missing_event_of(#[trigger] events@[k], gone@[k], project_id@, at@),
        decreases gone@.len() - i,
    {
        events.push(
            ArtifactEvent::Missing {
                artifact_id: gone[i].id.clone(),
                project_id: crate::text::from_str(project_id),
                path: gone[i].path.clone(),
                at: crate::text::from_str(at),
            },
        );
        i += 1;
    }
    let ghost ms = match matches {
        Some(m) => m@,
        None => Seq::<(String, String)>::empty(),
    };
    if let Some(ms_vec) = matches {
        let mut j: usize = 0;
        while j < ms_vec.len()
            invariant
                ms == ms_vec@,
                j <= ms_vec@.len(),
                events@.len() == gone@.len() + j,
                forall|k: int| 0 <= k < gone@.len() ==> missing_event_of(#[trigger] events@[k], gone@[k], project_id@, at@),
                forall|k: int| 0 <= k < j ==> source_missing_event_of(#[trigger] events@[gone@.len() + k], ms[k], at@),
            decreases ms_vec@.len() - j,
        {
            let m = &ms_vec[j];
            events.push(
                ArtifactEvent::CalibrationSourceMissing {
                    match_id: m.1.clone(),
                    frame_id: m.0.clone(),
                    at: crate::text::from_str(at),
                },
            );
            j += 1;
        }
    }
    events
}

/// The `artifact.scan_incomplete` event recording the directories a scan
/// could not read, or `None` when it read everything. Nothing is written to
/// the artifact rows: paths under an unreadable directory are unknown state.
pub fn scan_incomplete_event(project_id: &str, unreadable_paths: &Vec<String>, at: &str) -> (r: Option<ArtifactEvent>)
    ensures
        r is None <==> unreadable_paths@.len() == 0,
        r matches Some(e) ==> (e matches ArtifactEvent::ScanIncomplete { project_id: p, unreadable_paths: u, at: a }
            && p@ == project_id@ && u@ == unreadable_paths@ && a@ == at@),
{
    if unreadable_paths.len() == 0 {
        return None;
    }
    Some(
        ArtifactEvent::ScanIncomplete {
            project_id: crate::text::from_str(project_id),
            unreadable_paths: unreadable_paths.clone(),
            at: crate::text::from_str(at),
        },
    )
}

/// `k` is the first existing row at `path`.
pub open spec fn first_row_at(rows: Seq<ArtifactRow>, path: Seq<char>, k: int) -> bool {
    &&& 0 <= k < rows.len()
    &&& rows[k].path@ == path
    &&& forall|j: int| 0 <= j < k ==> rows[j].path@ != path
}

/// The first existing row at `path`.
fn row_at_path(rows: &Vec<ArtifactRow>, path: &str) -> (r: Option<usize>)
    ensures
        r matches Some(k) ==> first_row_at(rows@, path@, k as int),
        r is None ==> forall|j: int| 0 <= j < rows@.len() ==> rows@[j].path@ != path@,
{
    let mut j: usize = 0;
    while j < rows.len()
        invariant
            j <= rows@.len(),
            forall|l: int| 0 <= l < j ==> rows@[l].path@ != path@,
        decreases rows@.len() - j,
    {
        if str_eq(rows[j].path.as_str(), path) {
            return Some(j);
        }
        j += 1;
    }
    None
}

/// How the detect phase treats one scanned file.
#[derive(PartialEq, Eq, Structural)]
pub enum DetectAction {
    /// Update existing row `row` in place (`artifact.updated`).
    Update { row: usize },
    /// Insert a new row (`artifact.detected` + `artifact.classified` if the
    /// insert lands).
    Insert,
}

/// The detect phase's treatment of every scanned file: a path already
/// recorded updates its first row, a new path is inserted.
pub fn detect_actions(files: &Vec<DetectedFile>, existing: &Vec<ArtifactRow>) -> (r: Vec<DetectAction>)
    ensures
        r@.len() == files@.len(),
        forall|i: int|
            0 <= i < files@.len() ==> match #[trigger] r@[i] {
                DetectAction::Update { row } => first_row_at(existing@, files@[i].path@, row as int),
                DetectAction::Insert => forall|j: int| 0 <= j < existing@.len() ==> existing@[j].path@ != files@[i].path@,
            },
{
    let mut r: Vec<DetectAction> = Vec::new();
    let mut i: usize = 0;
    while i < files.len()
        invariant
            i <= files@.len(),
            r@.len() == i,
            forall|k: int|
                0 <= k < i ==> match #[trigger] r@[k] {
                    DetectAction::Update { row } => first_row_at(existing@, files@[k].path@, row as int),
                    DetectAction::Insert => forall|j: int| 0 <= j < existing@.len() ==> existing@[j].path@ != files@[k].path@,
                },
        decreases files@.len() - i,
    {
        let found = row_at_path(existing, files[i].path.as_str());
        match found {
            Some(row) => r.push(DetectAction::Update { row }),
            None => r.push(DetectAction::Insert),
        }
        i += 1;
    }
    r
}

/// An event of the detect phase, naming the update or insert it reports.
#[derive(PartialEq, Eq, Structural)]
pub enum DetectEvent {
    /// `artifact.updated` for update number `update`.
    Updated { update: usize },
    /// `artifact.detected` for insert number `insert`.
    Detected { insert: usize },
    /// `artifact.classified` for insert number `insert`.
    Classified { insert: usize },
}

/// Events for the inserts among the first `n` of `insert_ids` that landed.
pub open spec fn insert_events(insert_ids: Seq<String>, landed: Set<Seq<char>>, n: nat) -> Seq<DetectEvent>
    decreases n,
{
    if n == 0 {
        Seq::empty()
    } else {
        let rest = insert_events(insert_ids, landed, (n - 1) as nat);
        if landed.contains(insert_ids[n - 1]@) {
            rest.push(DetectEvent::Detected { insert: (n - 1) as usize }).push(
                DetectEvent::Classified { insert: (n - 1) as usize },
            )
        } else {
            rest
        }
    }
}

/// The detect phase's events: one `artifact.updated` per update, in order,
/// then `artifact.detected` and `artifact.classified` for each insert whose
/// row landed (`landed_ids`, the rows after the commit). An insert that lost
/// the race to a concurrent detector emits nothing.
pub fn detect_events(updates: usize, insert_ids: &Vec<String>, landed_ids: &Vec<String>) -> (events: Vec<DetectEvent>)
    requires
        insert_ids@.len() <= usize::MAX,
    ensures
        events@ == Seq::new(updates as nat, |k: int| DetectEvent::Updated { update: k as usize })
            + insert_events(insert_ids@, text_set(landed_ids@), insert_ids@.len()),
{
    let mut events: Vec<DetectEvent> = Vec::new();
    let mut u: usize = 0;
    while u < updates
        invariant
            u <= updates,
            events@ == Seq::new(u as nat, |k: int| DetectEvent::Updated { update: k as usize }),
        decreases updates - u,
    {
        events.push(DetectEvent::Updated { update: u });
        proof {
            assert(events@ =~= Seq::new((u + 1) as nat, |k: int| DetectEvent::Updated { update: k as usize }));
        }
        u += 1;
    }
    let ghost head = events@;
    let mut i: usize = 0;
    while i < insert_ids.len()
        invariant
            i <= insert_ids@.len(),
            head == Seq::new(updates as nat, |k: int| DetectEvent::Updated { update: k as usize }),
            events@ == head + insert_events(insert_ids@, text_set(landed_ids@), i as nat),
        decreases insert_ids@.len() - i,
    {
        if contains_text(landed_ids, insert_ids[i].as_str()) {
            events.push(DetectEvent::Detected { insert: i });
            events.push(DetectEvent::Classified { insert: i });
        }
        proof {
            assert(events@ =~= head + insert_events(insert_ids@, text_set(landed_ids@), (i + 1) as nat));
        }
        i += 1;
    }
    events
}

} // verus!
