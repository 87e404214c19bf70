//! The install loop of an Update View apply and the snapshot it finalizes.
//!
//! Entries already journaled by an earlier (interrupted) run are reused, the
//! rest are installed in entry order; the installed set then becomes a new
//! materialization snapshot whose sessions are the base snapshot's followed
//! by the plan's.
use vstd::prelude::*;
use crate::errors::{ContractError, ErrorCode, ErrorSeverity};
use crate::paths::{path_file_name, path_parent};
use crate::text::push_str;
use crate::update_view::query::PlanEntryRow;

verus! {

/// A journaled install of an earlier run: the plan item, the materialized
/// entry it produced, its destination path and content fingerprint.
pub struct JournalRow {
    pub item_row_id: i64,
    pub entry_row_id: i64,
    pub relative_path: String,
    pub fingerprint: String,
}

/// What the loop does with one plan entry.
#[derive(PartialEq, Eq, Structural)]
pub enum LoopStep {
    /// Already journaled: reuse journal row `journal_index`.
    Reuse { journal_index: usize },
    /// Install the entry.
    Install,
}

/// `k` is the first journal row recording plan item `item`.
pub open spec fn first_journal_of(journal: Seq<JournalRow>, item: i64, k: int) -> bool {
    &&& 0 <= k < journal.len()
    &&& journal[k].item_row_id == item
    &&& forall|j: int| 0 <= j < k ==> journal[j].item_row_id != item
}

/// No journal row records plan item `item`.
pub open spec fn unjournaled(journal: Seq<JournalRow>, item: i64) -> bool {
    forall|j: int| 0 <= j < journal.len() ==> journal[j].item_row_id != item
}

/// The first journal row recording `item`, if any.
pub fn find_journal(journal: &Vec<JournalRow>, item: i64) -> (r: Option<usize>)
    ensures
        r matches Some(k) ==> first_journal_of(journal@, item, k as int),
        r is None ==> unjournaled(journal@, item),
{
    let mut j: usize = 0;
    while j < journal.len()
        invariant
            j <= journal@.len(),
            forall|i: int| 0 <= i < j ==> journal@[i].item_row_id != item,
        decreases journal@.len() - j,
    {
        if journal[j].item_row_id == item {
            return Some(j);
        }
        j += 1;
    }
    None
}

/// The step of every plan entry, in entry order: reuse the first journal row
/// recording the entry's item, or install it.
pub fn apply_loop_steps(entries: &Vec<PlanEntryRow>, journal: &Vec<JournalRow>) -> (steps: Vec<
    LoopStep,
>)
    ensures
        steps@.len() == entries@.len(),
        forall|i: int|
            0 <= i < steps@.len() ==> match #[trigger] steps@[i] {
                LoopStep::Reuse { journal_index } => first_journal_of(
                    journal@,
                    entries@[i].row_id,
                    journal_index as int,
                ),
                LoopStep::Install => unjournaled(journal@, entries@[i].row_id),
            },
{
    let mut steps: Vec<LoopStep> = Vec::new();
    let mut i: usize = 0;
    while i < entries.len()
        invariant
            i <= entries@.len(),
            steps@.len() == i,
            forall|k: int|
                0 <= k < i ==> match #[trigger] steps@[k] {
                    LoopStep::Reuse { journal_index } => first_journal_of(
                        journal@,
                        entries@[k].row_id,
                        journal_index as int,
                    ),
                    LoopStep::Install => unjournaled(journal@, entries@[k].row_id),
                },
        decreases entries@.len() - i,
    {
        match find_journal(journal, entries[i].row_id) {
            Some(k) => steps.push(LoopStep::Reuse { journal_index: k }),
            None => steps.push(LoopStep::Install),
        }
        i += 1;
    }
    steps
}

/// Entry and session counts of the snapshot an apply finalizes: one entry per
/// installed item, and the base snapshot's sessions plus the plan's.
pub fn snapshot_counts(installed: usize, base_session_count: i64, plan_session_count: i64) -> (r: (
    i64,
    i64,
))
    requires
        installed <= i64::MAX,
        i64::MIN <= base_session_count + plan_session_count <= i64::MAX,
    ensures
        r.0 == installed,
        r.1 == base_session_count + plan_session_count,
{
    (installed as i64, base_session_count + plan_session_count)
}

/// The sessions of the finalized snapshot with their ordinals: the base
/// snapshot's sessions (if there is a base) then the plan's, numbered from 0.
pub fn snapshot_sessions(base: Option<&Vec<i64>>, plan: &Vec<i64>) -> (r: Vec<(i64, i64)>)
    requires
        (match base {
            Some(b) => b@.len(),
            None => 0,
        }) + plan@.len() <= i64::MAX,
    ensures
        ({
            let b = match base {
                Some(b) => b@,
                None => Seq::<i64>::empty(),
            };
            &&& r@.len() == b.len() + plan@.len()
            &&& forall|i: int| 0 <= i < r@.len() ==> (#[trigger] r@[i]).1 == i
            &&& forall|i: int| 0 <= i < b.len() ==> (#[trigger] r@[i]).0 == b[i]
            &&& forall|i: int| 0 <= i < plan@.len() ==> (#[trigger] r@[b.len() + i]).0 == plan@[i]
        }),
{
    let mut r: Vec<(i64, i64)> = Vec::new();
    let mut ordinal: i64 = 0;
    let ghost b = match base {
        Some(b) => b@,
        None => Seq::<i64>::empty(),
    };
    if let Some(bv) = base {
        let mut i: usize = 0;
        while i < bv.len()
            invariant
                b == bv@,
                b.len() + plan@.len() <= i64::MAX,
                i <= bv@.len(),
                r@.len() == i,
                ordinal == i,
                forall|k: int| 0 <= k < r@.len() ==> (#[trigger] r@[k]).1 == k,
                forall|k: int| 0 <= k < i ==> (#[trigger] r@[k]).0 == b[k],
            decreases bv@.len() - i,
        {
            r.push((bv[i], ordinal));
            ordinal += 1;
            i += 1;
        }
    }
    let mut j: usize = 0;
    while j < plan.len()
        invariant
            b.len() + plan@.len() <= i64::MAX,
            j <= plan@.len(),
            r@.len() == b.len() + j,
            ordinal == b.len() + j,
            forall|k: int| 0 <= k < r@.len() ==> (#[trigger] r@[k]).1 == k,
            forall|k: int| 0 <= k < b.len() ==> (#[trigger] r@[k]).0 == b[k],
            forall|k: int| 0 <= k < j ==> (#[trigger] r@[b.len() + k]).0 == plan@[k],
        decreases plan@.len() - j,
    {
        r.push((plan[j], ordinal));
        ordinal += 1;
        j += 1;
    }
    r
}

/// The source split an install works from: the directory holding the source
/// file and the file's name. A path without a final component is used whole
/// as its own name, and one without a parent as its own directory.
pub fn install_source_parts(source_abs_path: &str) -> (r: (String, String))
    ensures
        r.0@ == (match path_parent(source_abs_path@) {
            Some(p) => p,
            None => source_abs_path@,
        }),
        r.1@ == (match path_file_name(source_abs_path@) {
            Some(n) => n,
            None => source_abs_path@,
        }),
{
    source_parts_from(
        source_abs_path,
        crate::paths::parent(source_abs_path),
        crate::paths::file_name(source_abs_path),
    )
}

/// The source split, given the parent and final component `camino` reports
/// for the path: each falls back to the whole path when absent.
pub fn source_parts_from(path: &str, parent: Option<String>, name: Option<String>) -> (r: (String, String))
    ensures
        r.0@ == (match parent {
            Some(p) => p@,
            None => path@,
        }),
        r.1@ == (match name {
            Some(n) => n@,
            None => path@,
        }),
{
    let root = match parent {
        Some(p) => p,
        None => crate::text::from_str(path),
    };
    let file = match name {
        Some(n) => n,
        None => crate::text::from_str(path),
    };
    (root, file)
}

/// Where the install of one item stands. The steps run in this order:
/// persist the intent, install the file without replacing anything, mark the
/// intent installed, commit the journal; the first failing step stops it.
#[derive(Clone, Copy, PartialEq, Eq, Structural)]
pub enum InstallStage {
    PrepareIntent,
    Install,
    MarkInstalled,
    Journal,
    Done,
    Stopped,
}

pub open spec fn install_next_spec(stage: InstallStage, ok: bool) -> InstallStage {
    match stage {
        InstallStage::Done => InstallStage::Done,
        InstallStage::Stopped => InstallStage::Stopped,
        _ => if !ok {
            InstallStage::Stopped
        } else {
            match stage {
                InstallStage::PrepareIntent => InstallStage::Install,
                InstallStage::Install => InstallStage::MarkInstalled,
                InstallStage::MarkInstalled => InstallStage::Journal,
                _ => InstallStage::Done,
            }
        },
    }
}

/// The stage after `stage` ran and succeeded (`ok`) or failed.
pub fn install_next(stage: InstallStage, ok: bool) -> (next: InstallStage)
    ensures
        next == install_next_spec(stage, ok),
{
    match stage {
        InstallStage::Done => InstallStage::Done,
        InstallStage::Stopped => InstallStage::Stopped,
        InstallStage::PrepareIntent => if ok { InstallStage::Install } else { InstallStage::Stopped },
        InstallStage::Install => if ok { InstallStage::MarkInstalled } else { InstallStage::Stopped },
        InstallStage::MarkInstalled => if ok { InstallStage::Journal } else { InstallStage::Stopped },
        InstallStage::Journal => if ok { InstallStage::Done } else { InstallStage::Stopped },
    }
}

/// The stage reached from `stage` after steps with outcomes `outcomes`.
pub open spec fn install_run(stage: InstallStage, outcomes: Seq<bool>) -> InstallStage
    decreases outcomes.len(),
{
    if outcomes.len() == 0 {
        stage
    } else {
        install_run(install_next_spec(stage, outcomes[0]), outcomes.drop_first())
    }
}

proof fn lemma_install_terminal(stage: InstallStage, outcomes: Seq<bool>)
    requires
        stage == InstallStage::Done || stage == InstallStage::Stopped,
    ensures
        install_run(stage, outcomes) == stage,
    decreases outcomes.len(),
{
    if outcomes.len() > 0 {
        lemma_install_terminal(stage, outcomes.drop_first());
    }
}

/// An item is installed exactly when its four steps, taken in order from the
/// intent, all succeed; after the first failure nothing more runs, and it
/// stays stopped.
pub proof fn lemma_install_order(outcomes: Seq<bool>)
    ensures
        (install_run(InstallStage::PrepareIntent, outcomes) == InstallStage::Done) <==> (outcomes.len() >= 4
            && outcomes[0] && outcomes[1] && outcomes[2] && outcomes[3]),
        outcomes.len() >= 1 && !outcomes[0] ==> install_run(InstallStage::PrepareIntent, outcomes)
            == InstallStage::Stopped,
{
    let o = outcomes;
    if o.len() == 0 {
        return;
    }
    let s1 = install_next_spec(InstallStage::PrepareIntent, o[0]);
    let o1 = o.drop_first();
    assert(install_run(InstallStage::PrepareIntent, o) == install_run(s1, o1));
    if !o[0] {
        lemma_install_terminal(InstallStage::Stopped, o1);
        return;
    }
    assert(s1 == InstallStage::Install);
    if o1.len() == 0 {
        return;
    }
    assert(o1[0] == o[1]);
    let s2 = install_next_spec(s1, o1[0]);
    let o2 = o1.drop_first();
    assert(install_run(s1, o1) == install_run(s2, o2));
    if !o1[0] {
        lemma_install_terminal(InstallStage::Stopped, o2);
        return;
    }
    assert(s2 == InstallStage::MarkInstalled);
    if o2.len() == 0 {
        return;
    }
    assert(o2[0] == o[2]);
    let s3 = install_next_spec(s2, o2[0]);
    let o3 = o2.drop_first();
    assert(install_run(s2, o2) == install_run(s3, o3));
    if !o2[0] {
        lemma_install_terminal(InstallStage::Stopped, o3);
        return;
    }
    assert(s3 == InstallStage::Journal);
    if o3.len() == 0 {
        return;
    }
    assert(o3[0] == o[3]);
    let s4 = install_next_spec(s3, o3[0]);
    let o4 = o3.drop_first();
    assert(install_run(s3, o3) == install_run(s4, o4));
    if !o3[0] {
        lemma_install_terminal(InstallStage::Stopped, o4);
        return;
    }
    lemma_install_terminal(InstallStage::Done, o4);
}

pub open spec fn install_failure_text(item_public_id: Seq<char>, code: Seq<char>, message: Seq<char>) -> Seq<
    char,
> {
    "install failed for item "@ + item_public_id + ": "@ + code + " \u{2014} "@ + message
}

/// The refusal an item's filesystem install failure becomes: a path conflict
/// naming the item, the installer's failure code and its message.
pub fn install_failure(item_public_id: &str, code: &str, message: &str) -> (e: ContractError)
    ensures
        e.code == ErrorCode::ProjectUpdateViewPathConflict,
        e.message@ == install_failure_text(item_public_id@, code@, message@),
        e.severity == ErrorSeverity::Blocking,
        !e.retryable,
{
    let mut m = String::new();
    push_str(&mut m, "install failed for item ");
    push_str(&mut m, item_public_id);
    push_str(&mut m, ": ");
    push_str(&mut m, code);
    push_str(&mut m, " \u{2014} ");
    push_str(&mut m, message);
    proof {
        assert(m@ =~= install_failure_text(item_public_id@, code@, message@));
    }
    ContractError::blocking(ErrorCode::ProjectUpdateViewPathConflict, m)
}

} // verus!
