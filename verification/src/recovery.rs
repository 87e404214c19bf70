//! Boot reconciliation of filesystem-mutation intents left by crashed plans.
//!
//! Every non-terminal item of a crashed plan has its source and destination
//! resolved (the same resolution the executor uses), the filesystem is probed,
//! and the verdict decides the item's fate: a visible mutation heals the item
//! to `succeeded`, no visible effect leaves it for the user-approved resume,
//! and an inconsistent or unresolvable state marks it `failed` for review.
use vstd::prelude::*;
use crate::order::{sorted_insert, strictly_sorted, text_set};
use crate::paths::path_join;
use crate::text::str_eq;

verus! {

/// Outcome of the boot reconciliation pass.
pub struct ReconcileReport {
    /// Items healed to `succeeded`.
    pub healed: usize,
    /// Items left for the user-approved resume path.
    pub left_for_resume: usize,
    /// Plans holding at least one item whose filesystem state is ambiguous,
    /// each once, in text order.
    pub ambiguous_plan_ids: Vec<String>,
}

impl ReconcileReport {
    /// Whether any item requires the user's explicit resume/repair decision.
    pub fn needs_user_review(&self) -> (r: bool)
        ensures
            r == (self.ambiguous_plan_ids@.len() > 0),
    {
        self.ambiguous_plan_ids.len() > 0
    }
}

/// The filesystem effect a plan action has, which decides how it is probed.
#[derive(PartialEq, Eq, Structural)]
pub enum MutationShape {
    Relocate,
    Remove,
    Create,
    NoEffect,
}

pub open spec fn shape_of(action: Seq<char>) -> MutationShape {
    if action == "move"@ || action == "archive"@ {
        MutationShape::Relocate
    } else if action == "delete"@ || action == "trash"@ {
        MutationShape::Remove
    } else if action == "mkdir"@ || action == "link"@ || action == "write_manifest"@ {
        MutationShape::Create
    } else {
        MutationShape::NoEffect
    }
}

/// Map a stored action to its filesystem-effect shape: `move`/`archive`
/// relocate, `delete`/`trash` remove, `mkdir`/`link`/`write_manifest` create,
/// anything else (`catalogue` included) has no effect to probe.
pub fn shape_for(action: &str) -> (s: MutationShape)
    ensures
        s == shape_of(action@),
{
    if str_eq(action, "move") || str_eq(action, "archive") {
        MutationShape::Relocate
    } else if str_eq(action, "delete") || str_eq(action, "trash") {
        MutationShape::Remove
    } else if str_eq(action, "mkdir") || str_eq(action, "link") || str_eq(action, "write_manifest") {
        MutationShape::Create
    } else {
        MutationShape::NoEffect
    }
}

/// A non-terminal item of a crashed plan.
pub struct UnreconciledItem {
    pub id: String,
    pub plan_id: String,
    pub action: String,
    pub from_root_id: Option<String>,
    pub from_relative_path: String,
    pub to_root_id: Option<String>,
    pub to_relative_path: String,
    pub archive_path: Option<String>,
}

/// The root ids an item refers to, source first.
pub open spec fn item_roots(item: UnreconciledItem) -> Seq<Seq<char>> {
    (match item.from_root_id {
        Some(r) => seq![r@],
        None => Seq::empty(),
    }) + (match item.to_root_id {
        Some(r) => seq![r@],
        None => Seq::empty(),
    })
}

/// Root `r` is referred to by one of the first `n` items.
pub open spec fn referred(items: Seq<UnreconciledItem>, n: int, r: Seq<char>) -> bool {
    exists|k: int| 0 <= k < n && #[trigger] item_roots(items[k]).contains(r)
}

/// Root `r` is held by `v`.
pub open spec fn holds(v: Seq<String>, r: Seq<char>) -> bool {
    exists|i: int| 0 <= i < v.len() && #[trigger] v[i]@ == r
}

/// Every root id referred to by `items`, each once: the roots to resolve
/// before classifying.
pub fn roots_to_resolve(items: &Vec<UnreconciledItem>) -> (roots: Vec<String>)
    ensures
        distinct_texts(roots@),
        forall|r: Seq<char>| holds(roots@, r) <==> referred(items@, items@.len() as int, r),
{
    let mut roots: Vec<String> = Vec::new();
    let mut k: usize = 0;
    while k < items.len()
        invariant
            k <= items@.len(),
            distinct_texts(roots@),
            forall|r: Seq<char>| holds(roots@, r) <==> referred(items@, k as int, r),
        decreases items@.len() - k,
    {
        let item = &items[k];
        let ghost before = roots@;
        if let Some(r) = &item.from_root_id {
            add_unique(&mut roots, r.as_str());
        }
        let ghost middle = roots@;
        if let Some(r) = &item.to_root_id {
            add_unique(&mut roots, r.as_str());
        }
        proof {
            let ir = item_roots(items@[k as int]);
            assert forall|r: Seq<char>| holds(roots@, r) <==> referred(items@, k + 1, r) by {
                if holds(roots@, r) {
                    let i = choose|i: int| 0 <= i < roots@.len() && #[trigger] roots@[i]@ == r;
                    if i < before.len() {
                        assert(before[i]@ == r);
                        assert(holds(before, r));
                        let kk = choose|kk: int| 0 <= kk < k && #[trigger] item_roots(items@[kk]).contains(r);
                        assert(item_roots(items@[kk]).contains(r));
                    } else {
                        if i < middle.len() {
                            assert(ir[0] == r);
                        } else {
                            assert(ir[ir.len() - 1] == r);
                        }
                        assert(item_roots(items@[k as int]).contains(r));
                    }
                    assert(referred(items@, k + 1, r));
                }
                if referred(items@, k + 1, r) {
                    let kk = choose|kk: int| 0 <= kk < k + 1 && #[trigger] item_roots(items@[kk]).contains(r);
                    if kk < k {
                        assert(referred(items@, k as int, r));
                        assert(holds(before, r));
                        let i0 = choose|i: int| 0 <= i < before.len() && #[trigger] before[i]@ == r;
                        assert(roots@[i0]@ == r);
                    } else {
                        let idx = choose|idx: int| 0 <= idx < ir.len() && ir[idx] == r;
                        if item.from_root_id is Some && idx == 0 {
                            let i0 = choose|i: int| 0 <= i < middle.len() && #[trigger] middle[i]@ == r;
                            assert(roots@[i0]@ == r);
                        } else {
                            assert(item.to_root_id is Some);
                        }
                    }
                }
            }
        }
        k += 1;
    }
    roots
}

/// No two strings of `v` are equal.
pub open spec fn distinct_texts(v: Seq<String>) -> bool {
    forall|i: int, j: int| 0 <= i < j < v.len() ==> #[trigger] v[i]@ != #[trigger] v[j]@
}

/// Append `x` to `v` unless it is already there.
fn add_unique(v: &mut Vec<String>, x: &str)
    requires
        distinct_texts(old(v)@),
    ensures
        distinct_texts(final(v)@),
        final(v)@.len() >= old(v)@.len(),
        forall|i: int| 0 <= i < old(v)@.len() ==> final(v)@[i] == old(v)@[i],
        exists|i: int| 0 <= i < final(v)@.len() && #[trigger] final(v)@[i]@ == x@,
        forall|i: int| old(v)@.len() <= i < final(v)@.len() ==> #[trigger] final(v)@[i]@ == x@,
{
    let mut i: usize = 0;
    while i < v.len()
        invariant
            i <= v@.len(),
            v@ == old(v)@,
            distinct_texts(old(v)@),
            forall|k: int| 0 <= k < i ==> v@[k]@ != x@,
        decreases v@.len() - i,
    {
        if str_eq(v[i].as_str(), x) {
            assert(v@[i as int]@ == x@);
            return;
        }
        i += 1;
    }
    v.push(crate::text::from_str(x));
    assert(v@[v@.len() - 1]@ == x@);
}

/// Root paths resolved so far, keyed by root id (each id at most once).
pub struct RootMap {
    roots: Vec<(String, String)>,
}

impl RootMap {
    pub closed spec fn pairs(&self) -> Seq<(Seq<char>, Seq<char>)> {
        self.roots@.map_values(|p: (String, String)| (p.0@, p.1@))
    }

    pub closed spec fn wf(&self) -> bool {
        forall|i: int, j: int| 0 <= i < j < self.roots@.len() ==> self.roots@[i].0@ != self.roots@[j].0@
    }

    /// The resolved path of root `id`, if it resolved.
    pub open spec fn lookup(&self, id: Seq<char>) -> Option<Seq<char>> {
        if exists|i: int| 0 <= i < self.pairs().len() && self.pairs()[i].0 == id {
            Some(self.pairs()[choose|i: int| 0 <= i < self.pairs().len() && self.pairs()[i].0 == id].1)
        } else {
            None
        }
    }

    pub fn new() -> (m: RootMap)
        ensures
            m.wf(),
            forall|id: Seq<char>| m.lookup(id) is None,
    {
        let m = RootMap { roots: Vec::new() };
        assert(m.pairs() =~= Seq::<(Seq<char>, Seq<char>)>::empty());
        m
    }

    /// Record the resolved path of a root not yet in the map.
    pub fn insert(&mut self, id: String, path: String)
        requires
            old(self).wf(),
            old(self).lookup(id@) is None,
        ensures
            final(self).wf(),
            final(self).lookup(id@) == Some(path@),
            forall|other: Seq<char>| other != id@ ==> final(self).lookup(other) == old(self).lookup(other),
    {
        let ghost old_pairs = self.pairs();
        proof {
            assert forall|i: int| 0 <= i < self.roots@.len() implies self.roots@[i].0@ != id@ by {
                assert(self.pairs()[i].0 == self.roots@[i].0@);
            }
        }
        self.roots.push((id, path));
        proof {
            let n = self.pairs();
            assert(n.len() == old_pairs.len() + 1);
            assert(forall|i: int| 0 <= i < old_pairs.len() ==> n[i] == old_pairs[i]);
            assert(n[old_pairs.len() as int].0 == id@);
            assert forall|i: int| 0 <= i < n.len() && n[i].0 == id@ implies i == old_pairs.len() by {
                if i < old_pairs.len() {
                    assert(self.roots@[i].0@ == n[i].0);
                }
            }
        }
    }

    /// The resolved path of `id`.
    pub fn get(&self, id: &str) -> (r: Option<&String>)
        requires
            self.wf(),
        ensures
            r matches Some(p) ==> self.lookup(id@) == Some(p@),
            r is None ==> self.lookup(id@) is None,
    {
        let mut i: usize = 0;
        while i < self.roots.len()
            invariant
                i <= self.roots@.len(),
                self.wf(),
                forall|k: int| 0 <= k < i ==> self.roots@[k].0@ != id@,
            decreases self.roots@.len() - i,
        {
            if str_eq(self.roots[i].0.as_str(), id) {
                proof {
                    let ps = self.pairs();
                    assert(ps[i as int].0 == id@);
                    let c = choose|c: int| 0 <= c < ps.len() && ps[c].0 == id@;
                    assert(ps[c] == (self.roots@[c].0@, self.roots@[c].1@));
                    assert(ps[i as int] == (self.roots@[i as int].0@, self.roots@[i as int].1@));
                    if c != i {
                        assert(self.roots@[c].0@ == self.roots@[i as int].0@);
                    }
                }
                return Some(&self.roots[i].1);
            }
            i += 1;
        }
        proof {
            assert forall|k: int| 0 <= k < self.pairs().len() implies self.pairs()[k].0 != id@ by {
                assert(self.pairs()[k].0 == self.roots@[k].0@);
            }
        }
        None
    }
}

/// A root-relative path resolved against its root: nothing when the path is
/// empty or the root did not resolve.
pub open spec fn resolved(map: RootMap, root_id: Option<String>, relative: Seq<char>) -> Option<Seq<char>> {
    if relative.len() == 0 {
        None
    } else {
        match root_id {
            None => None,
            Some(rid) => match map.lookup(rid@) {
                None => None,
                Some(root) => Some(path_join(root, relative)),
            },
        }
    }
}

/// Resolve a root-relative path (before lexical normalization).
pub fn resolve(map: &RootMap, root_id: &Option<String>, relative: &str) -> (r: Option<String>)
    requires
        map.wf(),
    ensures
        r matches Some(p) ==> resolved(*map, *root_id, relative@) == Some(p@),
        r is None ==> resolved(*map, *root_id, relative@) is None,
{
    if relative.is_empty() {
        return None;
    }
    match root_id {
        None => None,
        Some(rid) => match map.get(rid.as_str()) {
            None => None,
            Some(root) => Some(crate::paths::join(root.as_str(), relative)),
        },
    }
}

/// An archive item's destination: its `archive_path`, resolved against the
/// source root when one is set and resolves, used as stored otherwise;
/// nothing when the archive path is absent or empty.
pub open spec fn archive_destination(map: RootMap, item: UnreconciledItem) -> Option<Seq<char>> {
    match item.archive_path {
        None => None,
        Some(a) => if a@.len() == 0 {
            None
        } else {
            match item.from_root_id {
                Some(rid) => match map.lookup(rid@) {
                    Some(root) => Some(path_join(root, a@)),
                    None => Some(a@),
                },
                None => Some(a@),
            }
        },
    }
}

/// Resolve an archive item's destination (before lexical normalization).
pub fn resolve_archive(map: &RootMap, item: &UnreconciledItem) -> (r: Option<String>)
    requires
        map.wf(),
    ensures
        r matches Some(p) ==> archive_destination(*map, *item) == Some(p@),
        r is None ==> archive_destination(*map, *item) is None,
{
    let archive = match &item.archive_path {
        None => return None,
        Some(a) => a,
    };
    if archive.as_str().is_empty() {
        return None;
    }
    let root = match &item.from_root_id {
        Some(rid) => map.get(rid.as_str()),
        None => None,
    };
    match root {
        Some(root) => Some(crate::paths::join(root.as_str(), archive.as_str())),
        None => Some(archive.clone()),
    }
}

/// The source and destination an item's verdict is probed on. An archive
/// stores its destination in `archive_path`; other actions use the
/// destination root and relative path.
pub fn item_paths(map: &RootMap, item: &UnreconciledItem) -> (r: (Option<String>, Option<String>))
    requires
        map.wf(),
    ensures
        r.0 matches Some(p) ==> resolved(*map, item.from_root_id, item.from_relative_path@) == Some(p@),
        r.0 is None ==> resolved(*map, item.from_root_id, item.from_relative_path@) is None,
        item.action@ == "archive"@ ==> (r.1 matches Some(p) ==> archive_destination(*map, *item)
            == Some(p@)) && (r.1 is None ==> archive_destination(*map, *item) is None),
        item.action@ != "archive"@ ==> (r.1 matches Some(p) ==> resolved(
            *map,
            item.to_root_id,
            item.to_relative_path@,
        ) == Some(p@)) && (r.1 is None ==> resolved(*map, item.to_root_id, item.to_relative_path@) is None),
{
    let source = resolve(map, &item.from_root_id, item.from_relative_path.as_str());
    let destination = if str_eq(item.action.as_str(), "archive") {
        resolve_archive(map, item)
    } else {
        resolve(map, &item.to_root_id, item.to_relative_path.as_str())
    };
    (source, destination)
}

/// The filesystem verdict on one item.
#[derive(PartialEq, Eq, Structural)]
pub enum ReconcileVerdict {
    /// The mutation is visible on disk.
    Completed,
    /// No effect on disk.
    NotStarted,
    /// Inconsistent or unresolvable.
    Ambiguous,
}

/// The item-state rewrite a verdict calls for.
#[derive(PartialEq, Eq, Structural)]
pub enum ItemRewrite {
    /// `pending` → `succeeded`.
    Heal,
    /// Leave the item as it is.
    Keep,
    /// `pending` → `failed`, with the ambiguity reason.
    Fail,
}

/// Reason recorded on an item marked failed at boot.
pub const AMBIGUOUS_REASON: &'static str = "filesystem state ambiguous at boot; needs user resume/repair";

/// Running tally of a reconciliation pass.
pub struct ReconcileTally {
    healed: usize,
    left_for_resume: usize,
    ambiguous_items: usize,
    ambiguous_plan_ids: Vec<String>,
}

impl ReconcileTally {
    pub closed spec fn healed(&self) -> nat {
        self.healed as nat
    }

    pub closed spec fn left(&self) -> nat {
        self.left_for_resume as nat
    }

    pub closed spec fn ambiguous(&self) -> nat {
        self.ambiguous_items as nat
    }

    /// Plans with an ambiguous item.
    pub closed spec fn review_plans(&self) -> Set<Seq<char>> {
        text_set(self.ambiguous_plan_ids@)
    }

    pub closed spec fn wf(&self) -> bool {
        &&& strictly_sorted(self.ambiguous_plan_ids@)
        &&& (self.ambiguous_items == 0 <==> self.ambiguous_plan_ids@.len() == 0)
    }

    pub fn new() -> (t: ReconcileTally)
        ensures
            t.wf(),
            t.healed() == 0,
            t.left() == 0,
            t.ambiguous() == 0,
            t.review_plans().is_empty(),
    {
        let t = ReconcileTally {
            healed: 0,
            left_for_resume: 0,
            ambiguous_items: 0,
            ambiguous_plan_ids: Vec::new(),
        };
        proof {
            assert(text_set(t.ambiguous_plan_ids@) =~= Set::<Seq<char>>::empty());
        }
        t
    }

    /// Record one item's verdict; returns the rewrite to persist for it.
    pub fn record(&mut self, plan_id: &str, verdict: ReconcileVerdict) -> (w: ItemRewrite)
        requires
            old(self).wf(),
            old(self).healed() + old(self).left() + old(self).ambiguous() < usize::MAX,
        ensures
            final(self).wf(),
            final(self).healed() + final(self).left() + final(self).ambiguous() == old(self).healed()
                + old(self).left() + old(self).ambiguous() + 1,
            verdict == ReconcileVerdict::Completed ==> w == ItemRewrite::Heal && final(self).healed()
                == old(self).healed() + 1 && final(self).left() == old(self).left() && final(self).ambiguous()
                == old(self).ambiguous() && final(self).review_plans() == old(self).review_plans(),
            verdict == ReconcileVerdict::NotStarted ==> w == ItemRewrite::Keep && final(self).left()
                == old(self).left() + 1 && final(self).healed() == old(self).healed() && final(self).ambiguous()
                == old(self).ambiguous() && final(self).review_plans() == old(self).review_plans(),
            verdict == ReconcileVerdict::Ambiguous ==> w == ItemRewrite::Fail && final(self).ambiguous()
                == old(self).ambiguous() + 1 && final(self).healed() == old(self).healed() && final(self).left()
                == old(self).left() && final(self).review_plans() == old(self).review_plans().insert(plan_id@),
    {
        match verdict {
            ReconcileVerdict::Completed => {
                self.healed = self.healed + 1;
                ItemRewrite::Heal
            },
            ReconcileVerdict::NotStarted => {
                self.left_for_resume = self.left_for_resume + 1;
                ItemRewrite::Keep
            },
            ReconcileVerdict::Ambiguous => {
                self.ambiguous_items = self.ambiguous_items + 1;
                sorted_insert(&mut self.ambiguous_plan_ids, plan_id);
                proof {
                    assert(text_set(self.ambiguous_plan_ids@).contains(plan_id@));
                    if self.ambiguous_plan_ids@.len() == 0 {
                        assert(false);
                    }
                }
                ItemRewrite::Fail
            },
        }
    }

    /// The report of the pass: an item needs review exactly when some item
    /// was ambiguous.
    pub fn finish(self) -> (r: ReconcileReport)
        requires
            self.wf(),
        ensures
            r.healed == self.healed(),
            r.left_for_resume == self.left(),
            text_set(r.ambiguous_plan_ids@) == self.review_plans(),
            strictly_sorted(r.ambiguous_plan_ids@),
            (r.ambiguous_plan_ids@.len() > 0) == (self.ambiguous() > 0),
    {
        ReconcileReport {
            healed: self.healed,
            left_for_resume: self.left_for_resume,
            ambiguous_plan_ids: self.ambiguous_plan_ids,
        }
    }
}

/// The report of a pass with nothing to reconcile.
pub fn empty_report() -> (r: ReconcileReport)
    ensures
        r.healed == 0,
        r.left_for_resume == 0,
        r.ambiguous_plan_ids@.len() == 0,
{
    ReconcileReport { healed: 0, left_for_resume: 0, ambiguous_plan_ids: Vec::new() }
}

} // verus!
