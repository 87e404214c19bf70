//! Partial repair of array-valued settings.
//!
//! When a stored array setting fails validation, the entries that are fine on
//! their own are worth keeping: they are user knowledge no scan can recover.
//! The first entry with a given id survives; later duplicates and entries that
//! fail on their own are dropped.
use vstd::prelude::*;
use crate::order::{contains_text, lemma_text_set_push, text_set};

verus! {

/// What repair needs to know of one stored entry: its `id` (when it has a
/// string id) and whether it passes the key's validation on its own.
pub struct SettingEntry {
    pub id: Option<String>,
    pub valid_alone: bool,
}

/// The split of an invalid array setting: positions of the entries kept, in
/// stored order, and of the entries discarded.
pub struct Salvage {
    pub kept: Vec<usize>,
    pub dropped: Vec<usize>,
}

/// The split of the first `n` entries: kept positions, dropped positions,
/// and the ids of the kept entries.
pub open spec fn split_prefix(entries: Seq<SettingEntry>, n: nat) -> (Seq<usize>, Seq<usize>, Set<Seq<char>>)
    decreases n,
{
    if n == 0 {
        (Seq::empty(), Seq::empty(), Set::empty())
    } else {
        let (k, d, ids) = split_prefix(entries, (n - 1) as nat);
        let e = entries[n - 1];
        let dup = e.id is Some && ids.contains(e.id->0@);
        if dup || !e.valid_alone {
            (k, d.push((n - 1) as usize), ids)
        } else {
            (k.push((n - 1) as usize), d, if e.id is Some { ids.insert(e.id->0@) } else { ids })
        }
    }
}

/// The split of all entries.
pub open spec fn split_of(entries: Seq<SettingEntry>) -> (Seq<usize>, Seq<usize>) {
    let (k, d, _) = split_prefix(entries, entries.len());
    (k, d)
}

/// Split the entries of an invalid array setting.
pub fn salvage_split(entries: &Vec<SettingEntry>) -> (r: Salvage)
    requires
        entries@.len() <= usize::MAX,
    ensures
        (r.kept@, r.dropped@) == split_of(entries@),
        forall|i: int|
            0 <= i < entries@.len() ==> (r.kept@.contains(i as usize) <==> #[trigger] keeps_entry(
                entries@,
                r.kept@,
                i,
            )),
        forall|i: int|
            0 <= i < entries@.len() ==> (r.dropped@.contains(i as usize) <==> !#[trigger] keeps_entry(
                entries@,
                r.kept@,
                i,
            )),
{
    proof {
        lemma_split_keeps_each_valid_new_entry(entries@, entries@.len());
        lemma_split_drops_the_rest(entries@, entries@.len());
    }
    let mut kept: Vec<usize> = Vec::new();
    let mut dropped: Vec<usize> = Vec::new();
    let mut ids: Vec<String> = Vec::new();
    let mut i: usize = 0;
    while i < entries.len()
        invariant
            i <= entries@.len(),
            split_prefix(entries@, i as nat) == (kept@, dropped@, text_set(ids@)),
        decreases entries@.len() - i,
    {
        let e = &entries[i];
        let dup = match &e.id {
            Some(id) => contains_text(&ids, id.as_str()),
            None => false,
        };
        if dup || !e.valid_alone {
            dropped.push(i);
        } else {
            kept.push(i);
            if let Some(id) = &e.id {
                let c = id.clone();
                proof {
                    lemma_text_set_push(ids@, c);
                }
                ids.push(c);
            }
        }
        i += 1;
    }
    Salvage { kept, dropped }
}

/// The first `n` entries are split into kept and dropped positions, both in
/// increasing order, together naming each position once.
pub proof fn lemma_split_partitions(entries: Seq<SettingEntry>, n: nat)
    requires
        n <= entries.len(),
        n <= usize::MAX,
    ensures
        ({
            let (k, d, _) = split_prefix(entries, n);
            &&& k.len() + d.len() == n
            &&& forall|a: int, b: int| 0 <= a < b < k.len() ==> k[a] < k[b]
            &&& forall|a: int, b: int| 0 <= a < b < d.len() ==> d[a] < d[b]
            &&& forall|a: int| 0 <= a < k.len() ==> k[a] < n
            &&& forall|a: int| 0 <= a < d.len() ==> d[a] < n
            &&& forall|i: usize|
                #![trigger k.contains(i)]
                #![trigger d.contains(i)]
                i < n ==> (k.contains(i) || d.contains(i))
        }),
    decreases n,
{
    if n > 0 {
        lemma_split_partitions(entries, (n - 1) as nat);
        let (k0, d0, _) = split_prefix(entries, (n - 1) as nat);
        let (k, d, _) = split_prefix(entries, n);
        assert forall|i: usize|
            #![trigger k.contains(i)]
            #![trigger d.contains(i)]
            i < n implies (k.contains(i) || d.contains(i)) by {
            if i < n - 1 {
                if k0.contains(i) {
                    let a = choose|a: int| 0 <= a < k0.len() && k0[a] == i;
                    assert(k[a] == i);
                } else {
                    assert(d0.contains(i));
                    let a = choose|a: int| 0 <= a < d0.len() && d0[a] == i;
                    assert(d[a] == i);
                }
            } else {
                if k.len() > k0.len() {
                    assert(k[k.len() - 1] == i);
                } else {
                    assert(d[d.len() - 1] == i);
                }
            }
        }
    }
}

/// Every kept entry passes on its own, and no two kept entries share an id.
pub proof fn lemma_kept_entries_valid_and_unique(entries: Seq<SettingEntry>, n: nat)
    requires
        n <= entries.len(),
        n <= usize::MAX,
    ensures
        ({
            let (k, _, ids) = split_prefix(entries, n);
            &&& forall|a: int| 0 <= a < k.len() ==> k[a] < n && entries[k[a] as int].valid_alone
            &&& forall|a: int|
                0 <= a < k.len() && (#[trigger] entries[k[a] as int]).id is Some ==> ids.contains(
                    entries[k[a] as int].id->0@,
                )
            &&& forall|a: int, b: int|
                0 <= a < b < k.len() && entries[k[a] as int].id is Some && entries[k[b] as int].id is Some
                    ==> entries[k[a] as int].id->0@ != entries[k[b] as int].id->0@
        }),
    decreases n,
{
    if n > 0 {
        lemma_kept_entries_valid_and_unique(entries, (n - 1) as nat);
        let (k0, _, ids0) = split_prefix(entries, (n - 1) as nat);
        let (k, _, ids) = split_prefix(entries, n);
        if k.len() > k0.len() {
            let e = entries[n - 1];
            assert(k[k.len() - 1] == (n - 1) as usize);
            assert forall|a: int| 0 <= a < k.len() && (#[trigger] entries[k[a] as int]).id is Some implies ids.contains(
                entries[k[a] as int].id->0@,
            ) by {
                if a < k0.len() {
                    assert(k[a] == k0[a]);
                }
            }
            assert forall|a: int, b: int|
                0 <= a < b < k.len() && entries[k[a] as int].id is Some && entries[k[b] as int].id is Some
                    implies entries[k[a] as int].id->0@ != entries[k[b] as int].id->0@ by {
                if b == k.len() - 1 {
                    assert(k[a] == k0[a]);
                    assert(ids0.contains(entries[k0[a] as int].id->0@));
                } else {
                    assert(k[a] == k0[a] && k[b] == k0[b]);
                }
            }
        }
    }
}

/// Whether one of the first `i` entries is among the kept positions `k` and
/// has the id `s`.
pub open spec fn id_kept_before(entries: Seq<SettingEntry>, k: Seq<usize>, i: int, s: Seq<char>) -> bool {
    exists|j: int|
        0 <= j < i && #[trigger] k.contains(j as usize) && entries[j].id is Some && entries[j].id->0@
            == s
}

/// Whether entry `i` is worth keeping given the kept positions `k`: it passes
/// on its own and no earlier kept entry has its id.
pub open spec fn keeps_entry(entries: Seq<SettingEntry>, k: Seq<usize>, i: int) -> bool {
    entries[i].valid_alone && !(entries[i].id is Some && id_kept_before(
        entries,
        k,
        i,
        entries[i].id->0@,
    ))
}

/// The ids collected while splitting are those of the kept entries, and a
/// later step never changes whether an earlier position is kept.
proof fn lemma_split_ids_are_kept_ids(entries: Seq<SettingEntry>, n: nat)
    requires
        n <= entries.len(),
        n <= usize::MAX,
    ensures
        ({
            let (k, _, ids) = split_prefix(entries, n);
            &&& forall|s: Seq<char>| #[trigger] ids.contains(s) <==> id_kept_before(entries, k, n as int, s)
            &&& forall|a: int| 0 <= a < k.len() ==> k[a] < n
        }),
    decreases n,
{
    lemma_split_partitions(entries, n);
    if n > 0 {
        let m = (n - 1) as nat;
        lemma_split_ids_are_kept_ids(entries, m);
        lemma_split_partitions(entries, m);
        let (k0, _, ids0) = split_prefix(entries, m);
        let (k, _, ids) = split_prefix(entries, n);
        lemma_kept_prefix_stable(entries, n);
        assert forall|s: Seq<char>| #[trigger] ids.contains(s) <==> id_kept_before(entries, k, n as int, s) by {
            if ids.contains(s) {
                if ids0.contains(s) {
                    let j = choose|j: int|
                        0 <= j < m && #[trigger] k0.contains(j as usize) && entries[j].id is Some
                            && entries[j].id->0@ == s;
                    assert(k.contains(j as usize));
                } else {
                    assert(k.len() > k0.len());
                    assert(k[k.len() - 1] == m as usize);
                    assert(k.contains(m as usize));
                }
            }
            if id_kept_before(entries, k, n as int, s) {
                let j = choose|j: int|
                    0 <= j < n && #[trigger] k.contains(j as usize) && entries[j].id is Some
                        && entries[j].id->0@ == s;
                if j < m {
                    assert(k0.contains(j as usize));
                    assert(id_kept_before(entries, k0, m as int, s));
                } else {
                    if k.len() == k0.len() {
                        assert(k0.contains(m as usize));
                        let a = choose|a: int| 0 <= a < k0.len() && k0[a] == m as usize;
                        assert(k0[a] < m);
                    }
                }
            }
        }
    }
}

/// Step `n` of the split only decides position `n - 1`: whether an earlier
/// position is kept stays as the split of the first `n - 1` entries left it.
proof fn lemma_kept_prefix_stable(entries: Seq<SettingEntry>, n: nat)
    requires
        0 < n <= entries.len(),
        n <= usize::MAX,
    ensures
        ({
            let (k0, _, _) = split_prefix(entries, (n - 1) as nat);
            let (k, _, _) = split_prefix(entries, n);
            &&& forall|j: int|
                #![trigger k.contains(j as usize)]
                #![trigger k0.contains(j as usize)]
                0 <= j < n - 1 ==> (k.contains(j as usize) <==> k0.contains(j as usize))
            &&& k.len() == k0.len() || k == k0.push((n - 1) as usize)
        }),
{
    let (k0, _, _) = split_prefix(entries, (n - 1) as nat);
    let (k, _, _) = split_prefix(entries, n);
    if k.len() != k0.len() {
        assert forall|j: int|
            #![trigger k.contains(j as usize)]
            #![trigger k0.contains(j as usize)]
            0 <= j < n - 1 implies (k.contains(j as usize) <==> k0.contains(j as usize)) by {
            if k.contains(j as usize) {
                let a = choose|a: int| 0 <= a < k.len() && k[a] == j as usize;
                assert(a < k0.len());
                assert(k0[a] == j as usize);
            }
            if k0.contains(j as usize) {
                let a = choose|a: int| 0 <= a < k0.len() && k0[a] == j as usize;
                assert(k[a] == j as usize);
            }
        }
    }
}

/// Completeness and soundness of the split: an entry is kept exactly when it
/// passes on its own and no earlier kept entry has its id. So every valid
/// entry whose id is new survives, however many came before it.
pub proof fn lemma_split_keeps_each_valid_new_entry(entries: Seq<SettingEntry>, n: nat)
    requires
        n <= entries.len(),
        n <= usize::MAX,
    ensures
        ({
            let (k, _, _) = split_prefix(entries, n);
            forall|i: int| 0 <= i < n ==> (k.contains(i as usize) <==> #[trigger] keeps_entry(entries, k, i))
        }),
    decreases n,
{
    if n > 0 {
        let m = (n - 1) as nat;
        lemma_split_keeps_each_valid_new_entry(entries, m);
        lemma_split_ids_are_kept_ids(entries, m);
        lemma_kept_prefix_stable(entries, n);
        let (k0, _, ids0) = split_prefix(entries, m);
        let (k, _, _) = split_prefix(entries, n);
        assert forall|i: int| 0 <= i < n implies (k.contains(i as usize) <==> #[trigger] keeps_entry(
            entries,
            k,
            i,
        )) by {
            let e = entries[i];
            if e.id is Some {
                let s = e.id->0@;
                if id_kept_before(entries, k, i, s) {
                    let j = choose|j: int|
                        0 <= j < i && #[trigger] k.contains(j as usize) && entries[j].id is Some
                            && entries[j].id->0@ == s;
                    assert(k0.contains(j as usize));
                    assert(id_kept_before(entries, k0, i, s));
                }
                if id_kept_before(entries, k0, i, s) {
                    let j = choose|j: int|
                        0 <= j < i && #[trigger] k0.contains(j as usize) && entries[j].id is Some
                            && entries[j].id->0@ == s;
                    assert(k.contains(j as usize));
                    assert(id_kept_before(entries, k, i, s));
                }
            }
            if i < m {
                assert(keeps_entry(entries, k0, i) == keeps_entry(entries, k, i));
            } else {
                if k0.contains(m as usize) {
                    let a = choose|a: int| 0 <= a < k0.len() && k0[a] == m as usize;
                    assert(k0[a] < m);
                }
                if e.id is Some {
                    assert(ids0.contains(e.id->0@) == id_kept_before(entries, k0, m as int, e.id->0@));
                }
                if k.len() != k0.len() {
                    assert(k[k.len() - 1] == m as usize);
                } else {
                    if k.contains(m as usize) {
                        let a = choose|a: int| 0 <= a < k.len() && k[a] == m as usize;
                        assert(k0[a] == m as usize);
                    }
                }
            }
        }
    }
}

/// Each position is dropped exactly when it is not kept.
pub proof fn lemma_split_drops_the_rest(entries: Seq<SettingEntry>, n: nat)
    requires
        n <= entries.len(),
        n <= usize::MAX,
    ensures
        ({
            let (k, d, _) = split_prefix(entries, n);
            forall|i: int|
                #![trigger d.contains(i as usize)]
                #![trigger k.contains(i as usize)]
                0 <= i < n ==> (d.contains(i as usize) <==> !k.contains(i as usize))
        }),
    decreases n,
{
    if n > 0 {
        let m = (n - 1) as nat;
        lemma_split_drops_the_rest(entries, m);
        lemma_split_partitions(entries, m);
        lemma_split_partitions(entries, n);
        lemma_kept_prefix_stable(entries, n);
        let (k0, d0, _) = split_prefix(entries, m);
        let (k, d, _) = split_prefix(entries, n);
        assert forall|i: int|
            #![trigger d.contains(i as usize)]
            #![trigger k.contains(i as usize)]
            0 <= i < n implies (d.contains(i as usize) <==> !k.contains(i as usize)) by {
            if d.contains(i as usize) && i < m {
                let a = choose|a: int| 0 <= a < d.len() && d[a] == i as usize;
                if a < d0.len() {
                    assert(d0[a] == i as usize);
                    assert(d0.contains(i as usize));
                } else {
                    assert(d.len() != d0.len());
                    assert(d[a] == m as usize);
                }
            }
            if d0.contains(i as usize) && i < m {
                let a = choose|a: int| 0 <= a < d0.len() && d0[a] == i as usize;
                assert(d[a] == i as usize);
            }
            if i == m {
                if k0.contains(m as usize) {
                    let a = choose|a: int| 0 <= a < k0.len() && k0[a] == m as usize;
                    assert(k0[a] < m);
                }
                if d0.contains(m as usize) {
                    let a = choose|a: int| 0 <= a < d0.len() && d0[a] == m as usize;
                    assert(d0[a] < m);
                }
                if k.len() != k0.len() {
                    assert(k[k.len() - 1] == m as usize);
                    assert(d == d0);
                } else {
                    assert(d[d.len() - 1] == m as usize);
                    if k.contains(m as usize) {
                        let a = choose|a: int| 0 <= a < k.len() && k[a] == m as usize;
                        assert(k0[a] == m as usize);
                    }
                }
            }
        }
    }
}

/// Split an invalid array-valued setting into the entries worth keeping and
/// the entries to discard. `None` — reset the whole key instead — unless the
/// key's rule is one whose entries are independently valid
/// (`rule_salvageable`), the stored value is an array (`entries` is
/// `Some`), at least one entry is dropped, and the kept remainder passes the
/// key's own validation (`kept_passes`, asked only of the remainder).
pub fn salvage<F: Fn(&Vec<usize>) -> bool>(
    rule_salvageable: bool,
    entries: Option<&Vec<SettingEntry>>,
    kept_passes: F,
) -> (r: Option<Salvage>)
    requires
        forall|k: &Vec<usize>| kept_passes.requires((k,)),
        entries matches Some(e) ==> e@.len() <= usize::MAX,
    ensures
        !rule_salvageable || entries is None ==> r is None,
        rule_salvageable && entries is Some ==> ({
            let (k, d) = split_of(entries->0@);
            &&& r matches Some(s) ==> s.kept@ == k && s.dropped@ == d && d.len() > 0 && kept_passes.ensures(
                (&s.kept,),
                true,
            )
            &&& r is None ==> d.len() == 0 || exists|v: &Vec<usize>| v@ == k && kept_passes.ensures((v,), false)
        }),
{
    if !rule_salvageable {
        return None;
    }
    let entries = match entries {
        Some(e) => e,
        None => return None,
    };
    let split = salvage_split(entries);
    if split.dropped.len() == 0 {
        return None;
    }
    if !kept_passes(&split.kept) {
        return None;
    }
    Some(split)
}

} // verus!
