//! Per-root frame-watcher registry and the decisions of its trigger tasks.
//!
//! One watcher entry per *attached* root. Attaching runs in two locked steps
//! with unlocked work (config read, path probe, watcher start) between them; a
//! detach that arrives while no entry exists leaves a tombstone, which the
//! finishing attach consumes instead of inserting a zombie entry.
use vstd::prelude::*;
use crate::text::str_eq;

verus! {

// ── Abstract registry ────────────────────────────────────────────────────────

/// The registry as sets of root ids: the attached roots, and the roots whose
/// detach arrived while their attach was in flight.
pub struct RegistryModel {
    pub attached: Set<Seq<char>>,
    pub tombstones: Set<Seq<char>>,
}

/// No root is both attached and tombstoned.
pub open spec fn model_wf(m: RegistryModel) -> bool {
    m.attached.disjoint(m.tombstones)
}

/// Outcome of the first locked step of an attach.
#[derive(PartialEq, Eq, Structural)]
pub enum AttachStart {
    /// The root is attached already: nothing to do.
    AlreadyAttached,
    /// Go on with the unlocked work (a stale tombstone was cleared).
    Proceed,
}

/// Outcome of the final locked step of an attach.
#[derive(PartialEq, Eq, Structural)]
pub enum AttachFinish {
    /// The new entry is now the root's entry.
    Inserted,
    /// A concurrent attach won: the new entry must be aborted.
    DiscardConcurrent,
    /// A detach arrived meanwhile: its tombstone is consumed and the new
    /// entry must be aborted.
    DiscardDetached,
}

/// Outcome of a detach.
#[derive(PartialEq, Eq, Structural)]
pub enum DetachOutcome {
    /// The root's entry was removed (and must be aborted).
    Removed,
    /// No entry: a tombstone now marks the detach for an in-flight attach.
    Tombstoned,
}

pub open spec fn begin_attach_model(m: RegistryModel, root: Seq<char>) -> (RegistryModel, AttachStart) {
    if m.attached.contains(root) {
        (m, AttachStart::AlreadyAttached)
    } else {
        (RegistryModel { attached: m.attached, tombstones: m.tombstones.remove(root) }, AttachStart::Proceed)
    }
}

pub open spec fn finish_attach_model(m: RegistryModel, root: Seq<char>) -> (RegistryModel, AttachFinish) {
    if m.attached.contains(root) {
        (m, AttachFinish::DiscardConcurrent)
    } else if m.tombstones.contains(root) {
        (
            RegistryModel { attached: m.attached, tombstones: m.tombstones.remove(root) },
            AttachFinish::DiscardDetached,
        )
    } else {
        (RegistryModel { attached: m.attached.insert(root), tombstones: m.tombstones }, AttachFinish::Inserted)
    }
}

pub open spec fn detach_model(m: RegistryModel, root: Seq<char>) -> (RegistryModel, DetachOutcome) {
    if m.attached.contains(root) {
        (RegistryModel { attached: m.attached.remove(root), tombstones: m.tombstones }, DetachOutcome::Removed)
    } else {
        (RegistryModel { attached: m.attached, tombstones: m.tombstones.insert(root) }, DetachOutcome::Tombstoned)
    }
}

/// Every registry step keeps attached roots and tombstones disjoint.
pub proof fn lemma_registry_steps_keep_disjoint(m: RegistryModel, root: Seq<char>)
    requires
        model_wf(m),
    ensures
        model_wf(begin_attach_model(m, root).0),
        model_wf(finish_attach_model(m, root).0),
        model_wf(detach_model(m, root).0),
{
}

/// A detach that lands between the two steps of an attach wins: the attach
/// discards its entry, the root ends detached, and no tombstone is left over.
pub proof fn lemma_detach_during_attach_wins(m: RegistryModel, root: Seq<char>)
    requires
        model_wf(m),
        !m.attached.contains(root),
    ensures
        ({
            let (m1, s) = begin_attach_model(m, root);
            let (m2, d) = detach_model(m1, root);
            let (m3, f) = finish_attach_model(m2, root);
            &&& s == AttachStart::Proceed
            &&& d == DetachOutcome::Tombstoned
            &&& f == AttachFinish::DiscardDetached
            &&& !m3.attached.contains(root)
            &&& !m3.tombstones.contains(root)
        }),
{
}

/// A detach with no attach in flight leaves a tombstone, but the next attach
/// clears it first, so a detach/attach cycle still attaches.
pub proof fn lemma_stale_tombstone_does_not_block_attach(m: RegistryModel, root: Seq<char>)
    requires
        model_wf(m),
        !m.attached.contains(root),
    ensures
        ({
            let (m1, d) = detach_model(m, root);
            let (m2, s) = begin_attach_model(m1, root);
            let (m3, f) = finish_attach_model(m2, root);
            &&& d == DetachOutcome::Tombstoned
            &&& s == AttachStart::Proceed
            &&& f == AttachFinish::Inserted
            &&& m3.attached.contains(root)
        }),
{
    assert(!m.attached.contains(root));
}

/// Attaching an attached root is a no-op, and detaching it removes it.
pub proof fn lemma_attach_idempotent_detach_removes(m: RegistryModel, root: Seq<char>)
    requires
        m.attached.contains(root),
    ensures
        begin_attach_model(m, root) == (m, AttachStart::AlreadyAttached),
        !detach_model(m, root).0.attached.contains(root),
        detach_model(m, root).1 == DetachOutcome::Removed,
{
}

// ── Executable registry ──────────────────────────────────────────────────────

/// Root ids held by a list of keys.
pub open spec fn key_set(keys: Seq<Seq<char>>) -> Set<Seq<char>> {
    Set::new(|x: Seq<char>| keys.contains(x))
}

pub open spec fn distinct(keys: Seq<Seq<char>>) -> bool {
    forall|i: int, j: int| 0 <= i < j < keys.len() ==> keys[i] != keys[j]
}

/// Registry state guarded by the registry lock: the entry of each attached
/// root, and the detach tombstones.
pub struct FrameWatcherRegistryInner<E> {
    entries: Vec<(String, E)>,
    detach_requested: Vec<String>,
}

proof fn lemma_remove_distinct(keys: Seq<Seq<char>>, i: int)
    requires
        distinct(keys),
        0 <= i < keys.len(),
    ensures
        distinct(keys.remove(i)),
        key_set(keys.remove(i)) == key_set(keys).remove(keys[i]),
{
    let r = keys.remove(i);
    assert forall|x: Seq<char>| key_set(r).contains(x) <==> key_set(keys).remove(keys[i]).contains(x) by {
        if r.contains(x) {
            let k = choose|k: int| 0 <= k < r.len() && r[k] == x;
            if k < i {
                assert(keys[k] == x);
            } else {
                assert(keys[k + 1] == x);
            }
        }
        if keys.contains(x) && x != keys[i] {
            let k = choose|k: int| 0 <= k < keys.len() && keys[k] == x;
            if k < i {
                assert(r[k] == x);
            } else {
                assert(r[k - 1] == x);
            }
        }
    }
    assert(key_set(r) =~= key_set(keys).remove(keys[i]));
}

proof fn lemma_push_distinct(keys: Seq<Seq<char>>, x: Seq<char>)
    requires
        distinct(keys),
        !keys.contains(x),
    ensures
        distinct(keys.push(x)),
        key_set(keys.push(x)) == key_set(keys).insert(x),
{
    let p = keys.push(x);
    assert forall|y: Seq<char>| key_set(p).contains(y) <==> key_set(keys).insert(x).contains(y) by {
        if p.contains(y) {
            let k = choose|k: int| 0 <= k < p.len() && p[k] == y;
            if k < keys.len() {
                assert(keys[k] == y);
            }
        }
        if keys.contains(y) {
            let k = choose|k: int| 0 <= k < keys.len() && keys[k] == y;
            assert(p[k] == y);
        }
        if y == x {
            assert(p[keys.len() as int] == y);
        }
    }
    assert(key_set(p) =~= key_set(keys).insert(x));
}

/// The entry held for each root of an entry list (the last one wins; the
/// registry never holds a root twice).
pub open spec fn entry_map<E>(s: Seq<(String, E)>) -> Map<Seq<char>, E>
    decreases s.len(),
{
    if s.len() == 0 {
        Map::empty()
    } else {
        entry_map(s.drop_last()).insert(s.last().0@, s.last().1)
    }
}

pub open spec fn keys_of<E>(s: Seq<(String, E)>) -> Seq<Seq<char>> {
    s.map_values(|e: (String, E)| e.0@)
}

proof fn lemma_entry_map_dom<E>(s: Seq<(String, E)>)
    ensures
        entry_map(s).dom() == key_set(keys_of(s)),
    decreases s.len(),
{
    if s.len() > 0 {
        lemma_entry_map_dom(s.drop_last());
        assert(keys_of(s.drop_last()) =~= keys_of(s).drop_last());
        assert forall|x: Seq<char>| entry_map(s).dom().contains(x) <==> key_set(keys_of(s)).contains(x) by {
            let k = keys_of(s);
            if k.contains(x) {
                let j = choose|j: int| 0 <= j < k.len() && k[j] == x;
                if j < k.len() - 1 {
                    assert(k.drop_last()[j] == x);
                }
            }
            if k.drop_last().contains(x) {
                let j = choose|j: int| 0 <= j < k.drop_last().len() && k.drop_last()[j] == x;
                assert(k[j] == x);
            }
            if x == s.last().0@ {
                assert(k[k.len() - 1] == x);
            }
        }
        assert(entry_map(s).dom() =~= key_set(keys_of(s)));
    } else {
        assert(entry_map(s).dom() =~= key_set(keys_of(s)));
    }
}

proof fn lemma_entry_map_lookup<E>(s: Seq<(String, E)>, i: int)
    requires
        distinct(keys_of(s)),
        0 <= i < s.len(),
    ensures
        entry_map(s).dom().contains(s[i].0@),
        entry_map(s)[s[i].0@] == s[i].1,
    decreases s.len(),
{
    if i < s.len() - 1 {
        let d = s.drop_last();
        assert(keys_of(d) =~= keys_of(s).drop_last());
        assert(keys_of(s)[i] != keys_of(s)[s.len() - 1]);
        lemma_entry_map_lookup(d, i);
    }
}

proof fn lemma_entry_map_remove<E>(s: Seq<(String, E)>, i: int)
    requires
        distinct(keys_of(s)),
        0 <= i < s.len(),
    ensures
        entry_map(s.remove(i)) == entry_map(s).remove(s[i].0@),
    decreases s.len(),
{
    let d = s.drop_last();
    assert(keys_of(d) =~= keys_of(s).drop_last());
    if i == s.len() - 1 {
        assert(s.remove(i) =~= d);
        lemma_entry_map_dom(d);
        assert(!keys_of(d).contains(s[i].0@)) by {
            if keys_of(d).contains(s[i].0@) {
                let j = choose|j: int| 0 <= j < keys_of(d).len() && keys_of(d)[j] == s[i].0@;
                assert(keys_of(s)[j] == keys_of(s)[i]);
            }
        }
        assert(entry_map(s.remove(i)) =~= entry_map(s).remove(s[i].0@));
    } else {
        lemma_entry_map_remove(d, i);
        assert(s.remove(i) =~= d.remove(i).push(s.last()));
        assert(s.remove(i).drop_last() =~= d.remove(i));
        assert(keys_of(s)[i] != keys_of(s)[s.len() - 1]);
        assert(entry_map(s.remove(i)) =~= entry_map(s).remove(s[i].0@));
    }
}

impl<E> FrameWatcherRegistryInner<E> {
    pub closed spec fn entry_keys(&self) -> Seq<Seq<char>> {
        self.entries@.map_values(|e: (String, E)| e.0@)
    }

    pub closed spec fn tombstone_keys(&self) -> Seq<Seq<char>> {
        self.detach_requested@.map_values(|s: String| s@)
    }

    /// The registry as sets of root ids.
    pub closed spec fn model(&self) -> RegistryModel {
        RegistryModel { attached: key_set(self.entry_keys()), tombstones: key_set(self.tombstone_keys()) }
    }

    /// The entry stored for each attached root.
    pub closed spec fn stored(&self) -> Map<Seq<char>, E> {
        entry_map(self.entries@)
    }

    /// Each root has at most one entry and one tombstone, and none has both.
    pub closed spec fn wf(&self) -> bool {
        &&& distinct(self.entry_keys())
        &&& distinct(self.tombstone_keys())
        &&& model_wf(self.model())
    }

    /// An empty registry.
    pub fn new() -> (r: Self)
        ensures
            r.wf(),
            r.model().attached.is_empty(),
            r.model().tombstones.is_empty(),
            r.stored() == Map::<Seq<char>, E>::empty(),
    {
        let r = FrameWatcherRegistryInner { entries: Vec::new(), detach_requested: Vec::new() };
        proof {
            assert(r.entry_keys() =~= Seq::<Seq<char>>::empty());
            assert(r.tombstone_keys() =~= Seq::<Seq<char>>::empty());
            assert(key_set(r.entry_keys()) =~= Set::<Seq<char>>::empty());
            assert(key_set(r.tombstone_keys()) =~= Set::<Seq<char>>::empty());
        }
        r
    }

    fn entry_position(&self, root: &str) -> (r: Option<usize>)
        ensures
            r matches Some(i) ==> i < self.entries@.len() && self.entry_keys()[i as int] == root@,
            r is None ==> !self.entry_keys().contains(root@),
    {
        let mut i: usize = 0;
        while i < self.entries.len()
            invariant
                i <= self.entries@.len(),
                forall|k: int| 0 <= k < i ==> self.entry_keys()[k] != root@,
            decreases self.entries@.len() - i,
        {
            if str_eq(self.entries[i].0.as_str(), root) {
                return Some(i);
            }
            i += 1;
        }
        None
    }

    fn tombstone_position(&self, root: &str) -> (r: Option<usize>)
        ensures
            r matches Some(i) ==> i < self.detach_requested@.len() && self.tombstone_keys()[i as int]
                == root@,
            r is None ==> !self.tombstone_keys().contains(root@),
    {
        let mut i: usize = 0;
        while i < self.detach_requested.len()
            invariant
                i <= self.detach_requested@.len(),
                forall|k: int| 0 <= k < i ==> self.tombstone_keys()[k] != root@,
            decreases self.detach_requested@.len() - i,
        {
            if str_eq(self.detach_requested[i].as_str(), root) {
                return Some(i);
            }
            i += 1;
        }
        None
    }

    fn remove_tombstone_at(&mut self, i: usize)
        requires
            old(self).wf(),
            i < old(self).detach_requested@.len(),
        ensures
            final(self).entries == old(self).entries,
            final(self).tombstone_keys() == old(self).tombstone_keys().remove(i as int),
    {
        self.detach_requested.remove(i);
        proof {
            assert(self.tombstone_keys() =~= old(self).tombstone_keys().remove(i as int));
        }
    }

    /// Whether `root` is attached.
    pub fn is_attached(&self, root: &str) -> (r: bool)
        ensures
            r == self.model().attached.contains(root@),
            r == self.stored().dom().contains(root@),
    {
        proof {
            assert(keys_of(self.entries@) == self.entry_keys());
            lemma_entry_map_dom(self.entries@);
        }
        self.entry_position(root).is_some()
    }

    /// First locked step of an attach.
    pub fn begin_attach(&mut self, root: &str) -> (r: AttachStart)
        requires
            old(self).wf(),
        ensures
            final(self).wf(),
            (final(self).model(), r) == begin_attach_model(old(self).model(), root@),
            final(self).stored() == old(self).stored(),
    {
        if self.entry_position(root).is_some() {
            return AttachStart::AlreadyAttached;
        }
        if let Some(i) = self.tombstone_position(root) {
            proof {
                lemma_remove_distinct(self.tombstone_keys(), i as int);
            }
            self.remove_tombstone_at(i);
            proof {
                assert(self.entry_keys() =~= old(self).entry_keys());
            }
        } else {
            proof {
                assert(old(self).model().tombstones.remove(root@) =~= old(self).model().tombstones);
            }
        }
        AttachStart::Proceed
    }

    /// Final locked step of an attach with its freshly built `entry`. When
    /// the entry is not stored it is handed back to be aborted.
    pub fn finish_attach(&mut self, root: String, entry: E) -> (r: (AttachFinish, Option<E>))
        requires
            old(self).wf(),
        ensures
            final(self).wf(),
            (final(self).model(), r.0) == finish_attach_model(old(self).model(), root@),
            r.0 == AttachFinish::Inserted <==> r.1 is None,
            r.1 matches Some(e) ==> e == entry,
            final(self).stored() == (if r.0 == AttachFinish::Inserted {
                old(self).stored().insert(root@, entry)
            } else {
                old(self).stored()
            }),
    {
        if self.entry_position(root.as_str()).is_some() {
            return (AttachFinish::DiscardConcurrent, Some(entry));
        }
        if let Some(i) = self.tombstone_position(root.as_str()) {
            proof {
                lemma_remove_distinct(self.tombstone_keys(), i as int);
            }
            self.remove_tombstone_at(i);
            proof {
                assert(self.entry_keys() =~= old(self).entry_keys());
            }
            return (AttachFinish::DiscardDetached, Some(entry));
        }
        proof {
            lemma_push_distinct(self.entry_keys(), root@);
        }
        self.entries.push((root, entry));
        proof {
            assert(self.entries@.drop_last() =~= old(self).entries@);
            assert(self.entry_keys() =~= old(self).entry_keys().push(root@));
            assert(self.tombstone_keys() =~= old(self).tombstone_keys());
        }
        (AttachFinish::Inserted, None)
    }

    /// Detach `root`: remove and return its entry, or leave a tombstone for an
    /// attach that may be in flight.
    pub fn detach(&mut self, root: &str) -> (r: (DetachOutcome, Option<E>))
        requires
            old(self).wf(),
        ensures
            final(self).wf(),
            (final(self).model(), r.0) == detach_model(old(self).model(), root@),
            r.0 == DetachOutcome::Removed <==> r.1 is Some,
            r.1 matches Some(e) ==> old(self).stored().dom().contains(root@) && e == old(
                self,
            ).stored()[root@],
            final(self).stored() == old(self).stored().remove(root@),
    {
        if let Some(i) = self.entry_position(root) {
            proof {
                lemma_remove_distinct(self.entry_keys(), i as int);
                assert(keys_of(self.entries@) == self.entry_keys());
                lemma_entry_map_lookup(self.entries@, i as int);
                lemma_entry_map_remove(self.entries@, i as int);
            }
            let (_, entry) = self.entries.remove(i);
            proof {
                assert(self.entry_keys() =~= old(self).entry_keys().remove(i as int));
                assert(self.tombstone_keys() =~= old(self).tombstone_keys());
            }
            return (DetachOutcome::Removed, Some(entry));
        }
        proof {
            assert(keys_of(self.entries@) == self.entry_keys());
            lemma_entry_map_dom(self.entries@);
            assert(self.stored().remove(root@) =~= self.stored());
        }
        if self.tombstone_position(root).is_none() {
            proof {
                lemma_push_distinct(self.tombstone_keys(), root@);
            }
            self.detach_requested.push(crate::text::from_str(root));
            proof {
                assert(self.tombstone_keys() =~= old(self).tombstone_keys().push(root@));
                assert(self.entry_keys() =~= old(self).entry_keys());
            }
        } else {
            proof {
                assert(old(self).model().tombstones.insert(root@) =~= old(self).model().tombstones);
            }
        }
        (DetachOutcome::Tombstoned, None)
    }
}

// ── Trigger decisions ────────────────────────────────────────────────────────

/// A root's detection configuration.
pub struct RootDetection {
    pub live: bool,
    pub scheduled: bool,
    pub on_open: bool,
    pub follow_symlinks: bool,
}

/// What an attach starts for a root.
pub struct TriggerPlan {
    /// Run one reconcile before the entry is built.
    pub reconcile_on_open: bool,
    /// Start an OS watcher (and its drain task); `None` when `live` is off.
    pub watcher_follows_symlinks: Option<bool>,
    /// Spawn the periodic reconcile.
    pub spawn_scheduled: bool,
}

/// The triggers an attach starts: each detection switch enables its trigger;
/// a root with every switch off is attached as an empty entry.
pub fn attach_triggers(config: &RootDetection) -> (p: TriggerPlan)
    ensures
        p.reconcile_on_open == config.on_open,
        p.watcher_follows_symlinks == (if config.live {
            Some(config.follow_symlinks)
        } else {
            None
        }),
        p.spawn_scheduled == config.scheduled,
{
    TriggerPlan {
        reconcile_on_open: config.on_open,
        watcher_follows_symlinks: if config.live {
            Some(config.follow_symlinks)
        } else {
            None
        },
        spawn_scheduled: config.scheduled,
    }
}

/// An input of a root's live-event drain task.
#[derive(PartialEq, Eq, Structural)]
pub enum DrainInput {
    /// A filesystem event (a watcher error asking for a rescan included).
    FileEvent,
    /// The debounce tick; `overflowed` when events were dropped since.
    Tick { overflowed: bool },
    /// The event channel closed (the watcher was dropped).
    Closed,
}

/// What the drain task does after an input.
#[derive(PartialEq, Eq, Structural)]
pub enum DrainAction {
    Wait,
    ScheduleReconcile,
    Stop,
}

/// The drain task's step as a function of the dirty flag and the input.
pub open spec fn drain_next(dirty: bool, input: DrainInput) -> (bool, DrainAction) {
    match input {
        DrainInput::FileEvent => (true, DrainAction::Wait),
        DrainInput::Tick { overflowed } => (false, if dirty || overflowed {
            DrainAction::ScheduleReconcile
        } else {
            DrainAction::Wait
        }),
        DrainInput::Closed => (dirty, DrainAction::Stop),
    }
}

/// Reconciles a run of inputs schedules, starting from `dirty`.
pub open spec fn reconciles_scheduled(dirty: bool, inputs: Seq<DrainInput>) -> nat
    decreases inputs.len(),
{
    if inputs.len() == 0 {
        0
    } else {
        let (d, a) = drain_next(dirty, inputs[0]);
        (if a == DrainAction::ScheduleReconcile { 1nat } else { 0nat }) + reconciles_scheduled(d, inputs.drop_first())
    }
}

/// `k` file events.
pub open spec fn burst(k: nat) -> Seq<DrainInput> {
    Seq::new(k, |i: int| DrainInput::FileEvent)
}

/// A burst of file events, however long, is coalesced into exactly one
/// reconcile at the next tick, and a quiet tick after it schedules nothing.
pub proof fn lemma_burst_coalesces(dirty: bool, k: nat)
    requires
        k >= 1,
    ensures
        reconciles_scheduled(dirty, burst(k).push(DrainInput::Tick { overflowed: false }).push(
            DrainInput::Tick { overflowed: false },
        )) == 1,
{
    let tail = seq![DrainInput::Tick { overflowed: false }, DrainInput::Tick { overflowed: false }];
    assert(burst(k).push(DrainInput::Tick { overflowed: false }).push(DrainInput::Tick { overflowed: false })
        =~= burst(k) + tail);
    lemma_events_then(dirty, k, tail);
    let t1 = tail.drop_first();
    let t2 = t1.drop_first();
    assert(t1 =~= seq![DrainInput::Tick { overflowed: false }]);
    assert(t2 =~= Seq::<DrainInput>::empty());
    assert(reconciles_scheduled(false, t2) == 0);
    assert(reconciles_scheduled(false, t1) == 0);
    assert(reconciles_scheduled(true, tail) == 1);
}

proof fn lemma_events_then(dirty: bool, k: nat, tail: Seq<DrainInput>)
    requires
        k >= 1,
    ensures
        reconciles_scheduled(dirty, burst(k) + tail) == reconciles_scheduled(true, tail),
    decreases k,
{
    let s = burst(k) + tail;
    assert(s[0] == DrainInput::FileEvent);
    if k == 1 {
        assert(s.drop_first() =~= tail);
    } else {
        assert(s.drop_first() =~= burst((k - 1) as nat) + tail);
        lemma_events_then(true, (k - 1) as nat, tail);
    }
}

/// One step of the drain task: every event or overflow marks the root dirty,
/// and each tick turns a dirty root into exactly one reconcile.
pub fn drain_step(dirty: bool, input: DrainInput) -> (r: (bool, DrainAction))
    ensures
        r == drain_next(dirty, input),
{
    match input {
        DrainInput::FileEvent => (true, DrainAction::Wait),
        DrainInput::Tick { overflowed } => {
            if dirty || overflowed {
                (false, DrainAction::ScheduleReconcile)
            } else {
                (false, DrainAction::Wait)
            }
        },
        DrainInput::Closed => (dirty, DrainAction::Stop),
    }
}

/// Result of one root-path lookup.
pub enum PathLookup {
    Found(String),
    Absent,
    Failed,
}

/// The next step of resolving a root's path.
pub enum RootPathStep {
    Resolved(Option<String>),
    TryRegisteredSource,
}

/// Resolving a root id prefers its library-root row; only an absent row
/// falls back to the registered-source row, and a failed lookup resolves
/// nothing.
pub fn after_library_root_lookup(lookup: PathLookup) -> (r: RootPathStep)
    ensures
        lookup matches PathLookup::Found(p) ==> r == RootPathStep::Resolved(Some(p)),
        lookup is Absent ==> (r is TryRegisteredSource),
        lookup is Failed ==> r == RootPathStep::Resolved(None),
{
    match lookup {
        PathLookup::Found(p) => RootPathStep::Resolved(Some(p)),
        PathLookup::Absent => RootPathStep::TryRegisteredSource,
        PathLookup::Failed => RootPathStep::Resolved(None),
    }
}

/// The root path a registered-source lookup yields.
pub fn from_registered_source(lookup: PathLookup) -> (r: Option<String>)
    ensures
        lookup matches PathLookup::Found(p) ==> r == Some(p),
        !(lookup is Found) ==> r is None,
{
    match lookup {
        PathLookup::Found(p) => Some(p),
        _ => None,
    }
}

} // verus!
