use astro_plan::watcher::{
    after_library_root_lookup, attach_triggers, drain_step, from_registered_source, AttachFinish,
    AttachStart, DetachOutcome, DrainAction, DrainInput, FrameWatcherRegistryInner, PathLookup,
    RootDetection, RootPathStep,
};

#[test]
fn detach_before_attach_leaves_a_tombstone_that_attach_consumes() {
    let mut reg: FrameWatcherRegistryInner<u32> = FrameWatcherRegistryInner::new();
    let (outcome, entry) = reg.detach("root-1");
    assert!(outcome == DetachOutcome::Tombstoned);
    assert!(entry.is_none());
    // An attach in flight when the detach arrived discards its entry.
    let (finish, discarded) = reg.finish_attach("root-1".to_owned(), 7);
    assert!(finish == AttachFinish::DiscardDetached);
    assert_eq!(discarded, Some(7));
    assert!(!reg.is_attached("root-1"));
}

#[test]
fn a_detach_during_attach_wins() {
    let mut reg: FrameWatcherRegistryInner<u32> = FrameWatcherRegistryInner::new();
    assert!(reg.begin_attach("root-1") == AttachStart::Proceed);
    assert!(reg.detach("root-1").0 == DetachOutcome::Tombstoned);
    let (finish, discarded) = reg.finish_attach("root-1".to_owned(), 1);
    assert!(finish == AttachFinish::DiscardDetached);
    assert_eq!(discarded, Some(1));
    // The tombstone was consumed: the next attach inserts.
    assert!(reg.begin_attach("root-1") == AttachStart::Proceed);
    assert!(reg.finish_attach("root-1".to_owned(), 2).0 == AttachFinish::Inserted);
    assert!(reg.is_attached("root-1"));
}

#[test]
fn a_stale_tombstone_does_not_block_the_next_attach() {
    let mut reg: FrameWatcherRegistryInner<u32> = FrameWatcherRegistryInner::new();
    reg.detach("root-1");
    assert!(reg.begin_attach("root-1") == AttachStart::Proceed);
    let (finish, back) = reg.finish_attach("root-1".to_owned(), 5);
    assert!(finish == AttachFinish::Inserted);
    assert_eq!(back, None);
    assert!(reg.is_attached("root-1"));
}

#[test]
fn attaching_an_attached_root_is_a_no_op_and_detach_removes_it() {
    let mut reg: FrameWatcherRegistryInner<u32> = FrameWatcherRegistryInner::new();
    reg.begin_attach("root-1");
    reg.finish_attach("root-1".to_owned(), 3);
    assert!(reg.begin_attach("root-1") == AttachStart::AlreadyAttached);
    let (finish, duplicate) = reg.finish_attach("root-1".to_owned(), 4);
    assert!(finish == AttachFinish::DiscardConcurrent);
    assert_eq!(duplicate, Some(4));
    let (outcome, removed) = reg.detach("root-1");
    assert!(outcome == DetachOutcome::Removed);
    assert_eq!(removed, Some(3));
    assert!(!reg.is_attached("root-1"));
}

#[test]
fn roots_are_independent() {
    let mut reg: FrameWatcherRegistryInner<u32> = FrameWatcherRegistryInner::new();
    reg.begin_attach("a");
    reg.finish_attach("a".to_owned(), 1);
    reg.detach("b");
    assert!(reg.is_attached("a"));
    assert!(!reg.is_attached("b"));
}

#[test]
fn each_detection_switch_enables_its_trigger() {
    let all = attach_triggers(&RootDetection {
        live: true,
        scheduled: true,
        on_open: true,
        follow_symlinks: false,
    });
    assert!(all.reconcile_on_open);
    assert_eq!(all.watcher_follows_symlinks, Some(false));
    assert!(all.spawn_scheduled);

    let none = attach_triggers(&RootDetection {
        live: false,
        scheduled: false,
        on_open: false,
        follow_symlinks: true,
    });
    assert!(!none.reconcile_on_open);
    assert_eq!(none.watcher_follows_symlinks, None);
    assert!(!none.spawn_scheduled);
}

#[test]
fn a_burst_of_events_is_coalesced_into_one_reconcile() {
    let mut dirty = false;
    let mut scheduled = 0;
    let inputs = vec![
        DrainInput::FileEvent,
        DrainInput::FileEvent,
        DrainInput::FileEvent,
        DrainInput::Tick { overflowed: false },
        DrainInput::Tick { overflowed: false },
    ];
    for input in inputs {
        let (d, action) = drain_step(dirty, input);
        dirty = d;
        if action == DrainAction::ScheduleReconcile {
            scheduled += 1;
        }
    }
    assert_eq!(scheduled, 1);
    assert!(!dirty);
}

#[test]
fn an_overflow_schedules_a_reconcile_even_when_clean() {
    let (d, a) = drain_step(false, DrainInput::Tick { overflowed: true });
    assert!(!d);
    assert!(a == DrainAction::ScheduleReconcile);
    let (_, quiet) = drain_step(false, DrainInput::Tick { overflowed: false });
    assert!(quiet == DrainAction::Wait);
}

#[test]
fn a_closed_channel_stops_the_drain() {
    let (d, a) = drain_step(true, DrainInput::Closed);
    assert!(d);
    assert!(a == DrainAction::Stop);
}

#[test]
fn the_library_root_row_is_preferred() {
    match after_library_root_lookup(PathLookup::Found("/mnt/lib".to_owned())) {
        RootPathStep::Resolved(p) => assert_eq!(p.as_deref(), Some("/mnt/lib")),
        RootPathStep::TryRegisteredSource => panic!("a found row resolves"),
    }
    assert!(matches!(after_library_root_lookup(PathLookup::Absent), RootPathStep::TryRegisteredSource));
    assert!(matches!(after_library_root_lookup(PathLookup::Failed), RootPathStep::Resolved(None)));
}

#[test]
fn a_registered_source_resolves_only_when_found() {
    assert_eq!(from_registered_source(PathLookup::Found("/src".to_owned())).as_deref(), Some("/src"));
    assert_eq!(from_registered_source(PathLookup::Absent), None);
    assert_eq!(from_registered_source(PathLookup::Failed), None);
}
