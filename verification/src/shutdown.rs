//! Clean-shutdown marker for unclean-shutdown detection.
//!
//! A marker file under the app-data root records that the previous process
//! exited gracefully: it is written on exit and consumed at boot. A marker
//! found (and removed) means the last shutdown was clean; anything else means
//! the process was killed or crashed, or the marker cannot be trusted.
use vstd::prelude::*;
use crate::paths::path_join;

verus! {

/// Whether the last shutdown was unclean, as found at startup.
pub struct UncleanShutdown(pub bool);

/// Name of the marker file.
pub const MARKER_FILE: &'static str = ".clean-shutdown";

/// Where the marker lives under the app-data directory.
pub fn marker_path(data_dir: &str) -> (p: String)
    ensures
        p@ == path_join(data_dir@, MARKER_FILE@),
{
    crate::paths::join(data_dir, MARKER_FILE)
}

/// Outcome of removing the marker at boot.
pub enum MarkerRemoval {
    /// The marker existed and is now gone.
    Removed,
    /// There was no marker.
    NotFound,
    /// The marker could not be removed.
    Failed,
}

/// The verdict a removal outcome gives: clean only for a marker that was
/// present and is now gone.
pub open spec fn clean_verdict(removal: MarkerRemoval) -> bool {
    removal is Removed
}

/// What the boot check's removal reports for a marker that is `present` or
/// not, when removing it `fails` or not, and whether a marker is left
/// afterwards. Removing a missing file reports it missing; a successful
/// removal leaves no file; a failed one leaves it in place.
pub open spec fn removal_outcome(present: bool, fails: bool) -> (MarkerRemoval, bool) {
    if !present {
        (MarkerRemoval::NotFound, false)
    } else if fails {
        (MarkerRemoval::Failed, true)
    } else {
        (MarkerRemoval::Removed, false)
    }
}

/// A clean verdict is consumed once. With no marker the check reads unclean.
/// After a graceful exit writes the marker, a check whose removal succeeds
/// reads clean, and the check after it reads unclean however its removal
/// goes; a check whose removal fails reads unclean, so no stuck marker ever
/// reads clean.
pub proof fn lemma_clean_verdict_consumed_once(first_fails: bool, second_fails: bool)
    ensures
        !clean_verdict(removal_outcome(false, second_fails).0),
        ({
            let (first, left) = removal_outcome(true, first_fails);
            let (second, _) = removal_outcome(left, second_fails);
            &&& clean_verdict(first) <==> !first_fails
            &&& clean_verdict(first) ==> !clean_verdict(second)
        }),
{
}

/// Whether the previous shutdown was clean: only a marker that was present
/// and is now removed says so. A marker that cannot be removed counts as
/// unclean, or every later boot would look clean.
pub fn was_clean(removal: MarkerRemoval) -> (clean: bool)
    ensures
        clean == clean_verdict(removal),
{
    match removal {
        MarkerRemoval::Removed => true,
        MarkerRemoval::NotFound => false,
        MarkerRemoval::Failed => false,
    }
}

/// The managed verdict from the boot-time marker check.
pub fn unclean_shutdown(removal: MarkerRemoval) -> (u: UncleanShutdown)
    ensures
        u.0 <==> !(removal is Removed),
{
    UncleanShutdown(!was_clean(removal))
}

} // verus!
