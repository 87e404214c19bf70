//! Verified core of the astro-plan desktop workflow: notification policy,
//! clean-shutdown detection, frame-watcher registry, raw-frame cleanup
//! selection, crash reconciliation, the project Update View lifecycle, and
//! the identifier/timestamp primitives they share.
use vstd::prelude::*;

pub mod text;
pub mod notify;
pub mod errors;
pub mod digest;
pub mod paths;
pub mod order;
pub mod update_view;
pub mod watcher;
pub mod recovery;
pub mod cleanup;
pub mod ids;
pub mod shutdown;
pub mod rules;
pub mod settings;
pub mod stale;
pub mod artifacts;
pub mod plans;

verus! {

} // verus!
