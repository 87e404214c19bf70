//! Project Update View use cases: generating a bounded additive plan,
//! approving it, applying it, cancelling or leaving an apply, and reading the
//! plan back page by page.
pub mod query;
pub mod plan;
pub mod lifecycle;
pub mod apply_loop;
