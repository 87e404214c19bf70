use astro_plan::shutdown::{marker_path, unclean_shutdown, was_clean, MarkerRemoval, MARKER_FILE};

/// No marker at boot: the previous process did not exit gracefully.
#[test]
fn absent_marker_reads_unclean() {
    assert!(!was_clean(MarkerRemoval::NotFound), "no marker => unclean");
}

/// A written marker reads clean once; the read consumes it, so the next boot
/// finds none and reads unclean.
#[test]
fn written_marker_reads_clean_once_then_unclean() {
    assert!(was_clean(MarkerRemoval::Removed), "marker present => clean");
    assert!(!was_clean(MarkerRemoval::NotFound), "marker cleared on read => unclean next time");
}

#[test]
fn a_marker_that_cannot_be_removed_reads_unclean() {
    assert!(!was_clean(MarkerRemoval::Failed));
}

#[test]
fn the_managed_verdict_negates_the_clean_read() {
    assert!(!unclean_shutdown(MarkerRemoval::Removed).0);
    assert!(unclean_shutdown(MarkerRemoval::NotFound).0);
    assert!(unclean_shutdown(MarkerRemoval::Failed).0);
}

#[test]
fn the_marker_lives_directly_under_the_data_dir() {
    assert_eq!(MARKER_FILE, ".clean-shutdown");
    assert_eq!(marker_path("/home/u/.local/share/astro"), "/home/u/.local/share/astro/.clean-shutdown");
}
