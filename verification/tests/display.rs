use little_squid_cli::progress::stats::{is_last, DisplayStep, Progress};

#[test]
fn display_starts_at_nothing() {
    assert_eq!(Progress::new(), Progress { position: 0 });
}

#[test]
fn display_shows_progress_and_finishes_at_a_hundred() {
    let mut progress = Progress::new();
    assert_eq!(progress.receive(0), DisplayStep::Show(0));
    assert_eq!(progress.receive(44), DisplayStep::Show(44));
    assert_eq!(progress.position, 44);
    assert_eq!(progress.receive(99), DisplayStep::Show(99));
    assert_eq!(progress.receive(100), DisplayStep::Finish(100));
    assert_eq!(progress.position, 100);
}

#[test]
fn shutdown_value_stops_without_falling_back() {
    let mut progress = Progress::new();
    progress.receive(60);
    assert_eq!(progress.receive(0), DisplayStep::Stop);
    assert_eq!(progress.position, 60);
}

#[test]
fn one_message_of_a_hundred_then_the_sentinel() {
    let mut progress = Progress::new();
    let first = progress.receive(100);
    assert_eq!(first, DisplayStep::Finish(100));
    assert!(is_last(first));
    let sentinel = progress.receive(0);
    assert_eq!(sentinel, DisplayStep::Stop);
    assert!(is_last(sentinel));
    assert_eq!(progress.position, 100);
}

#[test]
fn values_over_a_hundred_finish_too() {
    let mut progress = Progress::new();
    assert_eq!(progress.receive(111), DisplayStep::Finish(111));
    assert!(!is_last(DisplayStep::Show(5)));
}
