use termcards::time_utils::format_until_duration;

#[test]
fn due_now() {
    assert_eq!(format_until_duration(0), "now");
    assert_eq!(format_until_duration(-50), "now");
}

#[test]
fn seconds() {
    assert_eq!(format_until_duration(1), "in 1 second");
    assert_eq!(format_until_duration(29), "in 29 seconds");
}

#[test]
fn minutes() {
    assert_eq!(format_until_duration(30), "in 1 minute");
    assert_eq!(format_until_duration(90), "in 2 minutes");
    assert_eq!(format_until_duration(1799), "in 30 minutes");
}

#[test]
fn hours() {
    assert_eq!(format_until_duration(1800), "in 1 hour");
    assert_eq!(format_until_duration(7200), "in 2 hours");
    assert_eq!(format_until_duration(43199), "in 12 hours");
}

#[test]
fn days() {
    assert_eq!(format_until_duration(43200), "in 1 day");
    assert_eq!(format_until_duration(3 * 86400), "in 3 days");
    assert_eq!(format_until_duration(100 * 86400 + 50000), "in 101 days");
}
