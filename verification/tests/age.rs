use gitlabctl::age::{humanize_seconds, label_since, updated_label, Instant};

fn at(text: &str) -> Instant {
    Instant::parse_rfc3339(text).unwrap()
}

#[test]
fn timestamps_are_read_as_seconds_since_1970() {
    let epoch = at("1970-01-01T00:00:00Z");
    assert_eq!((epoch.seconds, epoch.nanos), (0, 0));
    let later = at("1970-01-01T00:00:01.5Z");
    assert_eq!((later.seconds, later.nanos), (1, 500_000_000));
    let with_offset = at("1996-12-19T16:39:57-08:00");
    assert_eq!((with_offset.seconds, with_offset.nanos), (851_042_397, 0));
    let before = at("1969-12-31T23:59:59Z");
    assert_eq!((before.seconds, before.nanos), (-1, 0));
}

#[test]
fn the_offset_does_not_change_the_point_in_time() {
    let utc = at("2021-03-04T10:00:00Z");
    let east = at("2021-03-04T12:00:00+02:00");
    assert_eq!((utc.seconds, utc.nanos), (east.seconds, east.nanos));
}

#[test]
fn other_texts_are_no_timestamps() {
    assert!(Instant::parse_rfc3339("").is_none());
    assert!(Instant::parse_rfc3339("yesterday").is_none());
    assert!(Instant::parse_rfc3339("2021-03-04").is_none());
    assert!(Instant::parse_rfc3339("2021-03-04 10:00:00").is_none());
    assert!(Instant::parse_rfc3339("2021-13-04T10:00:00Z").is_none());
}

#[test]
fn the_clock_is_past_2020() {
    let now = Instant::now();
    assert!(now.seconds > at("2020-01-01T00:00:00Z").seconds);
    assert!(now.nanos < 2_000_000_000);
}

#[test]
fn spans_are_put_in_words() {
    assert_eq!(humanize_seconds(0), "now");
    assert_eq!(humanize_seconds(-10), "now");
    assert_eq!(humanize_seconds(10), "now");
    assert_eq!(humanize_seconds(-11), "11 seconds ago");
    assert_eq!(humanize_seconds(-45), "45 seconds ago");
    assert_eq!(humanize_seconds(-46), "a minute ago");
    assert_eq!(humanize_seconds(-91), "2 minutes ago");
    assert_eq!(humanize_seconds(-3 * 3600), "3 hours ago");
    assert_eq!(humanize_seconds(3 * 3600), "in 3 hours");
    assert_eq!(humanize_seconds(-86_400), "a day ago");
    assert_eq!(humanize_seconds(-7 * 86_400), "a week ago");
    assert_eq!(humanize_seconds(-30 * 86_400), "a month ago");
    assert_eq!(humanize_seconds(-400 * 86_400), "a year ago");
    assert_eq!(humanize_seconds(-3 * 365 * 86_400), "3 years ago");
}

#[test]
fn spans_too_long_to_be_held_have_no_words() {
    assert_eq!(humanize_seconds(i64::MAX), "");
    assert_eq!(humanize_seconds(i64::MIN), "");
}

#[test]
fn the_age_is_taken_from_the_given_time() {
    let now = at("2024-05-01T12:00:00Z");
    assert_eq!(updated_label("2024-05-01T09:00:00Z", now), "3 hours ago");
    assert_eq!(updated_label("2024-05-01T11:00:00+02:00", now), "3 hours ago");
    assert_eq!(updated_label("2024-05-01T11:59:55Z", now), "now");
    assert_eq!(updated_label("2024-04-30T12:00:00Z", now), "a day ago");
    assert_eq!(updated_label("2023-05-01T12:00:00Z", now), "a year ago");
    assert_eq!(updated_label("2024-05-01T14:00:00Z", now), "in 2 hours");
}

#[test]
fn the_age_drops_the_fraction_of_a_second() {
    let now = at("2024-05-01T12:00:00.900Z");
    assert_eq!(updated_label("2024-05-01T11:59:50.000Z", now), "now");
    assert_eq!(updated_label("2024-05-01T11:59:49.000Z", now), "11 seconds ago");
}

#[test]
fn an_unreadable_time_has_no_age() {
    let now = at("2024-05-01T12:00:00Z");
    assert_eq!(updated_label("", now), "");
    assert_eq!(updated_label("not a time", now), "");
    assert_eq!(updated_label("2024-05-01", now), "");
}

#[test]
fn no_point_in_time_has_no_age() {
    let now = at("2024-05-01T12:00:00Z");
    assert_eq!(label_since(None, now), "");
    assert_eq!(label_since(Some(at("2024-05-01T11:00:00Z")), now), "an hour ago");
}

#[test]
fn a_point_outside_the_calendar_has_no_age() {
    let now = at("2024-05-01T12:00:00Z");
    let far = Instant { seconds: i64::MAX, nanos: 0 };
    assert_eq!(label_since(Some(far), now), "");
    assert_eq!(label_since(Some(now), far), "");
    let odd = Instant { seconds: 0, nanos: 3_000_000_000 };
    assert_eq!(label_since(Some(odd), now), "");
}
