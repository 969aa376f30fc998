use mesh_watchy::time::{
    ago, strftime, time_or_epoch, timeago, timeago_at, Filtered, TimeValue, FIRST_SECOND,
    LAST_SECOND,
};

fn text(filtered: Filtered) -> String {
    match filtered {
        Filtered::Text(text) => text,
        other => panic!("no text: {:?}", other),
    }
}

fn reason(filtered: Filtered) -> String {
    match filtered {
        Filtered::Invalid(reason) => reason,
        other => panic!("not invalid: {:?}", other),
    }
}

#[test]
fn spans_are_described() {
    let cases = [
        (-1, "in the future"),
        (0, "0 seconds ago"),
        (1, "1 second ago"),
        (59, "59 seconds ago"),
        (60, "1 minute ago"),
        (3599, "59 minutes ago"),
        (3600, "1 hour ago"),
        (86399, "23 hours ago"),
        (86400, "1 day ago"),
        (2591999, "29 days ago"),
        (2592000, "1 month ago"),
        (31535999, "12 months ago"),
        (31536000, "1 year ago"),
        (94608000, "3 years ago"),
    ];
    for (span, expected) in cases {
        assert_eq!(ago(1000, 1000 + span), expected);
    }
}

#[test]
fn timestamps_are_numbers_or_texts() {
    assert_eq!(text(timeago_at(&TimeValue::Number(40), 100)), "1 minute ago");
    assert_eq!(text(timeago_at(&TimeValue::Text("-20".to_string()), 100)), "2 minutes ago");
    assert_eq!(
        reason(timeago_at(&TimeValue::Text("soon".to_string()), 100)),
        "Could not parse timestamp"
    );
    assert_eq!(
        reason(timeago_at(&TimeValue::Other("Map".to_string()), 100)),
        "Value is not a timestamp, got: Map"
    );
    assert!(matches!(
        timeago_at(&TimeValue::Number(i64::MIN), 100),
        Filtered::Unrepresentable
    ));
    assert!(text(timeago(&TimeValue::Number(0))).ends_with(" years ago"));
}

#[test]
fn dates_are_formatted() {
    let show = |value: &str, format: &str| strftime(Some(value), format);
    assert_eq!(text(show("2024-01-15T10:30:45+02:00", "%Y-%m-%d %H:%M:%S")), "2024-01-15 10:30:45");
    assert_eq!(text(show("2024-01-15T10:30:45+02:00", "%z")), "+0200");
    assert_eq!(text(show("2024-01-15T10:30:45.250Z", "%H:%M:%S%.3f")), "10:30:45.250");
    assert_eq!(text(show("2024-01-15 10:30:45+0200", "%H:%M %z")), "08:30 +0000");
    assert_eq!(reason(show("yesterday", "%H")), "Could not parse datetime");
    assert_eq!(reason(strftime(None, "%H")), "Value is not a datetime string");
    assert!(matches!(show("2024-01-15T10:30:45Z", "%"), Filtered::Unrepresentable));
    assert!(matches!(show("2024-01-15 10:30:45+0200", "%"), Filtered::Unrepresentable));
}

#[test]
fn seconds_name_times_within_bounds() {
    for secs in [FIRST_SECOND, -1, 0, 1758156514, LAST_SECOND] {
        let time = time_or_epoch(secs);
        assert_eq!((time.secs, time.nanos), (secs, 0));
    }
    for secs in [i64::MIN, FIRST_SECOND - 1, LAST_SECOND + 1, i64::MAX] {
        let time = time_or_epoch(secs);
        assert_eq!((time.secs, time.nanos), (0, 0));
    }
}
