use rex::time::Timestamp;

#[test]
fn the_epoch_is_written_with_its_offset() {
    let epoch = Timestamp { secs: 0, nanos: 0 };
    assert_eq!(epoch.to_rfc3339(), Some("1970-01-01T00:00:00+00:00".to_string()));
}

#[test]
fn fractions_of_a_second_are_written() {
    let instant = Timestamp { secs: 1591012800, nanos: 500_000_000 };
    assert_eq!(instant.to_rfc3339(), Some("2020-06-01T12:00:00.500+00:00".to_string()));
}

#[test]
fn an_instant_outside_the_calendar_has_no_text() {
    assert_eq!(Timestamp { secs: i64::MAX, nanos: 0 }.to_rfc3339(), None);
    assert_eq!(Timestamp { secs: i64::MIN, nanos: 0 }.to_rfc3339(), None);
    assert_eq!(Timestamp { secs: 0, nanos: 2_000_000_000 }.to_rfc3339(), None);
}

#[test]
fn a_text_with_an_offset_is_read_as_utc() {
    assert_eq!(
        Timestamp::parse_rfc3339("1996-12-19T16:39:57-08:00"),
        Some(Timestamp { secs: 851042397, nanos: 0 })
    );
    assert_eq!(
        Timestamp::parse_rfc3339("1970-01-01T00:00:00Z"),
        Some(Timestamp { secs: 0, nanos: 0 })
    );
    assert_eq!(
        Timestamp::parse_rfc3339("2020-06-01T12:00:00.25Z"),
        Some(Timestamp { secs: 1591012800, nanos: 250_000_000 })
    );
}

#[test]
fn a_text_that_is_no_instant_is_not_read() {
    assert_eq!(Timestamp::parse_rfc3339(""), None);
    assert_eq!(Timestamp::parse_rfc3339("yesterday"), None);
    assert_eq!(Timestamp::parse_rfc3339("2020-06-01"), None);
    assert_eq!(Timestamp::parse_rfc3339("2020-13-01T00:00:00Z"), None);
    assert_eq!(Timestamp::parse_rfc3339("2020-06-01T12:00:00"), None);
}

#[test]
fn an_instant_is_read_back_as_written() {
    for instant in [
        Timestamp { secs: 0, nanos: 0 },
        Timestamp { secs: -1, nanos: 999_999_999 },
        Timestamp { secs: 1591012800, nanos: 1 },
        Timestamp { secs: 253402300799, nanos: 0 },
    ] {
        let text = instant.to_rfc3339().unwrap();
        assert_eq!(Timestamp::parse_rfc3339(text.as_str()), Some(instant));
    }
}

#[test]
fn instants_are_ordered_by_seconds_then_nanoseconds() {
    let early = Timestamp { secs: 10, nanos: 900 };
    let late = Timestamp { secs: 11, nanos: 0 };
    let later = Timestamp { secs: 11, nanos: 1 };
    assert!(late.at_or_after(early));
    assert!(!early.at_or_after(late));
    assert!(later.at_or_after(late));
    assert!(!late.at_or_after(later));
    assert!(late.at_or_after(late));
    assert!(Timestamp { secs: -5, nanos: 0 }.at_or_after(Timestamp { secs: -6, nanos: 999 }));
    assert!(early < late && late < later);
    assert!(late.after(early) && later.after(late) && !late.after(late) && !early.after(late));
    assert!(Timestamp { secs: 1, nanos: 0 }.after(Timestamp { secs: 0, nanos: 999_999_999 }));
}

#[test]
fn or_at_prefers_the_chosen_instant() {
    let chosen = Timestamp { secs: 5, nanos: 0 };
    let fallback = Timestamp { secs: 9, nanos: 0 };
    assert_eq!(Timestamp::or_at(Some(chosen), fallback), chosen);
    assert_eq!(Timestamp::or_at(None, fallback), fallback);
}

#[test]
fn now_is_in_this_century() {
    let now = Timestamp::now();
    assert!(now.secs > 1_500_000_000);
    assert!(now.nanos < 1_000_000_000);
    assert!(now.to_rfc3339().is_some());
}

#[test]
fn now_can_always_be_written_and_read_back() {
    for _ in 0..100 {
        let now = Timestamp::now();
        assert!(now.nanos < 1_000_000_000);
        let text = now.to_rfc3339().expect("the calendar has the current time");
        assert_eq!(Timestamp::parse_rfc3339(text.as_str()), Some(now));
    }
}
