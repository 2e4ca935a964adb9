use mist_core::timer::timing::{round_down, shown_fields, tenths, time_fields, TimeFields};

#[test]
fn time_is_taken_apart_into_clock_fields() {
    assert_eq!(time_fields(0), TimeFields { hours: 0, minutes: 0, seconds: 0, millis: 0 });
    assert_eq!(time_fields(999), TimeFields { hours: 0, minutes: 0, seconds: 0, millis: 999 });
    assert_eq!(time_fields(83_456), TimeFields { hours: 0, minutes: 1, seconds: 23, millis: 456 });
    assert_eq!(
        time_fields(3_600_000 * 27 + 59 * 60_000 + 59_999),
        TimeFields { hours: 27, minutes: 59, seconds: 59, millis: 999 }
    );
    let far = time_fields(u128::MAX);
    assert_eq!(
        far.hours * 3_600_000 + far.minutes * 60_000 + far.seconds * 1000 + far.millis,
        u128::MAX
    );
}

#[test]
fn time_is_rounded_down_to_the_step() {
    assert_eq!(round_down(1234, None), 1234);
    assert_eq!(round_down(1234, Some(0)), 1234);
    assert_eq!(round_down(1234, Some(1)), 1234);
    assert_eq!(round_down(1234, Some(100)), 1200);
    assert_eq!(round_down(1234, Some(33)), 1221);
    assert_eq!(round_down(1234, Some(5000)), 0);
    assert_eq!(round_down(0, Some(7)), 0);
}

#[test]
fn leading_fields_that_are_zero_are_not_shown() {
    assert_eq!(shown_fields(0, None), (TimeFields { hours: 0, minutes: 0, seconds: 0, millis: 0 }, 1));
    assert_eq!(shown_fields(59_999, None).1, 1);
    assert_eq!(shown_fields(60_000, None), (TimeFields { hours: 0, minutes: 1, seconds: 0, millis: 0 }, 2));
    assert_eq!(shown_fields(3_599_999, None).1, 2);
    assert_eq!(shown_fields(3_600_000, None), (TimeFields { hours: 1, minutes: 0, seconds: 0, millis: 0 }, 3));
    assert_eq!(
        shown_fields(83_456, Some(100)),
        (TimeFields { hours: 0, minutes: 1, seconds: 23, millis: 400 }, 2)
    );
    assert_eq!(shown_fields(60_010, Some(60_011)).1, 1);
}

#[test]
fn rows_show_the_tenth_of_a_second() {
    assert_eq!(tenths(time_fields(0)), 0);
    assert_eq!(tenths(time_fields(99)), 0);
    assert_eq!(tenths(time_fields(100)), 1);
    assert_eq!(tenths(time_fields(83_456)), 4);
    assert_eq!(tenths(time_fields(999)), 9);
}
