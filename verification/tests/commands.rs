use oneagentgraph::cli::{Hours, MinAgeHours, Span, DEFAULT_MIN_AGE_HOURS};

/// A number of hours as the flag reads one: a double, in whole nanoseconds.
fn parse(text: &str) -> Result<MinAgeHours, String> {
    let hours = match text.parse::<f64>() {
        Err(_) => Hours::NotNumeric,
        Ok(hours) if hours.is_nan() || hours < 0.0 => Hours::BelowZero,
        Ok(hours) => match std::time::Duration::try_from_secs_f64(hours * 3600.0) {
            Err(_) => Hours::TooMany,
            Ok(span) => Hours::Long(Span {
                secs: span.as_secs(),
                nanos: span.subsec_nanos(),
            }),
        },
    };
    MinAgeHours::read(text, hours)
}

fn duration(floor: MinAgeHours) -> std::time::Duration {
    let span = floor.as_duration();
    std::time::Duration::new(span.secs, span.nanos)
}

/// The floor's grammar: a non-negative decimal number of hours, and nothing that
/// is not one.
#[test]
fn a_floor_is_a_non_negative_decimal_number_of_hours() {
    assert_eq!(
        duration(parse("0.5").expect("half an hour")),
        std::time::Duration::from_secs(30 * 60)
    );
    assert_eq!(
        duration(parse("0").expect("no floor")),
        std::time::Duration::ZERO
    );
    assert_eq!(parse("24").expect("a day"), MinAgeHours::default_floor());
    for refused in ["-1", "-0.5", "abc", "", "nan", "inf", "1e300"] {
        let err = parse(refused).expect_err("a floor that is not a non-negative number of hours");
        assert!(err.contains("hours"), "{refused:?}: {err}");
    }
}

#[test]
fn each_refused_floor_says_how() {
    assert_eq!(parse("abc").unwrap_err(), "`abc` is not a number of hours");
    assert_eq!(
        parse("-1").unwrap_err(),
        "`-1` is not a non-negative number of hours"
    );
    assert_eq!(
        parse("inf").unwrap_err(),
        "`inf` is more hours than a floor can hold"
    );
    assert_eq!(DEFAULT_MIN_AGE_HOURS, 24);
}
