use oneagentgraph::clock::{now_rfc3339, rfc3339, unix_millis, Instant};

/// One instant per boundary the rendering can get wrong: the epoch itself, a
/// millisecond that has to keep its leading zeros, a leap day, the day after one, a
/// year boundary, and an ordinary recent instant.
#[test]
fn renders_the_contract_s_timestamp_shape() {
    let at = |secs: u128, millis: u128| Instant::Since(secs * 1000 + millis);
    assert_eq!(rfc3339(at(0, 0)), "1970-01-01T00:00:00.000Z");
    assert_eq!(rfc3339(at(0, 7)), "1970-01-01T00:00:00.007Z");
    assert_eq!(rfc3339(at(1_709_210_096, 789)), "2024-02-29T12:34:56.789Z");
    assert_eq!(rfc3339(at(1_709_251_200, 0)), "2024-03-01T00:00:00.000Z");
    assert_eq!(rfc3339(at(1_704_067_199, 999)), "2023-12-31T23:59:59.999Z");
    assert_eq!(rfc3339(at(1_786_169_542, 847)), "2026-08-08T06:12:22.847Z");
}

/// An instant before the epoch degrades rather than panicking.
#[test]
fn a_pre_epoch_instant_renders_as_the_epoch() {
    let before = Instant::BeforeEpoch;
    assert_eq!(unix_millis(before), 0);
    assert_eq!(rfc3339(before), "1970-01-01T00:00:00.000Z");
}

/// `now` renders the same shape — checked structurally rather than against a frozen
/// instant.
#[test]
fn now_renders_the_same_shape() {
    let now = now_rfc3339();
    assert_eq!(now.len(), 24, "{now}");
    assert!(now.ends_with('Z') && now.as_bytes()[10] == b'T', "{now}");
    assert!(now.as_str() > "2020-01-01T00:00:00.000Z", "{now}");
}

/// A count of milliseconds no `u64` holds is the largest one it does.
#[test]
fn milliseconds_saturate() {
    assert_eq!(unix_millis(Instant::Since(5)), 5);
    assert_eq!(unix_millis(Instant::Since(u128::MAX)), u64::MAX);
}

/// A century that is no leap year, and one that is.
#[test]
fn centuries_follow_the_calendar() {
    assert_eq!(
        rfc3339(Instant::Since(951_782_400_000)),
        "2000-02-29T00:00:00.000Z"
    );
    assert_eq!(
        rfc3339(Instant::Since(4_107_542_400_000)),
        "2100-03-01T00:00:00.000Z"
    );
}

/// Envelopes merge by the text of their `ts`, so a later instant is spelled later.
#[test]
fn a_later_instant_sorts_later() {
    let instants: [u128; 7] = [
        0,
        999,
        59_999,
        3_600_000,
        951_782_399_999,
        951_782_400_000,
        253_402_300_799_999,
    ];
    let spelled: Vec<String> = instants.iter().map(|at| rfc3339(Instant::Since(*at))).collect();
    assert_eq!(spelled[6], "9999-12-31T23:59:59.999Z");
    for pair in spelled.windows(2) {
        assert!(pair[0] < pair[1], "{pair:?}");
        assert_eq!(pair[0].len(), 24);
    }
}
