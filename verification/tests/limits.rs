use std::time::{Duration, Instant};

use nostr_wallet_connect::amount::Amount;
use nostr_wallet_connect::clock::{since, Clock};
use nostr_wallet_connect::limits::{LimitError, Limits, NANOS_IN_DAY, NANOS_IN_HOUR};

fn limits() -> Limits {
    Limits::new(Amount::from_msat(100), Amount::from_msat(1000), Amount::from_msat(1500))
}

#[test]
fn nothing_is_spent_at_first() {
    let limits = limits();
    assert_eq!(limits.max_invoice.msat(), 100);
    assert_eq!(limits.hour_value.msat(), 0);
    assert_eq!(limits.hour_limit.msat(), 1000);
    assert_eq!(limits.day_value.msat(), 0);
    assert_eq!(limits.day_limit.msat(), 1500);
}

#[test]
fn a_limit_may_be_reached() {
    let mut limits = limits();
    assert_eq!(limits.check_limit(Amount::from_msat(1000)), Ok(()));
    limits.add_spend(Amount::from_msat(1000));
    assert_eq!(limits.check_limit(Amount::from_msat(0)), Ok(()));
    assert_eq!(limits.hour_value.msat(), 1000);
    assert_eq!(limits.day_value.msat(), 1000);
}

#[test]
fn the_hour_limit_refuses() {
    let mut limits = limits();
    limits.add_spend(Amount::from_msat(600));
    assert_eq!(limits.check_limit(Amount::from_msat(401)), Err(LimitError::Hour));
    assert_eq!(LimitError::Hour.message(), "Hour spend limit exceeded");
}

#[test]
fn the_day_limit_refuses_first() {
    let mut limits = limits();
    assert_eq!(limits.check_limit(Amount::from_msat(1501)), Err(LimitError::Day));
    assert_eq!(LimitError::Day.message(), "Daily spend limit exceeded");
}

#[test]
fn sums_beyond_64_bits_are_refused() {
    let mut limits = limits();
    limits.add_spend(Amount::from_msat(1));
    assert_eq!(limits.check_limit(Amount::from_msat(u64::MAX)), Err(LimitError::Day));
}

#[test]
fn an_hour_that_is_over_no_longer_counts() {
    let mut limits = limits();
    limits.add_spend(Amount::from_msat(1000));
    let one = Amount::from_msat(1);
    assert_eq!(limits.check_limit_at(NANOS_IN_HOUR, one), Err(LimitError::Hour));
    assert_eq!(limits.hour_value.msat(), 1000);
    assert_eq!(limits.hour_start, 0);
    assert_eq!(limits.check_limit_at(NANOS_IN_HOUR + 1, one), Ok(()));
    assert_eq!(limits.hour_value.msat(), 0);
    assert_eq!(limits.hour_start, NANOS_IN_HOUR + 1);
    assert_eq!(limits.day_value.msat(), 1000);
    assert_eq!(limits.day_start, 0);
}

#[test]
fn a_day_that_is_over_no_longer_counts() {
    let mut limits = limits();
    limits.add_spend(Amount::from_msat(1500));
    let one = Amount::from_msat(1);
    assert_eq!(limits.check_limit_at(NANOS_IN_DAY, one), Err(LimitError::Day));
    assert_eq!(limits.check_limit_at(NANOS_IN_DAY + 1, one), Ok(()));
    assert_eq!(limits.day_start, NANOS_IN_DAY + 1);
    assert_eq!(limits.hour_start, NANOS_IN_DAY);
    assert_eq!(limits.day_value.msat(), 0);
    assert_eq!(limits.hour_value.msat(), 0);
}

#[test]
fn a_refusal_closes_an_hour_too() {
    let mut limits = limits();
    limits.add_spend(Amount::from_msat(700));
    let much = Amount::from_msat(1001);
    assert_eq!(limits.check_limit_at(NANOS_IN_DAY + 1, much), Err(LimitError::Hour));
    assert_eq!((limits.hour_start, limits.day_start), (NANOS_IN_DAY + 1, NANOS_IN_DAY + 1));
    assert_eq!(limits.hour_value.msat(), 0);
    assert_eq!(limits.day_value.msat(), 0);
}

/// What a clock shows that runs like that of the limits.
fn shown(limits: &Limits, start: Instant) -> u128 {
    let mut copy = *limits;
    copy.clock = Clock::started_at(start);
    copy.reset_hour();
    copy.hour_start
}

#[test]
fn a_new_hour_leaves_the_day() {
    let start = Instant::now() - Duration::from_secs(50);
    let mut limits = aged(50);
    limits.clock = Clock::started_at(start);
    let before = shown(&limits, start);
    limits.reset_hour();
    assert!(before <= limits.hour_start && limits.hour_start <= shown(&limits, start));
    assert!(limits.hour_start >= 50_000_000_000);
    assert_eq!((limits.hour_value.msat(), limits.day_value.msat()), (0, 100));
    assert_eq!(limits.day_start, 0);
}

#[test]
fn a_new_day_leaves_the_hour() {
    let mut limits = aged(50);
    limits.reset_day();
    assert!(limits.day_start >= 50_000_000_000);
    assert_eq!((limits.hour_value.msat(), limits.day_value.msat()), (100, 0));
    assert_eq!(limits.hour_start, 0);
}

#[test]
fn the_first_hour_and_day_start_now() {
    let limits = limits();
    assert_eq!((limits.hour_start, limits.day_start), (0, 0));
    let mut later = limits;
    later.reset_hour();
    assert!(later.hour_start < 1_000_000_000);
}

#[test]
fn the_first_hour_and_day_start_at_a_moment() {
    let limits = Limits::starting_at(
        Amount::from_msat(1),
        Amount::from_msat(2),
        Amount::from_msat(3),
        Clock::started_at(Instant::now()),
        7,
    );
    assert_eq!((limits.hour_start, limits.day_start), (7, 7));
    assert_eq!(limits.max_invoice.msat(), 1);
    assert_eq!(limits.hour_limit.msat(), 2);
    assert_eq!(limits.day_limit.msat(), 3);
    assert_eq!((limits.hour_value.msat(), limits.day_value.msat()), (0, 0));
}

#[test]
fn periods_start_at_a_moment() {
    let mut limits = limits();
    limits.add_spend(Amount::from_msat(5));
    limits.start_hour(9);
    assert_eq!((limits.hour_start, limits.hour_value.msat()), (9, 0));
    assert_eq!((limits.day_start, limits.day_value.msat()), (0, 5));
    limits.start_day(10);
    assert_eq!((limits.day_start, limits.day_value.msat()), (10, 0));
    assert_eq!(limits.hour_start, 9);
}

/// Limits of 100 and 150 msat, of which 100 were spent, `age` seconds after their start.
fn aged(age: u64) -> Limits {
    let mut limits = Limits::starting_at(
        Amount::from_msat(1000),
        Amount::from_msat(100),
        Amount::from_msat(150),
        Clock::started_at(Instant::now() - Duration::from_secs(age)),
        0,
    );
    limits.add_spend(Amount::from_msat(100));
    limits
}

#[test]
fn the_clock_closes_the_hour() {
    let mut limits = aged(3601);
    assert_eq!(limits.check_limit(Amount::from_msat(50)), Ok(()));
    assert_eq!(limits.hour_value.msat(), 0);
    assert!(limits.hour_start >= 3601_000_000_000 && limits.hour_start < 3700_000_000_000);
    assert_eq!(limits.day_value.msat(), 100);
    assert_eq!(limits.day_start, 0);

    let mut limits = aged(3601);
    assert_eq!(limits.check_limit(Amount::from_msat(51)), Err(LimitError::Day));
    assert_eq!(limits.hour_value.msat(), 0);
}

#[test]
fn the_clock_keeps_the_hour() {
    let mut limits = aged(3500);
    assert_eq!(limits.check_limit(Amount::from_msat(1)), Err(LimitError::Hour));
    assert_eq!((limits.hour_start, limits.day_start), (0, 0));
    assert_eq!((limits.hour_value.msat(), limits.day_value.msat()), (100, 100));
}

#[test]
fn the_clock_closes_the_day() {
    let mut limits = aged(86401);
    assert_eq!(limits.check_limit(Amount::from_msat(100)), Ok(()));
    assert_eq!(limits.day_start, limits.hour_start);
    assert!(limits.day_start >= 86401_000_000_000);
    assert_eq!((limits.hour_value.msat(), limits.day_value.msat()), (0, 0));
}

#[test]
fn a_start_that_lies_ahead_is_kept() {
    let mut limits = aged(0);
    limits.hour_start = u128::MAX;
    assert_eq!(limits.check_limit(Amount::from_msat(1)), Err(LimitError::Hour));
    assert_eq!(limits.hour_start, u128::MAX);
}

#[test]
fn time_does_not_run_backwards() {
    assert_eq!(since(3, 10), 7);
    assert_eq!(since(10, 10), 0);
    assert_eq!(since(10, 3), 0);
}

#[test]
fn spending_never_exceeds_the_limits() {
    let mut limits = limits();
    let mut hour_paid = 0;
    let mut day_paid = 0;
    let mut now = 0;
    for (hour_over, msat) in [(false, 900), (false, 200), (true, 700), (false, 600), (true, 500)] {
        if hour_over {
            now += NANOS_IN_HOUR + 1;
            hour_paid = 0;
        }
        let amount = Amount::from_msat(msat);
        if limits.check_limit_at(now, amount).is_ok() {
            limits.add_spend(amount);
            hour_paid += msat;
            day_paid += msat;
        }
        assert_eq!(limits.hour_value.msat(), hour_paid);
        assert_eq!(limits.day_value.msat(), day_paid);
        assert!(hour_paid <= 1000 && day_paid <= 1500);
    }
    assert_eq!((hour_paid, day_paid), (0, 1500));
}

#[test]
fn options_are_millisatoshis() {
    let limits = Limits::from_options(50000000, 10000000, 35000000);
    assert_eq!(limits.max_invoice.msat(), 50_000_000);
    assert_eq!(limits.hour_limit.msat(), 10_000_000);
    assert_eq!(limits.day_limit.msat(), 35_000_000);
    assert_eq!((limits.hour_value.msat(), limits.day_value.msat()), (0, 0));
}

#[test]
fn negative_options_count_down_from_the_top() {
    let limits = Limits::from_options(-1, 0, i64::MIN);
    assert_eq!(limits.max_invoice.msat(), u64::MAX);
    assert_eq!(limits.hour_limit.msat(), 0);
    assert_eq!(limits.day_limit.msat(), 1 << 63);
}

#[test]
fn amounts_add_up() {
    assert_eq!(Amount::from_msat(2).plus(Amount::from_msat(3)).msat(), 5);
    assert_eq!(Amount::from_msat(7), Amount::from_msat(7));
    assert_ne!(Amount::from_msat(7), Amount::from_msat(8));
}
