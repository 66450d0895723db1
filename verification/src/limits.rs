//! Limits on what the wallet spends: on one invoice, within an hour, within a day.
use std::time::Instant;

use vstd::prelude::*;

use crate::amount::Amount;
use crate::clock::{read_clock, since, start_clock, time_since, Clock, Reading};

verus! {

/// An hour in nanoseconds.
pub const NANOS_IN_HOUR: u128 = 3_600_000_000_000;

/// A day in nanoseconds.
pub const NANOS_IN_DAY: u128 = 86_400_000_000_000;

/// The limits, and what was spent in the current hour and in the current day.
#[derive(Debug, Clone, Copy)]
pub struct Limits {
    /// Max invoice size
    pub max_invoice: Amount,
    /// The clock by which the hour and the day are measured
    pub clock: Clock,
    /// Moment of hour start, on the clock
    pub hour_start: u128,
    /// Value sent in hour
    pub hour_value: Amount,
    /// Hour limit
    pub hour_limit: Amount,
    /// Moment of day start, on the clock
    pub day_start: u128,
    /// Value sent in day
    pub day_value: Amount,
    /// Day limit
    pub day_limit: Amount,
}

/// The limits and the spending, in millisatoshis, and when the current hour and the current
/// day started, on which clock.
pub struct LimitsView {
    pub max_invoice: nat,
    pub clock: Instant,
    pub hour_start: nat,
    pub hour_value: nat,
    pub hour_limit: nat,
    pub day_start: nat,
    pub day_value: nat,
    pub day_limit: nat,
}

impl View for Limits {
    type V = LimitsView;

    open spec fn view(&self) -> LimitsView {
        LimitsView {
            max_invoice: self.max_invoice@,
            clock: self.clock@,
            hour_start: self.hour_start as nat,
            hour_value: self.hour_value@,
            hour_limit: self.hour_limit@,
            day_start: self.day_start as nat,
            day_value: self.day_value@,
            day_limit: self.day_limit@,
        }
    }
}

/// Limits under which nothing was spent yet, and whose first hour and first day start at
/// `moment` on a clock.
pub open spec fn fresh_limits(
    max_invoice: nat,
    hour_limit: nat,
    day_limit: nat,
    clock: Instant,
    moment: nat,
) -> LimitsView {
    LimitsView {
        max_invoice,
        clock,
        hour_start: moment,
        hour_value: 0,
        hour_limit,
        day_start: moment,
        day_value: 0,
        day_limit,
    }
}

/// Which limit a payment would exceed.
#[derive(Debug, Clone, Copy, PartialEq, Eq, Structural)]
pub enum LimitError {
    /// Daily spend limit exceeded
    Day,
    /// Hour spend limit exceeded
    Hour,
}

impl LimitsView {
    /// What was spent stays within the limits.
    pub open spec fn within(self) -> bool {
        &&& self.hour_value <= self.hour_limit
        &&& self.day_value <= self.day_limit
    }

    /// The spending of an hour, or of a day, that is over no longer counts; the next one
    /// starts at `moment`.
    pub open spec fn rolled(self, hour_over: bool, day_over: bool, moment: nat) -> LimitsView {
        LimitsView {
            hour_start: if hour_over {
                moment
            } else {
                self.hour_start
            },
            hour_value: if hour_over {
                0
            } else {
                self.hour_value
            },
            day_start: if day_over {
                moment
            } else {
                self.day_start
            },
            day_value: if day_over {
                0
            } else {
                self.day_value
            },
            ..self
        }
    }

    /// The limits when the clock shows `now`: an hour is over once it has lasted more than
    /// an hour, and a day once it has lasted more than a day.
    pub open spec fn at(self, now: nat) -> LimitsView {
        self.rolled(
            time_since(self.hour_start, now) > NANOS_IN_HOUR,
            time_since(self.day_start, now) > NANOS_IN_DAY,
            now,
        )
    }

    /// Whether `amount` may be spent besides what was spent already.
    pub open spec fn verdict(self, amount: nat) -> Result<(), LimitError> {
        if self.day_value + amount > self.day_limit {
            Err(LimitError::Day)
        } else if self.hour_value + amount > self.hour_limit {
            Err(LimitError::Hour)
        } else {
            Ok(())
        }
    }

    /// Whether `amount` besides what was spent already can be held in 64 bits.
    pub open spec fn can_count(self, amount: nat) -> bool {
        &&& self.hour_value + amount <= u64::MAX
        &&& self.day_value + amount <= u64::MAX
    }

    /// After `amount` was spent.
    pub open spec fn spent(self, amount: nat) -> LimitsView {
        LimitsView {
            hour_value: self.hour_value + amount,
            day_value: self.day_value + amount,
            ..self
        }
    }
}

impl Limits {
    /// Limits under which nothing was spent yet; the first hour and the first day start when
    /// the clock shows `moment`.
    pub fn starting_at(
        max_invoice: Amount,
        hour_limit: Amount,
        day_limit: Amount,
        clock: Clock,
        moment: u128,
    ) -> (limits: Limits)
        ensures
            limits@ == fresh_limits(
                max_invoice@,
                hour_limit@,
                day_limit@,
                clock@,
                moment as nat,
            ),
    {
        Limits {
            max_invoice,
            clock,
            hour_start: moment,
            hour_value: Amount::from_msat(0),
            hour_limit,
            day_start: moment,
            day_value: Amount::from_msat(0),
            day_limit,
        }
    }

    /// Limits under which nothing was spent yet. Their clock starts now, and with it the
    /// first hour and the first day.
    pub fn new(max_invoice: Amount, hour_limit: Amount, day_limit: Amount) -> (limits: Limits)
        ensures
            limits@ == fresh_limits(max_invoice@, hour_limit@, day_limit@, limits@.clock, 0),
    {
        Limits::starting_at(max_invoice, hour_limit, day_limit, start_clock(), 0)
    }

    /// Limits given by the options of the wallet, each a number of millisatoshis.
    pub fn from_options(max_invoice: i64, hour_limit: i64, day_limit: i64) -> (limits: Limits)
        ensures
            limits@ == fresh_limits(
                option_msat(max_invoice),
                option_msat(hour_limit),
                option_msat(day_limit),
                limits@.clock,
                0,
            ),
    {
        Limits::new(
            amount_of_option(max_invoice),
            amount_of_option(hour_limit),
            amount_of_option(day_limit),
        )
    }

    /// Starts a new hour when the clock shows `moment`.
    pub fn start_hour(&mut self, moment: u128)
        ensures
            final(self)@ == old(self)@.rolled(true, false, moment as nat),
    {
        self.hour_value = Amount::from_msat(0);
        self.hour_start = moment;
    }

    /// Starts a new day when the clock shows `moment`.
    pub fn start_day(&mut self, moment: u128)
        ensures
            final(self)@ == old(self)@.rolled(false, true, moment as nat),
    {
        self.day_value = Amount::from_msat(0);
        self.day_start = moment;
    }

    /// Starts a new hour now.
    pub fn reset_hour(&mut self)
        ensures
            exists|now: Reading|
                {
                    &&& (#[trigger] now@).clock == old(self)@.clock
                    &&& final(self)@ == old(self)@.rolled(true, false, now@.nanos as nat)
                },
    {
        let now = self.now();
        self.start_hour(now.nanos());
    }

    /// Starts a new day now.
    pub fn reset_day(&mut self)
        ensures
            exists|now: Reading|
                {
                    &&& (#[trigger] now@).clock == old(self)@.clock
                    &&& final(self)@ == old(self)@.rolled(false, true, now@.nanos as nat)
                },
    {
        let now = self.now();
        self.start_day(now.nanos());
    }

    /// Whether `amount` may be spent now. An hour or a day that is over by now is closed
    /// first, and the next one starts now.
    pub fn check_limit(&mut self, amount: Amount) -> (verdict: Result<(), LimitError>)
        ensures
            exists|now: Reading|
                {
                    &&& (#[trigger] now@).clock == old(self)@.clock
                    &&& final(self)@ == old(self)@.at(now@.nanos as nat)
                },
            verdict == final(self)@.verdict(amount@),
    {
        let now = self.now();
        self.check_limit_at(now.nanos(), amount)
    }

    /// Reads the clock.
    pub(crate) fn now(&self) -> (now: Reading)
        ensures
            now@.clock == self@.clock,
    {
        read_clock(&self.clock)
    }

    /// Whether `amount` may be spent when the clock shows `now`. An hour or a day that is
    /// over by then is closed first, and the next one starts then. The limit of the day is
    /// looked at before that of the hour.
    pub fn check_limit_at(&mut self, now: u128, amount: Amount) -> (verdict: Result<
        (),
        LimitError,
    >)
        ensures
            final(self)@ == old(self)@.at(now as nat),
            verdict == final(self)@.verdict(amount@),
    {
        if since(self.hour_start, now) > NANOS_IN_HOUR {
            self.start_hour(now);
        }
        if since(self.day_start, now) > NANOS_IN_DAY {
            self.start_day(now);
        }
        if exceeds(self.day_value, amount, self.day_limit) {
            return Err(LimitError::Day);
        }
        if exceeds(self.hour_value, amount, self.hour_limit) {
            return Err(LimitError::Hour);
        }
        Ok(())
    }

    /// Counts a payment of `amount` in the current hour and in the current day.
    pub fn add_spend(&mut self, amount: Amount)
        requires
            old(self)@.can_count(amount@),
        ensures
            final(self)@ == old(self)@.spent(amount@),
    {
        // Add amount to hour spend
        self.hour_value = self.hour_value.plus(amount);
        // Add amount to day spend
        self.day_value = self.day_value.plus(amount);
    }
}

/// The millisatoshis that the value of an option stands for. A negative value counts down
/// from the largest amount.
pub open spec fn option_msat(value: i64) -> nat {
    if value >= 0 {
        value as nat
    } else {
        (u64::MAX + 1 + value) as nat
    }
}

/// The amount that the value of an option stands for.
fn amount_of_option(value: i64) -> (amount: Amount)
    ensures
        amount@ == option_msat(value),
{
    assert(value >= 0 ==> value as u64 == value) by (bit_vector);
    assert(value < 0 ==> value as u64 == 0x1_0000_0000_0000_0000 + value) by (bit_vector);
    Amount::from_msat(value as u64)
}

/// Whether `amount` on top of `value` is more than `limit`.
fn exceeds(value: Amount, amount: Amount, limit: Amount) -> (over: bool)
    ensures
        over == (value@ + amount@ > limit@),
{
    value.msat() > limit.msat() || amount.msat() > limit.msat() - value.msat()
}

impl LimitError {
    /// What the wallet says of the limit.
    pub open spec fn text(self) -> Seq<char> {
        match self {
            LimitError::Day => "Daily spend limit exceeded"@,
            LimitError::Hour => "Hour spend limit exceeded"@,
        }
    }

    /// What the wallet says of the limit.
    pub fn message(&self) -> (message: &'static str)
        ensures
            message@ == self.text(),
            match self {
                LimitError::Day => message@ == "Daily spend limit exceeded"@,
                LimitError::Hour => message@ == "Hour spend limit exceeded"@,
            },
    {
        match self {
            LimitError::Day => "Daily spend limit exceeded",
            LimitError::Hour => "Hour spend limit exceeded",
        }
    }
}

/// An attempt to spend `amount` when the clock shows `now`, and whether the payment, if the
/// limits allowed it, went out.
pub struct Attempt {
    pub now: nat,
    pub amount: nat,
    pub paid: bool,
}

impl LimitsView {
    /// Whether an attempt ends in a payment.
    pub open spec fn pays(self, attempt: Attempt) -> bool {
        attempt.paid && self.at(attempt.now).verdict(attempt.amount) is Ok
    }

    /// The limits after an attempt.
    pub open spec fn after_attempt(self, attempt: Attempt) -> LimitsView {
        if self.pays(attempt) {
            self.at(attempt.now).spent(attempt.amount)
        } else {
            self.at(attempt.now)
        }
    }

    /// The limits after some attempts, one after another.
    pub open spec fn after_attempts(self, attempts: Seq<Attempt>) -> LimitsView
        decreases attempts.len(),
    {
        if attempts.len() == 0 {
            self
        } else {
            self.after_attempts(attempts.drop_last()).after_attempt(attempts.last())
        }
    }

    /// What the attempts paid when the clock showed `moment` or later.
    pub open spec fn paid_since(self, attempts: Seq<Attempt>, moment: nat) -> nat
        decreases attempts.len(),
    {
        if attempts.len() == 0 {
            0
        } else {
            let last = attempts.last();
            let before = self.paid_since(attempts.drop_last(), moment);
            if last.now >= moment && self.after_attempts(attempts.drop_last()).pays(last) {
                before + last.amount
            } else {
                before
            }
        }
    }
}

/// The attempts were made one after another, none before `start`.
pub open spec fn in_order(attempts: Seq<Attempt>, start: nat) -> bool {
    &&& forall|i: int| 0 <= i < attempts.len() ==> start <= (#[trigger] attempts[i]).now
    &&& forall|i: int, j: int|
        0 <= i <= j < attempts.len() ==> (#[trigger] attempts[i]).now <= (
        #[trigger] attempts[j]).now
}

/// Spending what the limits allow stays within them, and is counted once in the hour
/// and once in the day.
pub proof fn law_allowed_spending_stays_within(limits: LimitsView, amount: nat)
    requires
        limits.verdict(amount) is Ok,
    ensures
        limits.spent(amount).within(),
        limits.spent(amount).hour_value == limits.hour_value + amount,
        limits.spent(amount).day_value == limits.day_value + amount,
{
}

/// However payments are attempted, the wallet never pays more since the start of the current
/// hour than the hour's limit, nor more since the start of the current day than the day's
/// limit. The limits themselves stay, and count exactly what was paid.
pub proof fn law_spending_never_exceeds_limits(limits: LimitsView, attempts: Seq<Attempt>)
    requires
        limits.hour_value == 0,
        limits.day_value == 0,
        in_order(attempts, limits.hour_start),
        in_order(attempts, limits.day_start),
    ensures
        ({
            let after = limits.after_attempts(attempts);
            let paid_in_hour = limits.paid_since(attempts, after.hour_start);
            let paid_in_day = limits.paid_since(attempts, after.day_start);
            &&& paid_in_hour <= limits.hour_limit
            &&& paid_in_day <= limits.day_limit
            &&& after == (LimitsView {
                hour_start: after.hour_start,
                hour_value: paid_in_hour,
                day_start: after.day_start,
                day_value: paid_in_day,
                ..limits
            })
        }),
    decreases attempts.len(),
{
    if attempts.len() > 0 {
        let earlier = attempts.drop_last();
        let last = attempts.last();
        assert forall|i: int| 0 <= i < earlier.len() implies earlier[i] == attempts[i] by {}
        law_spending_never_exceeds_limits(limits, earlier);
        assert(last == attempts[attempts.len() - 1]);
        if earlier.len() > 0 {
            lemma_last_attempt_counts(limits, earlier);
            assert(earlier.last() == attempts[attempts.len() - 2]);
        }
        lemma_nothing_paid_since(limits, earlier, last.now);
    }
}

/// The last attempt lies in the hour and in the day that are current after it.
proof fn lemma_last_attempt_counts(limits: LimitsView, attempts: Seq<Attempt>)
    requires
        attempts.len() > 0,
        in_order(attempts, limits.hour_start),
        in_order(attempts, limits.day_start),
    ensures
        ({
            let after = limits.after_attempts(attempts);
            let now = attempts.last().now;
            &&& after.hour_start <= now <= after.hour_start + NANOS_IN_HOUR
            &&& after.day_start <= now <= after.day_start + NANOS_IN_DAY
        }),
    decreases attempts.len(),
{
    let earlier = attempts.drop_last();
    let last = attempts[attempts.len() - 1];
    assert(attempts.last() == last);
    assert(limits.hour_start <= last.now && limits.day_start <= last.now);
    if earlier.len() > 0 {
        assert forall|i: int| 0 <= i < earlier.len() implies earlier[i] == attempts[i] by {}
        lemma_last_attempt_counts(limits, earlier);
        assert(earlier.last() == attempts[attempts.len() - 2]);
    } else {
        assert(limits.after_attempts(earlier) == limits);
    }
}

/// Nothing is paid after the last attempt.
proof fn lemma_nothing_paid_since(limits: LimitsView, attempts: Seq<Attempt>, moment: nat)
    requires
        in_order(attempts, limits.hour_start),
    ensures
        (attempts.len() > 0 ==> attempts.last().now < moment) ==> limits.paid_since(
            attempts,
            moment,
        ) == 0,
    decreases attempts.len(),
{
    if attempts.len() > 0 {
        let earlier = attempts.drop_last();
        assert forall|i: int| 0 <= i < earlier.len() implies earlier[i] == attempts[i] by {}
        lemma_nothing_paid_since(limits, earlier, moment);
        if earlier.len() > 0 {
            assert(earlier.last() == attempts[attempts.len() - 2]);
        }
    }
}

/// An hour ends only after more than an hour, and a day only after more than a day; the next
/// one starts at the moment at which the last one was found to be over.
pub proof fn law_periods_last(limits: LimitsView, attempt: Attempt)
    ensures
        ({
            let after = limits.after_attempt(attempt);
            &&& if attempt.now > limits.hour_start + NANOS_IN_HOUR {
                after.hour_start == attempt.now
            } else {
                after.hour_start == limits.hour_start
            }
            &&& if attempt.now > limits.day_start + NANOS_IN_DAY {
                after.day_start == attempt.now
            } else {
                after.day_start == limits.day_start
            }
        }),
{
}

/// A payment that a limit refuses would have gone beyond that very limit, and one that
/// none refuses would not have gone beyond any.
pub proof fn law_refusals_are_due(limits: LimitsView, amount: nat)
    ensures
        limits.verdict(amount) == Err::<(), LimitError>(LimitError::Day) ==> limits.spent(
            amount,
        ).day_value > limits.day_limit,
        limits.verdict(amount) == Err::<(), LimitError>(LimitError::Hour) ==> limits.spent(
            amount,
        ).hour_value > limits.hour_limit,
        limits.verdict(amount) is Ok <==> limits.spent(amount).within(),
{
}

/// When the clock shows `now`, an hour that started more than 3600 seconds ago is over: its
/// spending no longer counts, and the next one starts now. A day is over after 86400 seconds.
/// An hour or a day that is not over is kept, and the limits stay in any case.
pub proof fn law_limits_in_time(limits: LimitsView, now: nat)
    ensures
        ({
            let then = limits.at(now);
            let hour_over = now > limits.hour_start + 3600 * 1_000_000_000;
            let day_over = now > limits.day_start + 86400 * 1_000_000_000;
            &&& hour_over ==> then.hour_start == now && then.hour_value == 0
            &&& !hour_over ==> then.hour_start == limits.hour_start && then.hour_value
                == limits.hour_value
            &&& day_over ==> then.day_start == now && then.day_value == 0
            &&& !day_over ==> then.day_start == limits.day_start && then.day_value
                == limits.day_value
            &&& then.max_invoice == limits.max_invoice
            &&& then.hour_limit == limits.hour_limit
            &&& then.day_limit == limits.day_limit
            &&& then.clock == limits.clock
        }),
{
}

/// To start a new hour clears the spending of the hour and nothing else, and likewise of a
/// day.
pub proof fn law_new_periods(limits: LimitsView, moment: nat)
    ensures
        ({
            let hour = limits.rolled(true, false, moment);
            &&& hour.hour_start == moment && hour.hour_value == 0
            &&& hour.day_start == limits.day_start && hour.day_value == limits.day_value
            &&& hour.max_invoice == limits.max_invoice && hour.clock == limits.clock
            &&& hour.hour_limit == limits.hour_limit && hour.day_limit == limits.day_limit
        }),
        ({
            let day = limits.rolled(false, true, moment);
            &&& day.day_start == moment && day.day_value == 0
            &&& day.hour_start == limits.hour_start && day.hour_value == limits.hour_value
            &&& day.max_invoice == limits.max_invoice && day.clock == limits.clock
            &&& day.hour_limit == limits.hour_limit && day.day_limit == limits.day_limit
        }),
{
}

/// An amount may be spent if and only if neither the day's spending nor the hour's would then
/// exceed its limit; where both would, the day's limit is named. What may be spent, any
/// smaller amount may be too.
pub proof fn law_verdicts(limits: LimitsView, amount: nat, smaller: nat)
    ensures
        limits.verdict(amount) is Ok <==> {
            &&& limits.hour_value + amount <= limits.hour_limit
            &&& limits.day_value + amount <= limits.day_limit
        },
        limits.verdict(amount) == Err::<(), LimitError>(LimitError::Day) <==> limits.day_value
            + amount > limits.day_limit,
        limits.verdict(amount) == Err::<(), LimitError>(LimitError::Hour) <==> {
            &&& limits.hour_value + amount > limits.hour_limit
            &&& limits.day_value + amount <= limits.day_limit
        },
        smaller <= amount && limits.verdict(amount) is Ok ==> limits.verdict(smaller) is Ok,
{
}

/// What is spent is added to the hour's and to the day's spending, and changes nothing else;
/// to spend twice is to spend the sum.
pub proof fn law_spending_adds_up(limits: LimitsView, first: nat, second: nat)
    ensures
        limits.spent(first).hour_value == limits.hour_value + first,
        limits.spent(first).day_value == limits.day_value + first,
        limits.spent(first).hour_start == limits.hour_start,
        limits.spent(first).day_start == limits.day_start,
        limits.spent(first).max_invoice == limits.max_invoice,
        limits.spent(first).hour_limit == limits.hour_limit,
        limits.spent(first).day_limit == limits.day_limit,
        limits.spent(first).clock == limits.clock,
        limits.spent(first).spent(second) == limits.spent(first + second),
        limits.can_count(first) <==> limits.hour_value + first < 0x1_0000_0000_0000_0000
            && limits.day_value + first < 0x1_0000_0000_0000_0000,
        limits.within() <==> limits.hour_value <= limits.hour_limit && limits.day_value
            <= limits.day_limit,
{
}

/// Fresh limits are the ones that were given, with nothing spent.
pub proof fn law_fresh_limits(
    max_invoice: nat,
    hour_limit: nat,
    day_limit: nat,
    clock: Instant,
    moment: nat,
)
    ensures
        ({
            let limits = fresh_limits(max_invoice, hour_limit, day_limit, clock, moment);
            &&& limits.max_invoice == max_invoice
            &&& limits.hour_limit == hour_limit && limits.hour_value == 0
            &&& limits.day_limit == day_limit && limits.day_value == 0
            &&& limits.hour_start == moment && limits.day_start == moment
            &&& limits.clock == clock
        }),
{
}

/// An option that is not negative is that many millisatoshis; a negative one differs from its
/// amount by 2 to the power of 64.
pub proof fn law_options(value: i64)
    ensures
        value >= 0 ==> option_msat(value) == value,
        value < 0 ==> option_msat(value) - value == 0x1_0000_0000_0000_0000,
{
}

/// What is said of limits is what they hold.
pub proof fn law_limits_are_seen_whole(limits: Limits)
    ensures
        limits@.max_invoice == limits.max_invoice@,
        limits@.clock == limits.clock@,
        limits@.hour_start == limits.hour_start,
        limits@.hour_value == limits.hour_value@,
        limits@.hour_limit == limits.hour_limit@,
        limits@.day_start == limits.day_start,
        limits@.day_value == limits.day_value@,
        limits@.day_limit == limits.day_limit@,
{
}

} // verus!
