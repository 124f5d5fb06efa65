//! Simulated time: a day count with a time of day, and the accelerated clock
//! that turns elapsed real time into simulated time.

use crate::span::Span;
use crate::text::{
    decimal, differs_first_at, lemma_before_with_head, lemma_before_with_tails,
    lemma_digits_on_len, lemma_digits_on_order, lemma_two_digits_fixed, pow10, push_decimal,
    push_ten_digits, push_two_digits, ten_digits, text_before, two_digits,
};
use std::time::Instant;
use vstd::arithmetic::div_mod::lemma_fundamental_div_mod_converse;
use vstd::prelude::*;
use vstd::string::StringExecFns;

verus! {

/// Seconds in a day.
pub const SECS_PER_DAY: u64 = 86_400;

/// The last second that a [`SimpleTime`] can show: 23:59:59 on day `u32::MAX`.
pub const LAST_SECOND: u64 = 371_085_174_374_399;

/// A day and a time of day in the simulation.
#[derive(Clone, Copy, Debug, PartialEq, Eq, Structural)]
pub struct SimpleTime {
    pub day: u32,
    pub hour: u32,
    pub minute: u32,
    pub second: u32,
}

impl Default for SimpleTime {
    /// Seven o'clock in the morning of day 0.
    fn default() -> (r: Self)
        ensures
            r == (SimpleTime { day: 0, hour: 7, minute: 0, second: 0 }),
    {
        SimpleTime { day: 0, hour: 7, minute: 0, second: 0 }
    }
}

impl SimpleTime {
    /// Seconds since midnight of day 0.
    pub open spec fn total_seconds(self) -> nat {
        (self.day * 86_400 + self.hour * 3_600 + self.minute * 60 + self.second) as nat
    }

    /// The hour is below 24, the minute and the second below 60.
    pub open spec fn is_normal(self) -> bool {
        self.hour < 24 && self.minute < 60 && self.second < 60
    }

    /// The time that lies `total` seconds after midnight of day 0.
    pub open spec fn of_total(total: nat) -> SimpleTime {
        SimpleTime {
            day: (total / 86_400) as u32,
            hour: (total % 86_400 / 3_600) as u32,
            minute: (total % 3_600 / 60) as u32,
            second: (total % 60) as u32,
        }
    }

    /// This time `secs` seconds later, seconds and minutes carrying at 60 and
    /// hours at 24. Time stops at [`LAST_SECOND`].
    pub open spec fn plus(self, secs: nat) -> SimpleTime {
        let total = self.total_seconds() + secs;
        if total <= LAST_SECOND {
            SimpleTime::of_total(total)
        } else {
            SimpleTime::of_total(LAST_SECOND as nat)
        }
    }

    /// Order by day, then hour, then minute, then second.
    pub open spec fn not_after(self, other: SimpleTime) -> bool {
        self.day < other.day || (self.day == other.day && (self.hour < other.hour || (self.hour
            == other.hour && (self.minute < other.minute || (self.minute == other.minute
            && self.second <= other.second)))))
    }

    /// The text of [`SimpleTime::to_timestamp`]: the day on ten digits, `T`,
    /// then hour, minute and second on two digits each with colons between.
    pub open spec fn timestamp_text(self) -> Seq<char> {
        ten_digits(self.day as nat) + seq!['T'] + two_digits(self.hour as nat) + seq![':']
            + two_digits(self.minute as nat) + seq![':'] + two_digits(self.second as nat)
    }

    /// The words that stand before the time of day: nothing on day 0, then
    /// the day count with `jour` or `jours` and a space.
    pub open spec fn day_text(self) -> Seq<char> {
        if self.day == 0 {
            Seq::<char>::empty()
        } else if self.day == 1 {
            decimal(1) + seq![' ', 'j', 'o', 'u', 'r', ' ']
        } else {
            decimal(self.day as nat) + seq![' ', 'j', 'o', 'u', 'r', 's', ' ']
        }
    }

    /// The text of [`SimpleTime::to_string`].
    pub open spec fn display_text(self) -> Seq<char> {
        self.day_text() + two_digits(self.hour as nat) + seq!['h'] + two_digits(
            self.minute as nat,
        ) + seq!['m'] + two_digits(self.second as nat) + seq!['s', '\n']
    }

    /// This time `rhs` later; the fraction of a second in `rhs` is dropped.
    pub fn add(self, rhs: Span) -> (r: SimpleTime)
        ensures
            r == self.plus(rhs.secs as nat),
            r.is_normal(),
    {
        let base: u64 = (self.day as u64) * 86_400 + (self.hour as u64) * 3_600 + (
        self.minute as u64) * 60 + (self.second as u64);
        let total: u64 = if base >= LAST_SECOND {
            LAST_SECOND
        } else if rhs.secs > LAST_SECOND - base {
            LAST_SECOND
        } else {
            base + rhs.secs
        };
        SimpleTime {
            day: (total / 86_400) as u32,
            hour: (total % 86_400 / 3_600) as u32,
            minute: (total % 3_600 / 60) as u32,
            second: (total % 60) as u32,
        }
    }

    /// Moves this time `rhs` later; the fraction of a second in `rhs` is
    /// dropped.
    pub fn add_assign(&mut self, rhs: Span)
        ensures
            *final(self) == old(self).plus(rhs.secs as nat),
            final(self).is_normal(),
    {
        let later: SimpleTime = self.add(rhs);
        *self = later;
    }

    /// The time as `{day}T{hour}:{minute}:{second}`, the day on ten digits
    /// and the time of day on two digits each. Of two times of day within
    /// their bounds, the earlier has the text that sorts first: see
    /// [`lemma_timestamps_sort`].
    pub fn to_timestamp(&self) -> (r: String)
        ensures
            r@ == self.timestamp_text(),
    {
        proof {
            reveal_strlit("T");
            reveal_strlit(":");
        }
        let mut out: String = String::new();
        push_ten_digits(&mut out, self.day);
        out.append("T");
        push_two_digits(&mut out, self.hour as u64);
        out.append(":");
        push_two_digits(&mut out, self.minute as u64);
        out.append(":");
        push_two_digits(&mut out, self.second as u64);
        assert(out@ =~= self.timestamp_text());
        out
    }

    /// The time for a reader: `{hour}h{minute}m{second}s` and a line break,
    /// after `1 jour ` or `{day} jours ` from day 1 on.
    pub fn to_string(&self) -> (r: String)
        ensures
            r@ == self.display_text(),
    {
        proof {
            reveal_strlit(" jour");
            reveal_strlit("s");
            reveal_strlit(" ");
            reveal_strlit("h");
            reveal_strlit("m");
            reveal_strlit("s\n");
        }
        let mut out: String = String::new();
        if self.day > 0 {
            push_decimal(&mut out, self.day as u64);
            out.append(" jour");
            if self.day > 1 {
                out.append("s");
            }
            out.append(" ");
        }
        assert(out@ =~= self.day_text());
        push_two_digits(&mut out, self.hour as u64);
        out.append("h");
        push_two_digits(&mut out, self.minute as u64);
        out.append("m");
        push_two_digits(&mut out, self.second as u64);
        out.append("s\n");
        assert(out@ =~= self.display_text());
        out
    }
}

/// `std::time::Instant`, a reading of the machine's monotonic clock. Nothing
/// is known of what it holds.
#[verifier::external_type_specification]
#[verifier::external_body]
pub struct ExInstant(Instant);

/// `Instant::now`: the present reading of the machine's clock. Nothing is
/// claimed of it.
#[verifier::external_body]
fn tick_now() -> Instant {
    Instant::now()
}

/// `Instant::elapsed`: the real time that has passed since `tick`, handed
/// out as whole seconds and the nanoseconds of the second under way, which
/// `Duration::subsec_nanos` keeps below one second.
#[verifier::external_body]
fn elapsed_since(tick: &Instant) -> (r: Span)
    ensures
        r.wf(),
{
    let passed = tick.elapsed();
    Span { secs: passed.as_secs(), nanos: passed.subsec_nanos() }
}

/// The accelerated clock: a simulated time, the reading of the machine's
/// clock at which that time was right, and how many simulated seconds pass
/// in one real second.
#[derive(Debug)]
pub struct TollClock {
    /// Simulated seconds per real second.
    pub acceleration_factor: u32,
    /// The simulated time at the last update.
    pub clock: SimpleTime,
    /// The reading of the machine's clock at the last update.
    pub last_tick: Instant,
}

impl Clone for TollClock {
    fn clone(&self) -> (r: Self)
        ensures
            r == *self,
    {
        TollClock {
            acceleration_factor: self.acceleration_factor,
            clock: self.clock,
            last_tick: self.last_tick,
        }
    }
}

impl Default for TollClock {
    /// Ten times real time, from seven o'clock in the morning of day 0.
    fn default() -> (r: Self)
        ensures
            r.acceleration_factor == 10,
            r.clock == (SimpleTime { day: 0, hour: 7, minute: 0, second: 0 }),
    {
        TollClock { acceleration_factor: 10, clock: SimpleTime::default(), last_tick: tick_now() }
    }
}

impl TollClock {
    /// The simulated time once `elapsed` real time has passed since the last
    /// update: the time of that update plus `elapsed` times the acceleration
    /// factor, in whole seconds.
    pub open spec fn spec_time_after(self, elapsed: Span) -> SimpleTime {
        self.clock.plus(elapsed.stretched_secs(self.acceleration_factor))
    }

    /// This clock once `elapsed` real time has been folded into its time.
    pub open spec fn advanced(self, elapsed: Span, clock: TollClock) -> bool {
        &&& clock.acceleration_factor == self.acceleration_factor
        &&& clock.clock == self.spec_time_after(elapsed)
    }

    /// The simulated time once `elapsed` real time has passed since the last
    /// update. The clock is left as it is.
    pub fn time_after(&self, elapsed: Span) -> (r: SimpleTime)
        ensures
            r == self.spec_time_after(elapsed),
            r.is_normal(),
    {
        let secs: u64 = elapsed.stretch_secs(self.acceleration_factor);
        self.clock.add(Span::from_secs(secs))
    }

    /// Folds `elapsed` real time into the clock's time. The reading from
    /// which the clock counts is left as it is.
    pub fn advance(&mut self, elapsed: Span)
        ensures
            old(self).advanced(elapsed, *final(self)),
            final(self).last_tick == old(self).last_tick,
            final(self).clock.is_normal(),
    {
        let later: SimpleTime = self.time_after(elapsed);
        self.clock = later;
    }

    /// Folds `elapsed` real time into the clock's time and has the clock
    /// count from the reading `tick` on, so that no time is counted twice.
    pub fn advance_to(&mut self, elapsed: Span, tick: Instant)
        ensures
            old(self).advanced(elapsed, *final(self)),
            final(self).last_tick == tick,
            final(self).clock.is_normal(),
    {
        self.advance(elapsed);
        self.last_tick = tick;
    }

    /// The real time that has passed since the last update.
    pub fn elapsed(&self) -> (r: Span)
        ensures
            r.wf(),
    {
        elapsed_since(&self.last_tick)
    }

    /// Brings the clock's time up to the present: the real time that has
    /// passed since the last update is folded in, and counting starts anew
    /// from a fresh reading of the machine's clock, as in
    /// [`TollClock::advance_to`].
    pub fn update(&mut self)
        ensures
            exists|elapsed: Span| elapsed.wf() && #[trigger] old(self).advanced(elapsed, *final(self)),
            final(self).clock.is_normal(),
            old(self).clock.is_normal() ==> old(self).clock.total_seconds()
                <= final(self).clock.total_seconds(),
    {
        let elapsed: Span = self.elapsed();
        let tick: Instant = tick_now();
        self.advance_to(elapsed, tick);
        proof {
            assert(old(self).advanced(elapsed, *self));
            if old(self).clock.is_normal() {
                lemma_now_not_before_update(*old(self), elapsed);
            }
        }
    }

    /// The simulated time at present. The clock is left as it is.
    pub fn now(&self) -> (r: SimpleTime)
        ensures
            exists|elapsed: Span| elapsed.wf() && r == #[trigger] self.spec_time_after(elapsed),
            r.is_normal(),
            self.clock.is_normal() ==> self.clock.total_seconds() <= r.total_seconds(),
    {
        let elapsed: Span = self.elapsed();
        proof {
            if self.clock.is_normal() {
                lemma_now_not_before_update(*self, elapsed);
            }
        }
        self.time_after(elapsed)
    }
}

/// Splitting a count of seconds into day, hour, minute and second loses
/// nothing and gives a time of day within its bounds.
pub proof fn lemma_of_total(total: nat)
    requires
        total <= LAST_SECOND,
    ensures
        SimpleTime::of_total(total).is_normal(),
        SimpleTime::of_total(total).total_seconds() == total,
{
    let t = total as int;
    let day = t / 86_400;
    let in_day = t % 86_400;
    let hour = in_day / 3_600;
    let in_hour = in_day % 3_600;
    let minute = in_hour / 60;
    let second = in_hour % 60;
    assert(t == (day * 24 + hour) * 3_600 + in_hour);
    lemma_fundamental_div_mod_converse(t, 3_600, day * 24 + hour, in_hour);
    assert(t == ((day * 24 + hour) * 60 + minute) * 60 + second);
    lemma_fundamental_div_mod_converse(t, 60, (day * 24 + hour) * 60 + minute, second);
    assert(t % 3_600 / 60 == minute);
    assert(t % 60 == second);
    assert(day <= u32::MAX);
}

/// Adding seconds gives a time of day within its bounds, as many seconds
/// later as were added, short of the last second that can be shown.
pub proof fn lemma_plus(time: SimpleTime, secs: nat)
    ensures
        time.plus(secs).is_normal(),
        time.plus(secs).total_seconds() == if time.total_seconds() + secs <= LAST_SECOND {
            time.total_seconds() + secs
        } else {
            LAST_SECOND as nat
        },
{
    let total = time.total_seconds() + secs;
    if total <= LAST_SECOND {
        lemma_of_total(total);
    } else {
        lemma_of_total(LAST_SECOND as nat);
    }
}

/// A time of day within its bounds is left as it is when nothing is added.
pub proof fn lemma_plus_nothing(time: SimpleTime)
    requires
        time.is_normal(),
    ensures
        time.plus(0) == time,
{
    let t = time.total_seconds() as int;
    let in_day = time.hour * 3_600 + time.minute * 60 + time.second;
    let in_hour = time.minute * 60 + time.second;
    lemma_fundamental_div_mod_converse(t, 86_400, time.day as int, in_day);
    lemma_fundamental_div_mod_converse(in_day, 3_600, time.hour as int, in_hour);
    lemma_fundamental_div_mod_converse(
        t,
        3_600,
        time.day * 24 + time.hour,
        in_hour,
    );
    lemma_fundamental_div_mod_converse(in_hour, 60, time.minute as int, time.second as int);
    lemma_fundamental_div_mod_converse(
        t,
        60,
        (time.day * 24 + time.hour) * 60 + time.minute,
        time.second as int,
    );
    assert(t <= LAST_SECOND);
    assert(SimpleTime::of_total(t as nat) == time);
}

/// Among times of day within their bounds, the order by day, hour, minute
/// and second is the order of the seconds counted since day 0.
pub proof fn lemma_order_is_chronological(a: SimpleTime, b: SimpleTime)
    requires
        a.is_normal(),
        b.is_normal(),
    ensures
        a.not_after(b) <==> a.total_seconds() <= b.total_seconds(),
{
}

/// Stretching a longer span gives no fewer seconds.
pub proof fn lemma_stretch_is_monotonic(earlier: Span, later: Span, factor: u32)
    requires
        earlier.total_nanos() <= later.total_nanos(),
    ensures
        earlier.stretched_secs(factor) <= later.stretched_secs(factor),
{
    let a = earlier.total_nanos() as int;
    let b = later.total_nanos() as int;
    let f = factor as int;
    assert(a * f <= b * f) by (nonlinear_arith)
        requires
            0 <= a <= b,
            0 <= f,
    ;
    assert((a * f) / 1_000_000_000 <= (b * f) / 1_000_000_000);
}

/// The clock never runs backwards: read after more real time, it shows a
/// time that is not earlier.
pub proof fn lemma_now_is_monotonic(clock: TollClock, earlier: Span, later: Span)
    requires
        earlier.total_nanos() <= later.total_nanos(),
    ensures
        clock.spec_time_after(earlier).total_seconds() <= clock.spec_time_after(
            later,
        ).total_seconds(),
        clock.spec_time_after(earlier).not_after(clock.spec_time_after(later)),
{
    lemma_stretch_is_monotonic(earlier, later, clock.acceleration_factor);
    let first = clock.spec_time_after(earlier);
    let second = clock.spec_time_after(later);
    lemma_plus(clock.clock, earlier.stretched_secs(clock.acceleration_factor));
    lemma_plus(clock.clock, later.stretched_secs(clock.acceleration_factor));
    lemma_order_is_chronological(first, second);
}

/// A clock whose time is within its bounds never shows a time before the
/// time of its last update.
pub proof fn lemma_now_not_before_update(clock: TollClock, elapsed: Span)
    requires
        clock.clock.is_normal(),
    ensures
        clock.clock.total_seconds() <= clock.spec_time_after(elapsed).total_seconds(),
        clock.clock.not_after(clock.spec_time_after(elapsed)),
{
    lemma_plus(clock.clock, elapsed.stretched_secs(clock.acceleration_factor));
    lemma_order_is_chronological(clock.clock, clock.spec_time_after(elapsed));
}

/// An update counts the elapsed time once: read at once after an update,
/// the clock shows the time that it showed at the moment of the update.
pub proof fn lemma_update_then_now(clock: TollClock, elapsed: Span, updated: TollClock)
    requires
        clock.advanced(elapsed, updated),
    ensures
        updated.spec_time_after(Span { secs: 0, nanos: 0 }) == clock.spec_time_after(elapsed),
{
    lemma_plus(clock.clock, elapsed.stretched_secs(clock.acceleration_factor));
    let zero = Span { secs: 0, nanos: 0 };
    assert(zero.stretched_secs(updated.acceleration_factor) == 0) by {
        assert(zero.total_nanos() == 0);
        assert(0 * (updated.acceleration_factor as nat) == 0);
    }
    lemma_plus_nothing(updated.clock);
}

/// Updates do not let the clock run backwards either: after an update, a
/// reading is never earlier than the time shown at the moment of the update.
pub proof fn lemma_now_after_update(
    clock: TollClock,
    elapsed: Span,
    updated: TollClock,
    since: Span,
)
    requires
        clock.advanced(elapsed, updated),
    ensures
        clock.spec_time_after(elapsed).total_seconds() <= updated.spec_time_after(
            since,
        ).total_seconds(),
        clock.spec_time_after(elapsed).not_after(updated.spec_time_after(since)),
{
    lemma_plus(clock.clock, elapsed.stretched_secs(clock.acceleration_factor));
    lemma_now_not_before_update(updated, since);
}

/// Ten digits hold every day count.
pub proof fn lemma_day_fits_ten_digits(day: u32)
    ensures
        day < pow10(10),
{
    reveal_with_fuel(pow10, 11);
    assert(pow10(10) == 10_000_000_000);
}

/// The texts of two parts of a timestamp on two digits sort as the parts do.
proof fn lemma_two_digits_order(low: nat, high: nat) -> (k: int)
    requires
        low < high < 100,
    ensures
        0 <= k < 2,
        two_digits(low).len() == 2,
        two_digits(high).len() == 2,
        differs_first_at(two_digits(low), two_digits(high), k),
{
    lemma_two_digits_fixed(low);
    lemma_two_digits_fixed(high);
    lemma_digits_on_len(low, 2);
    lemma_digits_on_len(high, 2);
    reveal_with_fuel(pow10, 3);
    lemma_digits_on_order(low, high, 2)
}

/// Timestamps sort as the times do: of two times of day within their
/// bounds, the earlier has the text that sorts first.
pub proof fn lemma_timestamps_sort(a: SimpleTime, b: SimpleTime)
    requires
        a.is_normal(),
        b.is_normal(),
        a.total_seconds() < b.total_seconds(),
    ensures
        text_before(a.timestamp_text(), b.timestamp_text()),
        a.timestamp_text().len() == 19,
        b.timestamp_text().len() == 19,
{
    let day_a = ten_digits(a.day as nat);
    let day_b = ten_digits(b.day as nat);
    lemma_digits_on_len(a.day as nat, 10);
    lemma_digits_on_len(b.day as nat, 10);
    lemma_two_digits_fixed(a.hour as nat);
    lemma_two_digits_fixed(b.hour as nat);
    lemma_two_digits_fixed(a.minute as nat);
    lemma_two_digits_fixed(b.minute as nat);
    lemma_two_digits_fixed(a.second as nat);
    lemma_two_digits_fixed(b.second as nat);
    lemma_digits_on_len(a.hour as nat, 2);
    lemma_digits_on_len(b.hour as nat, 2);
    lemma_digits_on_len(a.minute as nat, 2);
    lemma_digits_on_len(b.minute as nat, 2);
    lemma_digits_on_len(a.second as nat, 2);
    lemma_digits_on_len(b.second as nat, 2);
    let hour_a = two_digits(a.hour as nat);
    let hour_b = two_digits(b.hour as nat);
    let minute_a = two_digits(a.minute as nat);
    let minute_b = two_digits(b.minute as nat);
    let second_a = two_digits(a.second as nat);
    let second_b = two_digits(b.second as nat);
    let text_a = a.timestamp_text();
    let text_b = b.timestamp_text();
    if a.day < b.day {
        lemma_day_fits_ten_digits(b.day);
        let k = lemma_digits_on_order(a.day as nat, b.day as nat, 10);
        let tail_a = seq!['T'] + hour_a + seq![':'] + minute_a + seq![':'] + second_a;
        let tail_b = seq!['T'] + hour_b + seq![':'] + minute_b + seq![':'] + second_b;
        lemma_before_with_tails(day_a, day_b, k, tail_a, tail_b);
        assert(text_a =~= day_a + tail_a);
        assert(text_b =~= day_b + tail_b);
        assert(differs_first_at(text_a, text_b, k));
    } else if a.hour < b.hour {
        let k = lemma_two_digits_order(a.hour as nat, b.hour as nat);
        let head = day_a + seq!['T'];
        let tail_a = seq![':'] + minute_a + seq![':'] + second_a;
        let tail_b = seq![':'] + minute_b + seq![':'] + second_b;
        lemma_before_with_tails(hour_a, hour_b, k, tail_a, tail_b);
        lemma_before_with_head(head, hour_a + tail_a, hour_b + tail_b, k);
        assert(text_a =~= head + (hour_a + tail_a));
        assert(text_b =~= head + (hour_b + tail_b));
        assert(differs_first_at(text_a, text_b, head.len() + k));
    } else if a.minute < b.minute {
        let k = lemma_two_digits_order(a.minute as nat, b.minute as nat);
        let head = day_a + seq!['T'] + hour_a + seq![':'];
        let tail_a = seq![':'] + second_a;
        let tail_b = seq![':'] + second_b;
        lemma_before_with_tails(minute_a, minute_b, k, tail_a, tail_b);
        lemma_before_with_head(head, minute_a + tail_a, minute_b + tail_b, k);
        assert(text_a =~= head + (minute_a + tail_a));
        assert(text_b =~= head + (minute_b + tail_b));
        assert(differs_first_at(text_a, text_b, head.len() + k));
    } else {
        let k = lemma_two_digits_order(a.second as nat, b.second as nat);
        let head = day_a + seq!['T'] + hour_a + seq![':'] + minute_a + seq![':'];
        lemma_before_with_head(head, second_a, second_b, k);
        assert(text_a =~= head + second_a);
        assert(text_b =~= head + second_b);
        assert(differs_first_at(text_a, text_b, head.len() + k));
    }
}

} // verus!
