use vstd::prelude::*;

verus! {

/// The pacer's bucket as mathematics: a nanotoken balance and the time of the
/// latest refill, in nanoseconds.
pub struct PacerState {
    pub tokens: int,
    pub last: int,
}

/// One admission costs this many nanotokens; the balance refills at `rate`
/// nanotokens per nanosecond, i.e. `rate` admissions per second.
pub open spec fn token_cost() -> int {
    1_000_000_000
}

/// The bucket never holds more than one second's refill: the burst tolerance
/// is exactly `rate` admissions.
pub open spec fn bucket_cap(rate: u32) -> int {
    rate * token_cost()
}

/// The balance after topping up for the time elapsed since the latest refill,
/// capped at the bucket's size.
pub open spec fn refilled(rate: u32, s: PacerState, now: int) -> int {
    let grown = s.tokens + (now - s.last) * rate;
    if grown <= bucket_cap(rate) {
        grown
    } else {
        bucket_cap(rate)
    }
}

/// One admission attempt at time `now`: refill, then admit and spend one
/// token's cost if the balance covers it, else refuse and spend nothing.
pub open spec fn spec_admit(rate: u32, s: PacerState, now: int) -> (PacerState, bool) {
    let t = refilled(rate, s, now);
    if t >= token_cost() {
        (PacerState { tokens: t - token_cost(), last: now }, true)
    } else {
        (PacerState { tokens: t, last: now }, false)
    }
}

/// The shared token bucket bounding the aggregate dispatch rate across all
/// workers (spec'd by a queries-per-second ceiling; a ceiling of zero means
/// no pacer exists and admission is immediate, so a `Pacer` always carries a
/// positive rate). Workers ask `try_admit` with the current time; the caller
/// sleeps and retries on refusal, so no wait ever blocks inside the library.
#[derive(Clone, Copy, Debug)]
pub struct Pacer {
    /// Admissions per second, positive.
    pub rate: u32,
    /// Nanotoken balance.
    pub tokens: u64,
    /// Time of the latest refill, nanoseconds.
    pub last: u64,
}

impl Pacer {
    /// The bucket as mathematics.
    pub open spec fn state(&self) -> PacerState {
        PacerState { tokens: self.tokens as int, last: self.last as int }
    }

    /// Well-formedness: a positive rate and a balance within the bucket.
    pub open spec fn wf(&self) -> bool {
        &&& self.rate > 0
        &&& self.tokens as int <= bucket_cap(self.rate)
    }

    /// A bucket starting full at time `now`: the first second may burst up to
    /// `rate` admissions.
    pub fn new(rate: u32, now: u64) -> (p: Pacer)
        requires
            rate > 0,
        ensures
            p.wf(),
            p.rate == rate,
            p.state() == (PacerState { tokens: bucket_cap(rate), last: now as int }),
    {
        proof {
            assert(rate as int * token_cost() <= u64::MAX as int) by (nonlinear_arith)
                requires
                    rate <= u32::MAX,
            ;
        }
        let tokens: u64 = (rate as u64) * 1_000_000_000u64;
        Pacer { rate, tokens, last: now }
    }

    /// Ask for one admission at time `now` (the caller's clock must not run
    /// backwards between calls). Refills for the elapsed time, then either
    /// admits, consuming one token, or refuses.
    pub fn try_admit(&mut self, now: u64) -> (r: bool)
        requires
            old(self).wf(),
            old(self).last <= now,
        ensures
            final(self).wf(),
            final(self).rate == old(self).rate,
            ({
                let (s2, adm) = spec_admit(old(self).rate, old(self).state(), now as int);
                final(self).state() == s2 && r == adm
            }),
    {
        let elapsed: u64 = now - self.last;
        proof {
            assert((elapsed as int) * (self.rate as int) <= (u64::MAX as int) * (u32::MAX as int))
                by (nonlinear_arith)
                requires
                    0 <= elapsed as int <= u64::MAX as int,
                    0 <= self.rate as int <= u32::MAX as int,
            ;
            assert(0 <= (elapsed as int) * (self.rate as int)) by (nonlinear_arith)
                requires
                    0 <= elapsed as int,
                    0 <= self.rate as int,
            ;
            assert((u64::MAX as int) * (u32::MAX as int) + u64::MAX < u128::MAX as int)
                by (nonlinear_arith);
            assert(self.rate as int * token_cost() <= u64::MAX as int) by (nonlinear_arith)
                requires
                    self.rate <= u32::MAX,
            ;
        }
        let grown: u128 = (self.tokens as u128) + (elapsed as u128) * (self.rate as u128);
        let capv: u128 = (self.rate as u128) * 1_000_000_000u128;
        let t: u128 = if grown <= capv {
            grown
        } else {
            capv
        };
        self.last = now;
        if t >= 1_000_000_000u128 {
            self.tokens = (t - 1_000_000_000u128) as u64;
            true
        } else {
            self.tokens = t as u64;
            false
        }
    }
}

/// The admission times are presented in order: each at or after the
/// previous one (starting from `last`), and none after `end`.
pub open spec fn times_ok(last: int, times: Seq<int>, end: int) -> bool
    decreases times.len(),
{
    if times.len() == 0 {
        true
    } else {
        &&& last <= times[0]
        &&& times[0] <= end
        &&& times_ok(times[0], times.drop_first(), end)
    }
}

/// How many of the admission attempts at the given times succeed, starting
/// from state `s`.
pub open spec fn admitted_count(rate: u32, s: PacerState, times: Seq<int>) -> int
    decreases times.len(),
{
    if times.len() == 0 {
        0
    } else {
        let (s2, adm) = spec_admit(rate, s, times[0]);
        (if adm {
            1int
        } else {
            0int
        }) + admitted_count(rate, s2, times.drop_first())
    }
}

/// However many admissions are demanded over a window of `end - s.last`
/// nanoseconds, at whatever instants, the pacer admits no more than the
/// ceiling allows for the window plus the bucket's burst: scaled by the token
/// cost, admissions never exceed the starting balance plus the window's
/// refill. With a full starting bucket this reads: admissions x 10^9 <=
/// rate x 10^9 + duration x rate.
pub proof fn lemma_admissions_bounded(rate: u32, s: PacerState, times: Seq<int>, end: int)
    requires
        rate > 0,
        0 <= s.tokens,
        s.tokens <= bucket_cap(rate),
        s.last <= end,
        times_ok(s.last, times, end),
    ensures
        token_cost() * admitted_count(rate, s, times) <= s.tokens + (end - s.last) * rate,
    decreases times.len(),
{
    if times.len() == 0 {
        assert(0 <= (end - s.last) * rate) by (nonlinear_arith)
            requires
                0 <= end - s.last,
                0 <= rate as int,
        ;
    } else {
        let t0 = times[0];
        let t = refilled(rate, s, t0);
        let (s2, adm) = spec_admit(rate, s, t0);
        assert(0 <= (t0 - s.last) * rate) by (nonlinear_arith)
            requires
                0 <= t0 - s.last,
                0 <= rate as int,
        ;
        lemma_admissions_bounded(rate, s2, times.drop_first(), end);
        assert((t0 - s.last) * rate + (end - t0) * rate == (end - s.last) * rate)
            by (nonlinear_arith);
    }
}

/// With a ceiling of `rate` per second and unlimited demand over a window of
/// `end - start` nanoseconds, a bucket that starts full admits at most the
/// ceiling's share of the window plus one bucket's burst: admissions x 10^9
/// <= rate x 10^9 + (end - start) x rate.
pub proof fn lemma_full_bucket_admissions(rate: u32, start: int, times: Seq<int>, end: int)
    requires
        rate > 0,
        start <= end,
        times_ok(start, times, end),
    ensures
        token_cost() * admitted_count(
            rate,
            PacerState { tokens: bucket_cap(rate), last: start },
            times,
        ) <= token_cost() * rate + (end - start) * rate,
{
    assert(0 <= bucket_cap(rate)) by (nonlinear_arith)
        requires
            0 <= rate as int,
    ;
    lemma_admissions_bounded(
        rate,
        PacerState { tokens: bucket_cap(rate), last: start },
        times,
        end,
    );
}

} // verus!
