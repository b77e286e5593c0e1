//! Limits how often something is done.
use crate::clock::{Interval, Stopwatch};
use vstd::prelude::*;

verus! {

/// What a rate limiter goes by, in nanoseconds on its clock.
pub struct LimiterView {
    /// The shortest time between two moments at which the limit is reached.
    pub limit: nat,
    /// When the limit was last reached. It may lie before the clock's start.
    pub last: int,
    /// The latest reading of the clock that the limiter has seen. It never goes
    /// back.
    pub read: nat,
}

impl LimiterView {
    /// A limiter that was made or reset at `now`: the limit counts as reached a
    /// full interval before.
    pub open spec fn fresh(limit: nat, now: nat) -> LimiterView {
        LimiterView { limit, last: now - limit, read: now }
    }

    /// A reading of the clock as the limiter takes it: one that lies before what it
    /// has seen counts as that.
    pub open spec fn seen(self, now: nat) -> nat {
        if now >= self.read {
            now
        } else {
            self.read
        }
    }

    /// The limit was last reached no later than at the latest reading.
    pub open spec fn wf(self) -> bool {
        self.last <= self.read
    }

    /// Whether the limit is reached when the clock reads `now`.
    pub open spec fn reached(self, now: nat) -> bool {
        self.seen(now) - self.last >= self.limit
    }

    /// The limiter after a check at `now`.
    pub open spec fn checked(self, now: nat) -> LimiterView {
        LimiterView {
            limit: self.limit,
            last: if self.reached(now) {
                self.seen(now) as int
            } else {
                self.last
            },
            read: self.seen(now),
        }
    }

    /// The limiter after a reset at `now`.
    pub open spec fn restarted(self, now: nat) -> LimiterView {
        LimiterView::fresh(self.limit, self.seen(now))
    }
}

/// When the limit counts as last reached.
#[derive(Clone, Copy, Debug)]
enum Last {
    /// At that reading of the clock.
    At(Interval),
    /// One full limit before that reading of the clock.
    LimitBefore(Interval),
}

/// Tells whether a given time has gone by since the last time it said so.
#[derive(Debug)]
pub struct RateLimiter {
    limit: Interval,
    clock: Stopwatch,
    last_limit_reached: Last,
    read: Interval,
}

impl View for RateLimiter {
    type V = LimiterView;

    closed spec fn view(&self) -> LimiterView {
        LimiterView {
            limit: self.limit.total(),
            last: match self.last_limit_reached {
                Last::At(at) => at.total() as int,
                Last::LimitBefore(at) => at.total() - self.limit.total(),
            },
            read: self.read.total(),
        }
    }
}

impl RateLimiter {
    /// A limiter whose limit counts as reached right away.
    pub fn new(limit: Interval) -> (limiter: Self)
        ensures
            limiter@ == LimiterView::fresh(limit.total(), 0),
    {
        let start = Interval { secs: 0, nanos: 0 };
        RateLimiter::new_at(limit, Stopwatch::start(), start)
    }

    /// A limiter that goes by a given clock, made when that clock reads `now`.
    pub fn new_at(limit: Interval, clock: Stopwatch, now: Interval) -> (limiter: Self)
        ensures
            limiter@ == LimiterView::fresh(limit.total(), now.total()),
    {
        RateLimiter { limit, clock, last_limit_reached: Last::LimitBefore(now), read: now }
    }

    /// A reading of the clock, or the latest one seen where that is later.
    fn see(&self, now: Interval) -> (seen: Interval)
        ensures
            seen.total() == self@.seen(now.total()),
    {
        if now.as_nanos() >= self.read.as_nanos() {
            now
        } else {
            self.read
        }
    }

    /// Starts over: the limit counts as reached right away.
    pub fn reset(&mut self)
        ensures
            final(self)@.read >= old(self)@.read,
            final(self)@ == LimiterView::fresh(old(self)@.limit, final(self)@.read),
    {
        let now = self.clock.elapsed();
        self.reset_at(now);
    }

    /// Starts over when the clock reads `now`.
    pub fn reset_at(&mut self, now: Interval)
        ensures
            final(self)@ == old(self)@.restarted(now.total()),
    {
        self.read = self.see(now);
        self.last_limit_reached = Last::LimitBefore(self.read);
    }

    /// Returns true if the limit has been reached
    pub fn check(&mut self) -> (reached: bool)
        ensures
            final(self)@.read >= old(self)@.read,
            reached == old(self)@.reached(final(self)@.read),
            final(self)@ == old(self)@.checked(final(self)@.read),
    {
        let now = self.clock.elapsed();
        self.check_at(now)
    }

    /// Whether the limit has been reached when the clock reads `now`.
    pub fn check_at(&mut self, now: Interval) -> (reached: bool)
        ensures
            reached == old(self)@.reached(now.total()),
            final(self)@ == old(self)@.checked(now.total()),
    {
        self.read = self.see(now);
        let at: i128 = self.read.as_nanos();
        let limit: i128 = self.limit.as_nanos();
        let last: i128 = match &self.last_limit_reached {
            Last::At(last) => last.as_nanos(),
            Last::LimitBefore(made) => made.as_nanos() - limit,
        };
        if at - last >= limit {
            self.last_limit_reached = Last::At(self.read);
            true
        } else {
            false
        }
    }
}

/// A limiter never takes the limit to be reached in the future: not when it is made, nor
/// after a check or a reset.
pub proof fn limit_was_reached_in_the_past(limiter: LimiterView, limit: nat, now: nat)
    requires
        limiter.wf(),
    ensures
        LimiterView::fresh(limit, now).wf(),
        limiter.checked(now).wf(),
        limiter.restarted(now).wf(),
{
}

/// The first check of a limiter that was just made or reset says that the limit
/// is reached, however soon it comes.
pub proof fn fresh_limiter_is_reached(limit: nat, made: nat, now: nat)
    ensures
        LimiterView::fresh(limit, made).reached(now),
{
}

/// The first check after a reset says that the limit is reached, whenever either
/// of them comes, and the one after that has to wait for a full limit.
pub proof fn first_check_after_a_reset_is_reached(
    limiter: LimiterView,
    reset: nat,
    first: nat,
    second: nat,
)
    ensures
        limiter.restarted(reset).reached(first),
        ({
            let checked = limiter.restarted(reset).checked(first);
            checked.reached(second) <==> checked.seen(second) - checked.read >= limiter.limit
        }),
{
}

/// Two checks in a row that both say that the limit is reached lie at least
/// the limit apart.
pub proof fn reached_checks_lie_apart(limiter: LimiterView, first: nat, second: nat)
    requires
        limiter.reached(first),
        limiter.checked(first).reached(second),
        limiter.read <= first <= second,
    ensures
        second - first >= limiter.limit,
{
}

/// A check that says that the limit is not reached does not put off the next one.
pub proof fn early_check_changes_nothing(limiter: LimiterView, now: nat, later: nat)
    requires
        !limiter.reached(now),
        now <= later,
    ensures
        limiter.checked(now).last == limiter.last,
        limiter.checked(now).limit == limiter.limit,
        limiter.checked(now).reached(later) == limiter.reached(later),
{
}

/// Once the limit is reached it stays so until a check notices.
pub proof fn reached_limit_stays_reached(limiter: LimiterView, now: nat, later: nat)
    requires
        limiter.reached(now),
        now <= later,
    ensures
        limiter.reached(later),
{
}

/// After a check that found the limit reached, a later one finds it reached again just if
/// the time between the two is at least the limit.
pub proof fn limit_is_reached_again_in_time(limiter: LimiterView, first: nat, second: nat)
    requires
        limiter.reached(first),
        limiter.read <= first <= second,
    ensures
        limiter.checked(first).reached(second) <==> second - first >= limiter.limit,
        limiter.checked(first).limit == limiter.limit,
{
}

/// Checks that find the limit not reached in between make no difference to when it is.
pub proof fn checks_in_between_do_not_count(
    limiter: LimiterView,
    first: nat,
    between: nat,
    last: nat,
)
    requires
        limiter.reached(first),
        limiter.read <= first <= between <= last,
        between - first < limiter.limit,
    ensures
        !limiter.checked(first).reached(between),
        limiter.checked(first).checked(between).reached(last) <==> last - first >= limiter.limit,
{
}

/// A reading that lies before one already seen is as good as that one, so a clock that
/// seems to go back neither reaches the limit nor puts it off.
pub proof fn clock_never_goes_back(limiter: LimiterView, earlier: nat, now: nat)
    requires
        earlier <= limiter.read <= now,
    ensures
        limiter.reached(earlier) <==> limiter.reached(limiter.read),
        limiter.checked(earlier) == limiter.checked(limiter.read),
        limiter.checked(earlier).read == limiter.read,
        limiter.checked(now).read == now,
{
}

} // verus!
