//! The deadline timer. Its deadline is fixed when it is made, as the wall
//! clock reading then plus the requested span, and a step finishes it once
//! the clock reads at least that deadline. It registers nothing: how soon a
//! finished timer is noticed depends only on how often it is stepped.
use crate::runtime::Poll;
use vstd::prelude::*;

verus! {

/// Nanoseconds in a millisecond.
pub const NANOS_PER_MILLI: u128 = 1_000_000;

/// Nanoseconds in a second.
pub const NANOS_PER_SEC: u128 = 1_000_000_000;

/// A span of time, in nanoseconds.
#[derive(Debug, Clone, Copy, PartialEq, Eq, Structural)]
pub struct Duration {
    nanos: u128,
}

impl Duration {
    /// The span in nanoseconds.
    pub closed spec fn spec_nanos(&self) -> nat {
        self.nanos as nat
    }

    pub fn from_nanos(n: u64) -> (r: Duration)
        ensures
            r.spec_nanos() == n,
    {
        Duration { nanos: n as u128 }
    }

    pub fn from_millis(ms: u64) -> (r: Duration)
        ensures
            r.spec_nanos() == ms * NANOS_PER_MILLI,
    {
        assert(ms * NANOS_PER_MILLI <= u64::MAX * NANOS_PER_MILLI) by (nonlinear_arith);
        Duration { nanos: ms as u128 * NANOS_PER_MILLI }
    }

    pub fn from_secs(s: u64) -> (r: Duration)
        ensures
            r.spec_nanos() == s * NANOS_PER_SEC,
    {
        assert(s * NANOS_PER_SEC <= u64::MAX * NANOS_PER_SEC) by (nonlinear_arith);
        Duration { nanos: s as u128 * NANOS_PER_SEC }
    }

    pub fn as_nanos(&self) -> (r: u128)
        ensures
            r == self.spec_nanos(),
    {
        self.nanos
    }
}

/// The deadline of a timer started at `start` for `span` nanoseconds: their
/// sum, or the largest reading the clock can give where the sum is larger.
pub open spec fn deadline_of(start: nat, span: nat) -> nat {
    if start + span <= u128::MAX {
        start + span
    } else {
        u128::MAX as nat
    }
}

/// Whether a timer with `deadline` has finished when the clock reads `now`.
pub open spec fn expired(deadline: nat, now: nat) -> bool {
    now >= deadline
}

/// Relies on `SystemTime::elapsed`, applied to the Unix epoch: the wall clock
/// reading in nanoseconds, or none where the clock stands before the epoch.
/// Nothing is promised of the value itself.
#[verifier::external_body]
fn wall_clock_nanos() -> (r: Option<u128>) {
    std::time::UNIX_EPOCH.elapsed().ok().map(|d| d.as_nanos())
}

/// The wall clock in nanoseconds since the Unix epoch, read as zero where the
/// clock stands before the epoch.
pub fn now_nanos() -> (r: u128) {
    match wall_clock_nanos() {
        Some(n) => n,
        None => 0,
    }
}

/// A timer future: finished once the wall clock reaches its deadline.
pub struct Sleep {
    deadline: u128,
}

impl Sleep {
    /// The deadline, in nanoseconds since the Unix epoch.
    pub closed spec fn deadline(&self) -> nat {
        self.deadline as nat
    }

    /// A timer started when the clock read `start`, for `span`.
    pub fn starting_at(start: u128, span: Duration) -> (r: Sleep)
        ensures
            r.deadline() == deadline_of(start as nat, span.spec_nanos()),
    {
        match start.checked_add(span.nanos) {
            Some(d) => Sleep { deadline: d },
            None => Sleep { deadline: u128::MAX },
        }
    }

    /// A timer started now, for `span`: its deadline is the clock reading now
    /// plus `span`, so it lies at least `span` past the epoch.
    pub fn new(span: Duration) -> (r: Sleep)
        ensures
            exists|start: u128| r.deadline() == deadline_of(start as nat, span.spec_nanos()),
    {
        let start = now_nanos();
        Sleep::starting_at(start, span)
    }

    /// The deadline, in nanoseconds since the Unix epoch.
    pub fn deadline_nanos(&self) -> (r: u128)
        ensures
            r == self.deadline(),
    {
        self.deadline
    }

    /// One step with the clock reading `now`: finished exactly when `now` has
    /// reached the deadline.
    pub fn poll_at(&self, now: u128) -> (r: Poll<()>)
        ensures
            r is Ready <==> expired(self.deadline(), now as nat),
    {
        if now >= self.deadline {
            Poll::Ready(())
        } else {
            Poll::Pending
        }
    }

    /// One step against the wall clock: finished exactly when the clock,
    /// read during the call, has reached the deadline (see `poll_at`).
    pub fn poll(&self) -> (r: Poll<()>)
        ensures
            exists|now: u128| (r is Ready <==> expired(self.deadline(), now as nat)),
    {
        let now = now_nanos();
        self.poll_at(now)
    }
}

/// Once a timer has finished, it reads as finished at every later clock
/// reading.
pub proof fn lemma_expired_stays(s: Sleep, t1: nat, t2: nat)
    requires
        t1 <= t2,
        expired(s.deadline(), t1),
    ensures
        expired(s.deadline(), t2),
{
}

/// A timer started at `start` for `span` has not finished at any reading
/// before `start + span`, and has finished at every reading from then on.
pub proof fn lemma_deadline_bounds(start: u128, span: Duration, now: nat)
    requires
        start + span.spec_nanos() <= u128::MAX,
    ensures
        expired(deadline_of(start as nat, span.spec_nanos()), now) <==> now >= start
            + span.spec_nanos(),
{
}

/// Timers started at the same clock reading finish in the order of their
/// spans: wherever the longer one has finished, the shorter one has too, and
/// between the two deadlines only the shorter one has finished.
pub proof fn lemma_shorter_finishes_first(start: u128, short: Duration, long: Duration, now: nat)
    requires
        short.spec_nanos() <= long.spec_nanos(),
    ensures
        expired(deadline_of(start as nat, long.spec_nanos()), now) ==> expired(
            deadline_of(start as nat, short.spec_nanos()),
            now,
        ),
        start + long.spec_nanos() <= u128::MAX && start + short.spec_nanos() <= now < start
            + long.spec_nanos() ==> expired(deadline_of(start as nat, short.spec_nanos()), now)
            && !expired(deadline_of(start as nat, long.spec_nanos()), now),
{
}

} // verus!
