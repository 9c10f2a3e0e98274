//! # Presence Tracker
//!
//! Tracks whether a person is present and manages the disappearance timeout.
//!
//! ## Behaviour
//! - When a person is detected: state → `Present`, timer resets.
//! - When no person for less than the timeout: state → `TimingOut(remaining)`.
//! - When no person for at least the timeout: state → `Absent`.
//!
//! Times are nanoseconds on a monotonic clock; `update_at` takes the current
//! time as an argument, `update` reads the clock itself.

use std::time::{Duration, Instant};
use vstd::prelude::*;

verus! {

/// Default timeout before "absent" is declared: 30 seconds, in nanoseconds.
pub const DEFAULT_TIMEOUT_NANOS: u128 = 30_000_000_000;

/// Declares `std::time::Instant` to the verifier as an opaque type.
#[verifier::external_type_specification]
#[verifier::external_body]
pub struct ExInstant(Instant);

/// Calls `Instant::now`. Nothing is stated of the instant returned.
#[verifier::external_body]
fn instant_now() -> Instant {
    Instant::now()
}

/// Calls `Instant::elapsed`. The duration depends on the clock, so nothing
/// is stated of it.
#[verifier::external_body]
fn instant_elapsed(origin: &Instant) -> Duration {
    origin.elapsed()
}

/// The number of whole nanoseconds a duration spans, as
/// `Duration::as_nanos` computes it; the same duration always gives the
/// same number.
pub uninterp spec fn duration_as_nanos(d: Duration) -> u128;

/// Calls `Duration::as_nanos`; the result is named `duration_as_nanos`.
#[verifier::external_body]
fn duration_nanos(d: Duration) -> (n: u128)
    ensures
        n == duration_as_nanos(d),
{
    d.as_nanos()
}

/// Presence state returned by [`PresenceTracker::update`].
#[derive(Debug, Clone, Copy, PartialEq, Eq, Structural)]
pub enum PresenceState {
    /// A person is currently detected.
    Present,
    /// No person detected but within the timeout window; the value is the
    /// remaining time in nanoseconds before `Absent` is declared.
    TimingOut(u128),
    /// No person detected and the timeout has elapsed — turn the fan off.
    Absent,
}

impl PresenceState {
    /// Returns `true` if the fan should be running (Present or TimingOut).
    pub fn should_fan_run(&self) -> (b: bool)
        ensures
            b <==> !(*self is Absent),
    {
        !matches!(self, PresenceState::Absent)
    }

    /// Is someone currently detected?
    pub fn is_present(&self) -> (b: bool)
        ensures
            b <==> *self is Present,
    {
        matches!(self, PresenceState::Present)
    }
}

/// Time elapsed from `since` to `now`, saturating at zero when `now` is
/// earlier.
pub open spec fn elapsed_between(since: u128, now: u128) -> u128 {
    if now >= since {
        (now - since) as u128
    } else {
        0
    }
}

/// The state reported at time `now` when no person is detected, given the
/// time of the last sighting (if any) and the timeout.
pub open spec fn spec_absence_state(last_seen: Option<u128>, timeout: u128, now: u128) -> PresenceState {
    match last_seen {
        None => PresenceState::Absent,
        Some(t) => {
            let elapsed = elapsed_between(t, now);
            if elapsed >= timeout {
                PresenceState::Absent
            } else {
                PresenceState::TimingOut((timeout - elapsed) as u128)
            }
        },
    }
}

/// Time from the last sighting (if any) to `now`.
pub open spec fn spec_time_since(last_seen: Option<u128>, now: u128) -> Option<u128> {
    match last_seen {
        None => None,
        Some(t) => Some(elapsed_between(t, now)),
    }
}

/// Tracks human presence and the disappearance timeout.
#[derive(Debug)]
pub struct PresenceTracker {
    /// Origin of the tracker's clock.
    clock: Instant,
    /// Time of the last confirmed detection; `None` = never seen.
    last_seen: Option<u128>,
    /// How long to wait after losing sight before declaring `Absent`.
    timeout: u128,
    /// The latest clock reading the tracker has taken (nanoseconds since
    /// the clock origin); readings never go back before it.
    latest: u128,
}

impl PresenceTracker {
    /// Time (nanoseconds since the tracker's clock origin) of the last
    /// detection, if any.
    pub closed spec fn last_seen(&self) -> Option<u128> {
        self.last_seen
    }

    /// The timeout in nanoseconds.
    pub closed spec fn timeout(&self) -> u128 {
        self.timeout
    }

    /// The latest clock reading taken by the tracker, in nanoseconds since
    /// its clock origin.
    pub closed spec fn latest_reading(&self) -> u128 {
        self.latest
    }

    /// Reads the tracker's clock. The clock is monotonic; a reading is never
    /// taken as earlier than the latest one.
    fn read_clock(&mut self) -> (now: u128)
        ensures
            now >= old(self).latest_reading(),
            final(self).latest_reading() == now,
            final(self).last_seen() == old(self).last_seen(),
            final(self).timeout() == old(self).timeout(),
    {
        let r = duration_nanos(instant_elapsed(&self.clock));
        let now = if r >= self.latest {
            r
        } else {
            self.latest
        };
        self.latest = now;
        now
    }

    /// Creates a tracker with a timeout given in nanoseconds.
    pub fn with_timeout_nanos(timeout_nanos: u128) -> (t: Self)
        ensures
            t.last_seen() is None,
            t.timeout() == timeout_nanos,
    {
        let clock = instant_now();
        let latest = duration_nanos(instant_elapsed(&clock));
        PresenceTracker { clock, last_seen: None, timeout: timeout_nanos, latest }
    }

    /// Creates a tracker with a custom timeout. It has never seen a person.
    pub fn new(timeout: Duration) -> (t: Self)
        ensures
            t.last_seen() is None,
            t.timeout() == duration_as_nanos(timeout),
    {
        Self::with_timeout_nanos(duration_nanos(timeout))
    }

    /// Updates the tracker with the detection result of a frame taken at
    /// time `now` and returns the new state.
    pub fn update_at(&mut self, person_detected: bool, now: u128) -> (s: PresenceState)
        ensures
            final(self).timeout() == old(self).timeout(),
            final(self).latest_reading() == old(self).latest_reading(),
            person_detected ==> s == PresenceState::Present && final(self).last_seen() == Some(
                now,
            ),
            !person_detected ==> s == spec_absence_state(
                old(self).last_seen(),
                old(self).timeout(),
                now,
            ) && final(self).last_seen() == old(self).last_seen(),
    {
        if person_detected {
            self.last_seen = Some(now);
            return PresenceState::Present;
        }
        match self.last_seen {
            None => PresenceState::Absent,
            Some(last) => {
                let elapsed = if now >= last {
                    now - last
                } else {
                    0
                };
                if elapsed >= self.timeout {
                    PresenceState::Absent
                } else {
                    PresenceState::TimingOut(self.timeout - elapsed)
                }
            },
        }
    }

    /// Updates the tracker with the latest detection result, read against
    /// the tracker's clock, and returns the new state.
    pub fn update(&mut self, person_detected: bool) -> (s: PresenceState)
        ensures
            final(self).timeout() == old(self).timeout(),
            exists|now: u128|
                {
                    &&& person_detected ==> s == PresenceState::Present && final(self).last_seen()
                        == Some(now)
                    &&& !person_detected ==> s == spec_absence_state(
                        old(self).last_seen(),
                        old(self).timeout(),
                        now,
                    ) && final(self).last_seen() == old(self).last_seen()
                },
            person_detected ==> s is Present && final(self).last_seen() is Some,
            !person_detected ==> !(s is Present),
            !person_detected && old(self).last_seen() is None ==> s is Absent,
            final(self).latest_reading() >= old(self).latest_reading(),
            person_detected ==> final(self).last_seen() == Some(final(self).latest_reading()),
            !person_detected ==> s == spec_absence_state(
                old(self).last_seen(),
                old(self).timeout(),
                final(self).latest_reading(),
            ),
    {
        let now = self.read_clock();
        self.update_at(person_detected, now)
    }

    /// Forgets the last detection (e.g. system restart / manual override).
    pub fn reset(&mut self)
        ensures
            final(self).last_seen() is None,
            final(self).timeout() == old(self).timeout(),
            final(self).latest_reading() == old(self).latest_reading(),
    {
        self.last_seen = None;
    }

    /// Time from the last detection to `now`, or `None` if never seen.
    pub fn time_since_last_seen_at(&self, now: u128) -> (d: Option<u128>)
        ensures
            match self.last_seen() {
                None => d is None,
                Some(t) => d == Some(elapsed_between(t, now)),
            },
    {
        match self.last_seen {
            None => None,
            Some(t) => Some(
                if now >= t {
                    now - t
                } else {
                    0
                },
            ),
        }
    }

    /// Time since the last detection, read against the tracker's clock, or
    /// `None` if never seen.
    pub fn time_since_last_seen(&self) -> (d: Option<u128>)
        ensures
            d is None <==> self.last_seen() is None,
            exists|now: u128|
                now >= self.latest_reading() && d == #[trigger] spec_time_since(
                    self.last_seen(),
                    now,
                ),
    {
        let r = duration_nanos(instant_elapsed(&self.clock));
        let now = if r >= self.latest {
            r
        } else {
            self.latest
        };
        let d = self.time_since_last_seen_at(now);
        assert(d == spec_time_since(self.last_seen(), now));
        d
    }
}

impl Default for PresenceTracker {
    fn default() -> (t: Self)
        ensures
            t.last_seen() is None,
            t.timeout() == DEFAULT_TIMEOUT_NANOS,
    {
        Self::with_timeout_nanos(DEFAULT_TIMEOUT_NANOS)
    }
}

/// Losing sight of a person: when a tracker records a sighting at its
/// clock reading `t1` and a later update without detection reads `t2` (the
/// tracker's readings never go back), the state is `TimingOut` with the
/// timeout less the time since the sighting while that is shorter than the
/// timeout, and `Absent` after.
pub proof fn lemma_lost_sight(seen: PresenceTracker, later: PresenceTracker, s: PresenceState)
    requires
        seen.last_seen() == Some(seen.latest_reading()),
        later.latest_reading() >= seen.latest_reading(),
        s == spec_absence_state(seen.last_seen(), seen.timeout(), later.latest_reading()),
    ensures
        later.latest_reading() - seen.latest_reading() < seen.timeout() ==> s
            == PresenceState::TimingOut(
            (seen.timeout() - (later.latest_reading() - seen.latest_reading())) as u128,
        ),
        later.latest_reading() - seen.latest_reading() >= seen.timeout() ==> s
            == PresenceState::Absent,
{
}

/// Without any sighting, the tracker reports `Absent` at every time.
pub proof fn lemma_never_seen_is_absent(timeout: u128, now: u128)
    ensures
        spec_absence_state(None, timeout, now) == PresenceState::Absent,
{
}

/// After a sighting at `seen`, the tracker reports `TimingOut` with the
/// rest of the timeout while less than the timeout has passed, and `Absent`
/// from then on; the remaining time is positive and at most the timeout.
pub proof fn lemma_timeout_window(seen: u128, timeout: u128, now: u128)
    requires
        seen <= now,
    ensures
        now - seen < timeout ==> spec_absence_state(Some(seen), timeout, now)
            == PresenceState::TimingOut((timeout - (now - seen)) as u128),
        now - seen >= timeout ==> spec_absence_state(Some(seen), timeout, now)
            == PresenceState::Absent,
        spec_absence_state(Some(seen), timeout, now) matches PresenceState::TimingOut(r) ==> 0
            < r <= timeout,
{
}

/// While no one is detected, time only runs down: at a later time the
/// remaining time is no larger, and once `Absent` the state stays `Absent`.
pub proof fn lemma_absence_monotone(last_seen: Option<u128>, timeout: u128, t1: u128, t2: u128)
    requires
        t1 <= t2,
    ensures
        spec_absence_state(last_seen, timeout, t1) is Absent ==> spec_absence_state(
            last_seen,
            timeout,
            t2,
        ) is Absent,
        spec_absence_state(last_seen, timeout, t2) matches PresenceState::TimingOut(r2)
            ==> spec_absence_state(last_seen, timeout, t1) matches PresenceState::TimingOut(r1)
            && r2 <= r1,
{
}

} // verus!
