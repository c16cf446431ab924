//! Per-device throttling: at most one accepted observation of a device per
//! interval, with a periodic sweep that forgets devices not heard of for a
//! long time, so that memory stays bounded.
//!
//! Time is a count of nanoseconds from some fixed origin.

use crate::mac_address::{address_number, MacAddress};
use crate::text::{chars_of, parse_whole, push_chars, trim_range, trimmed, whole_number};
use std::collections::HashMap;
use std::time::Instant;
use vstd::prelude::*;
use vstd::string::StringExecFns;

verus! {

broadcast use vstd::std_specs::hash::group_hash_axioms;

/// An entry is stale when it is older than this many intervals.
pub const CLEANUP_THRESHOLD_MULTIPLIER: u128 = 10;

/// Every this many observations a sweep is considered.
pub const CLEANUP_CHECK_INTERVAL: usize = 100;

/// A sweep is made only when more devices than this are remembered.
pub const CLEANUP_SIZE_THRESHOLD: usize = 50;

/// `std::time::Instant`, a reading of the monotonic clock; nothing of its
/// inside is known here.
#[verifier::external_type_specification]
#[verifier::external_body]
pub struct ExInstant(Instant);

/// Calls `Instant::now`, the current reading of the monotonic clock.
#[verifier::external_body]
fn clock_origin() -> (origin: Instant) {
    Instant::now()
}

/// Calls `Instant::elapsed` and gives the time since `origin` in
/// nanoseconds. Nothing is claimed of the value.
#[verifier::external_body]
fn clock_nanos(origin: &Instant) -> (nanos: u128) {
    origin.elapsed().as_nanos()
}

/// The time from `last` to `now`; zero when `now` is the earlier one.
pub open spec fn age(now: u128, last: u128) -> int {
    if now >= last {
        now - last
    } else {
        0
    }
}

/// The entries of `m` that at `now` are no older than `threshold`.
pub open spec fn fresh_entries(m: Map<u64, u128>, now: u128, threshold: int) -> Map<u64, u128> {
    Map::new(|k: u64| m.contains_key(k) && age(now, m[k]) <= threshold, |k: u64| m[k])
}

/// The entries that a sweep at `now` leaves: those no older than
/// `CLEANUP_THRESHOLD_MULTIPLIER` intervals. With an interval of zero
/// nothing is stale and a sweep leaves everything.
pub open spec fn swept(m: Map<u64, u128>, interval: u128, now: u128) -> Map<u64, u128> {
    if interval == 0 {
        m
    } else {
        fresh_entries(m, now, CLEANUP_THRESHOLD_MULTIPLIER * interval)
    }
}

/// What a throttle knows: the interval, when each device was last accepted
/// (by the number of its address), and how many observations have passed
/// since a sweep was last considered.
pub struct ThrottleState {
    pub interval: u128,
    pub last_seen: Map<u64, u128>,
    pub check_count: nat,
}

impl ThrottleState {
    /// Whether the observation that comes next is one at which a sweep is
    /// considered.
    pub open spec fn check_due(self) -> bool {
        self.check_count + 1 >= CLEANUP_CHECK_INTERVAL
    }

    /// The remembered devices as an observation at `now` finds them: swept,
    /// when a sweep is considered and more than `CLEANUP_SIZE_THRESHOLD`
    /// devices are remembered.
    pub open spec fn prepared(self, now: u128) -> Map<u64, u128> {
        if self.check_due() && self.last_seen.len() > CLEANUP_SIZE_THRESHOLD {
            swept(self.last_seen, self.interval, now)
        } else {
            self.last_seen
        }
    }

    /// Whether an observation of `key` at `now` is accepted: the device is
    /// not remembered, or an interval or more has passed since it was last
    /// accepted.
    pub open spec fn emits(self, key: u64, now: u128) -> bool {
        let m = self.prepared(now);
        !(m.contains_key(key) && age(now, m[key]) < self.interval)
    }

    /// The state after an observation of `key` at `now`. Only an accepted
    /// observation records `now` for the device.
    pub open spec fn observed(self, key: u64, now: u128) -> ThrottleState {
        ThrottleState {
            interval: self.interval,
            last_seen: if self.emits(key, now) {
                self.prepared(now).insert(key, now)
            } else {
                self.prepared(now)
            },
            check_count: if self.check_due() {
                0
            } else {
                self.check_count + 1
            },
        }
    }

    /// The state after a sweep at `now`.
    pub open spec fn cleaned(self, now: u128) -> ThrottleState {
        ThrottleState {
            interval: self.interval,
            last_seen: swept(self.last_seen, self.interval, now),
            check_count: self.check_count,
        }
    }
}

/// Limits how often each device is let through.
#[derive(Debug)]
pub struct Throttle {
    interval: u128,
    last_seen: HashMap<u64, u128>,
    check_count: usize,
    origin: Instant,
}

/// Whether an entry last accepted at `last` is at `now` no older than
/// `threshold`.
pub fn is_fresh(now: u128, last: u128, threshold: u128) -> (r: bool)
    ensures
        r == (age(now, last) <= threshold),
{
    if now >= last {
        now - last <= threshold
    } else {
        true
    }
}

/// Calls `HashMap::retain`, which keeps exactly the entries for which the
/// closure holds: here those that are no older than `threshold` at `now`.
#[verifier::external_body]
fn retain_fresh(map: &mut HashMap<u64, u128>, now: u128, threshold: u128)
    ensures
        final(map)@ == fresh_entries(old(map)@, now, threshold as int),
{
    map.retain(|_key, last| is_fresh(now, *last, threshold));
}

impl Throttle {
    /// What the throttle knows.
    pub closed spec fn view(&self) -> ThrottleState {
        ThrottleState {
            interval: self.interval,
            last_seen: self.last_seen@,
            check_count: self.check_count as nat,
        }
    }

    /// A throttle that lets each device through once per `interval`
    /// nanoseconds. It remembers no device yet.
    pub fn new(interval: u128) -> (t: Throttle)
        ensures
            t@ == (ThrottleState { interval, last_seen: Map::empty(), check_count: 0 }),
    {
        Throttle { interval, last_seen: HashMap::new(), check_count: 0, origin: clock_origin() }
    }

    /// The interval in nanoseconds.
    pub fn interval(&self) -> (i: u128)
        ensures
            i == self@.interval,
    {
        self.interval
    }

    /// The number of devices that are remembered.
    pub fn len(&self) -> (n: usize)
        ensures
            n == self@.last_seen.len(),
    {
        self.last_seen.len()
    }

    /// Whether the device is remembered.
    pub fn contains(&self, mac: MacAddress) -> (r: bool)
        ensures
            r == self@.last_seen.contains_key(address_number(mac@) as u64),
    {
        let key = mac.to_u64();
        self.last_seen.contains_key(&key)
    }

    /// Forgets the devices that at `now` were last accepted more than
    /// `CLEANUP_THRESHOLD_MULTIPLIER` intervals ago.
    pub fn cleanup_stale_at(&mut self, now: u128)
        ensures
            final(self)@ == old(self)@.cleaned(now),
    {
        if self.interval == 0 {
            return ;
        }
        match self.interval.checked_mul(CLEANUP_THRESHOLD_MULTIPLIER) {
            Some(threshold) => {
                retain_fresh(&mut self.last_seen, now, threshold);
            },
            None => {
                assert(self.last_seen@ =~= fresh_entries(
                    self.last_seen@,
                    now,
                    CLEANUP_THRESHOLD_MULTIPLIER * self.interval,
                ));
            },
        }
    }

    /// Decides at the time `now` whether an observation of the device is let
    /// through, and records `now` for the device if it is.
    pub fn should_emit_at(&mut self, mac: MacAddress, now: u128) -> (r: bool)
        ensures
            r == old(self)@.emits(address_number(mac@) as u64, now),
            final(self)@ == old(self)@.observed(address_number(mac@) as u64, now),
    {
        let key = mac.to_u64();
        if self.check_count >= CLEANUP_CHECK_INTERVAL - 1 {
            self.check_count = 0;
            if self.last_seen.len() > CLEANUP_SIZE_THRESHOLD {
                self.cleanup_stale_at(now);
            }
        } else {
            self.check_count = self.check_count + 1;
        }
        let blocked = match self.last_seen.get(&key) {
            Some(last) => {
                let last: u128 = *last;
                let elapsed: u128 = if now >= last {
                    now - last
                } else {
                    0
                };
                elapsed < self.interval
            },
            None => false,
        };
        if blocked {
            false
        } else {
            self.last_seen.insert(key, now);
            true
        }
    }

    /// Decides, by the monotonic clock, whether an observation of the device
    /// is let through now. What holds of `should_emit_at` holds of the time
    /// that the clock gave.
    pub fn should_emit(&mut self, mac: MacAddress) -> (r: bool)
        ensures
            exists|now: u128|
                r == #[trigger] old(self)@.emits(address_number(mac@) as u64, now) && final(self)@
                    == old(self)@.observed(address_number(mac@) as u64, now),
    {
        let now = clock_nanos(&self.origin);
        let r = self.should_emit_at(mac, now);
        assert(r == old(self)@.emits(address_number(mac@) as u64, now));
        r
    }

    /// Forgets, by the monotonic clock, the devices that were last accepted
    /// more than `CLEANUP_THRESHOLD_MULTIPLIER` intervals ago.
    pub fn cleanup_stale(&mut self)
        ensures
            exists|now: u128| final(self)@ == #[trigger] old(self)@.cleaned(now),
    {
        let now = clock_nanos(&self.origin);
        self.cleanup_stale_at(now);
        assert(self@ == old(self)@.cleaned(now));
    }
}

/// Nanoseconds in a millisecond.
pub const NANOS_PER_MILLI: u128 = 1_000_000;

/// Nanoseconds in a second.
pub const NANOS_PER_SECOND: u128 = 1_000_000_000;

/// Nanoseconds in a minute.
pub const NANOS_PER_MINUTE: u128 = 60_000_000_000;

/// Nanoseconds in an hour.
pub const NANOS_PER_HOUR: u128 = 3_600_000_000_000;

/// The duration that the number text `num` spells in a unit of `unit`
/// nanoseconds, or the error that names what the number was meant to count.
pub open spec fn counted(num: Seq<char>, unit: u128, what: Seq<char>) -> Result<u128, Seq<char>> {
    match whole_number(trimmed(num)) {
        Some(n) => Ok((n * unit) as u128),
        None => Err("invalid "@ + what + ": "@ + num),
    }
}

/// The duration in nanoseconds that a text spells.
///
/// White space around the text does not count. The text is a whole number
/// and a unit: `ms` for milliseconds, `h` for hours, `m` for minutes, `s` or
/// nothing for seconds. White space may stand between number and unit.
pub open spec fn duration_value(src: Seq<char>) -> Result<u128, Seq<char>> {
    let t = trimmed(src);
    if t.len() == 0 {
        Err("empty duration string"@)
    } else if t.len() >= 2 && t[t.len() - 2] == 'm' && t[t.len() - 1] == 's' {
        counted(t.take(t.len() - 2), NANOS_PER_MILLI, "milliseconds"@)
    } else if t.last() == 'h' {
        counted(t.drop_last(), NANOS_PER_HOUR, "hours"@)
    } else if t.last() == 'm' {
        counted(t.drop_last(), NANOS_PER_MINUTE, "minutes"@)
    } else if t.last() == 's' {
        counted(t.drop_last(), NANOS_PER_SECOND, "seconds"@)
    } else {
        match whole_number(t) {
            Some(n) => Ok((n * NANOS_PER_SECOND) as u128),
            None => Err("invalid duration: "@ + t),
        }
    }
}

/// A parsed duration with the error's message as a sequence of characters.
pub open spec fn duration_view(r: Result<u128, String>) -> Result<u128, Seq<char>> {
    match r {
        Ok(n) => Ok(n),
        Err(m) => Err(m@),
    }
}

fn count(cs: &Vec<char>, from: usize, to: usize, unit: u128, what: &str) -> (r: Result<
    u128,
    String,
>)
    requires
        from <= to <= cs.len(),
        unit <= NANOS_PER_HOUR,
    ensures
        duration_view(r) == counted(cs@.subrange(from as int, to as int), unit, what@),
{
    let (a, b) = trim_range(cs, from, to);
    match parse_whole(cs, a, b) {
        Some(n) => {
            assert(n * unit <= u128::MAX) by (nonlinear_arith)
                requires
                    n <= u64::MAX,
                    unit <= 3_600_000_000_000,
            ;
            Ok(n as u128 * unit)
        },
        None => {
            let mut m = "invalid ".to_owned();
            m.append(what);
            m.append(": ");
            push_chars(&mut m, cs, from, to);
            Err(m)
        },
    }
}

/// Reads a duration such as `3s`, `1m`, `500ms`, `2h` or `30` (seconds) and
/// gives it in nanoseconds.
pub fn parse_duration(src: &str) -> (r: Result<u128, String>)
    ensures
        duration_view(r) == duration_value(src@),
{
    let cs = chars_of(src);
    let (a, b) = trim_range(&cs, 0, cs.len());
    assert(cs@.subrange(0, cs.len() as int) == cs@);
    let ghost t = cs@.subrange(a as int, b as int);
    if a == b {
        return Err("empty duration string".to_owned());
    }
    assert(t.last() == cs@[b - 1]);
    if b - a >= 2 && cs[b - 2] == 'm' && cs[b - 1] == 's' {
        assert(t[t.len() - 2] == cs@[b - 2]);
        assert(t.take(t.len() - 2) == cs@.subrange(a as int, b - 2));
        return count(&cs, a, b - 2, NANOS_PER_MILLI, "milliseconds");
    }
    assert(b - a >= 2 ==> t[t.len() - 2] == cs@[b - 2]);
    assert(t.drop_last() == cs@.subrange(a as int, b - 1));
    let last = cs[b - 1];
    if last == 'h' {
        count(&cs, a, b - 1, NANOS_PER_HOUR, "hours")
    } else if last == 'm' {
        count(&cs, a, b - 1, NANOS_PER_MINUTE, "minutes")
    } else if last == 's' {
        count(&cs, a, b - 1, NANOS_PER_SECOND, "seconds")
    } else {
        match parse_whole(&cs, a, b) {
            Some(n) => {
                assert(n * NANOS_PER_SECOND <= u128::MAX) by (nonlinear_arith)
                    requires
                        n <= u64::MAX,
                        NANOS_PER_SECOND == 1_000_000_000,
                ;
                Ok(n as u128 * NANOS_PER_SECOND)
            },
            None => {
                let mut m = "invalid duration: ".to_owned();
                push_chars(&mut m, &cs, a, b);
                Err(m)
            },
        }
    }
}

/// A device that is not remembered is let through, and the time of the
/// observation is recorded for it.
pub proof fn lemma_first_observation(s: ThrottleState, key: u64, now: u128)
    requires
        !s.last_seen.contains_key(key),
    ensures
        s.emits(key, now),
        s.observed(key, now).last_seen.contains_key(key),
        s.observed(key, now).last_seen[key] == now,
{
}

/// After an accepted observation, an observation of the same device before
/// the interval has passed is blocked.
pub proof fn lemma_second_observation_blocked(s: ThrottleState, key: u64, first: u128, second: u128)
    requires
        s.emits(key, first),
        age(second, first) < s.interval,
    ensures
        !s.observed(key, first).emits(key, second),
{
}

/// An observation of one device leaves what is recorded for any other
/// device as it was, unless a sweep forgets the other device, and it forgets
/// only a device that is stale.
pub proof fn lemma_devices_independent(s: ThrottleState, key: u64, other: u64, now: u128)
    requires
        key != other,
    ensures
        s.observed(key, now).last_seen.contains_key(other) ==> s.last_seen.contains_key(other)
            && s.observed(key, now).last_seen[other] == s.last_seen[other],
        s.last_seen.contains_key(other) && !s.observed(key, now).last_seen.contains_key(other)
            ==> age(now, s.last_seen[other]) > CLEANUP_THRESHOLD_MULTIPLIER * s.interval,
{
}

/// Once the interval has passed since a device was last accepted, it is let
/// through again.
pub proof fn lemma_accepted_after_interval(s: ThrottleState, key: u64, now: u128)
    requires
        s.last_seen.contains_key(key) ==> age(now, s.last_seen[key]) >= s.interval,
    ensures
        s.emits(key, now),
{
}

/// A blocked observation does not touch the time recorded for the device.
pub proof fn lemma_blocked_keeps_time(s: ThrottleState, key: u64, now: u128)
    requires
        !s.emits(key, now),
    ensures
        s.last_seen.contains_key(key),
        s.observed(key, now).last_seen.contains_key(key),
        s.observed(key, now).last_seen[key] == s.last_seen[key],
{
}

/// The interval runs from the accepted observation, not from a blocked one:
/// after an observation accepted at `t0` and one blocked at `t1`, an
/// observation at `t2`, an interval or more after `t0`, is accepted,
/// however close it is to `t1`.
pub proof fn lemma_blocked_does_not_reset(s: ThrottleState, key: u64, t0: u128, t1: u128, t2: u128)
    requires
        s.emits(key, t0),
        t0 <= t1 <= t2,
        t1 - t0 < s.interval,
        t2 - t0 >= s.interval,
    ensures
        !s.observed(key, t0).emits(key, t1),
        s.observed(key, t0).observed(key, t1).emits(key, t2),
{
    lemma_second_observation_blocked(s, key, t0, t1);
    lemma_blocked_keeps_time(s.observed(key, t0), key, t1);
}

/// The state after observations of one device at each of `times` in turn.
pub open spec fn observed_all(s: ThrottleState, key: u64, times: Seq<u128>) -> ThrottleState
    decreases times.len(),
{
    if times.len() == 0 {
        s
    } else {
        observed_all(s, key, times.drop_last()).observed(key, times.last())
    }
}

/// How many of the observations of one device at `times` are let through.
pub open spec fn emitted(s: ThrottleState, key: u64, times: Seq<u128>) -> nat
    decreases times.len(),
{
    if times.len() == 0 {
        0
    } else {
        emitted(s, key, times.drop_last()) + if observed_all(s, key, times.drop_last()).emits(
            key,
            times.last(),
        ) {
            1nat
        } else {
            0nat
        }
    }
}

/// Of any number of observations of a device that was not remembered, all
/// less than an interval after the first, exactly one is let through: the
/// first.
pub proof fn lemma_burst_emits_once(s: ThrottleState, key: u64, times: Seq<u128>)
    requires
        times.len() > 0,
        !s.last_seen.contains_key(key),
        forall|i: int| 1 <= i < times.len() ==> age(#[trigger] times[i], times[0]) < s.interval,
    ensures
        emitted(s, key, times) == 1,
        observed_all(s, key, times).interval == s.interval,
        observed_all(s, key, times).last_seen.contains_key(key),
        observed_all(s, key, times).last_seen[key] == times[0],
    decreases times.len(),
{
    let before = times.drop_last();
    if times.len() == 1 {
        assert(before.len() == 0);
        assert(observed_all(s, key, before) == s);
        assert(emitted(s, key, before) == 0);
        lemma_first_observation(s, key, times[0]);
    } else {
        assert(before[0] == times[0]);
        assert forall|i: int| 1 <= i < before.len() implies age(#[trigger] before[i], before[0])
            < s.interval by {
            assert(before[i] == times[i]);
        }
        lemma_burst_emits_once(s, key, before);
        assert(age(times[times.len() - 1], times[0]) < s.interval);
    }
}

/// With an interval of zero every observation is let through.
pub proof fn lemma_zero_interval_accepts(s: ThrottleState, key: u64, now: u128)
    requires
        s.interval == 0,
    ensures
        s.emits(key, now),
{
}

/// A sweep forgets exactly the stale devices: an entry older than
/// `CLEANUP_THRESHOLD_MULTIPLIER` intervals goes, any other stays as it is.
pub proof fn lemma_sweep_forgets_stale(m: Map<u64, u128>, interval: u128, now: u128, key: u64)
    requires
        interval > 0,
        m.contains_key(key),
    ensures
        age(now, m[key]) > CLEANUP_THRESHOLD_MULTIPLIER * interval ==> !swept(
            m,
            interval,
            now,
        ).contains_key(key),
        age(now, m[key]) <= CLEANUP_THRESHOLD_MULTIPLIER * interval ==> swept(
            m,
            interval,
            now,
        ).contains_key(key) && swept(m, interval, now)[key] == m[key],
{
}

/// A sweep of nothing leaves nothing, and a sweep never adds a device.
pub proof fn lemma_sweep_adds_nothing(m: Map<u64, u128>, interval: u128, now: u128)
    ensures
        swept(Map::empty(), interval, now) == Map::<u64, u128>::empty(),
        swept(m, interval, now).dom().subset_of(m.dom()),
{
    assert(swept(Map::empty(), interval, now) =~= Map::<u64, u128>::empty());
}

/// With an interval of zero a sweep forgets nothing.
pub proof fn lemma_sweep_zero_interval(m: Map<u64, u128>, now: u128)
    ensures
        swept(m, 0, now) == m,
{
}

} // verus!
