//! Pacing of transfers: the global speed limiter, and the tracker of the
//! slowest segment timings that decides when a slow connection is recycled.

use vstd::prelude::*;
use vstd::std_specs::btree::increasing_seq;
use vstd::std_specs::cmp::OrdSpec;
use std::collections::BTreeSet;
use crate::elapsed::Elapsed;

verus! {

broadcast use {vstd::laws_cmp::group_laws_cmp, vstd::std_specs::btree::group_btree_axioms};

/// Spreads transfers over time so that on average at most `rate` bytes per
/// second are scheduled. Times are nanoseconds on a monotonic clock.
#[derive(Clone, Debug)]
pub struct SpeedLimiter {
    pub rate: u64,
    pub next_at: u128,
}

/// The pause that `bytes` bytes earn at `rate` bytes per second, in
/// nanoseconds: `bytes * 10^9 / rate` (the product saturating at `u64::MAX`),
/// at least 1.
pub open spec fn pause_nanos(bytes: nat, rate: nat) -> nat {
    let scaled = if bytes * 1_000_000_000 > u64::MAX { u64::MAX as nat } else { bytes * 1_000_000_000 };
    let n = scaled / rate;
    if n == 0 { 1 } else { n }
}

/// Law: the pause for `bytes` bytes at `rate` bytes per second is the time
/// they take at that rate, in whole nanoseconds: the largest count of
/// nanoseconds in which the rate moves no more than `bytes` bytes, and at
/// least one nanosecond (when the byte count times 10^9 fits in 64 bits).
pub proof fn lemma_pause_is_the_time_at_the_rate(bytes: nat, rate: nat)
    requires
        rate > 0,
        bytes * 1_000_000_000 <= u64::MAX,
    ensures
        pause_nanos(bytes, rate) >= 1,
        bytes * 1_000_000_000 < (pause_nanos(bytes, rate) + 1) * rate,
        pause_nanos(bytes, rate) == 1 || pause_nanos(bytes, rate) * rate <= bytes * 1_000_000_000,
{
    let scaled: int = (bytes * 1_000_000_000) as int;
    let r: int = rate as int;
    let n: int = scaled / r;
    vstd::arithmetic::div_mod::lemma_fundamental_div_mod(scaled, r);
    vstd::arithmetic::div_mod::lemma_mod_pos_bound(scaled, r);
    assert(n * r <= scaled < (n + 1) * r) by (nonlinear_arith)
        requires
            scaled == r * n + scaled % r,
            0 <= scaled % r < r,
    ;
    if n == 0 {
        assert(scaled < r);
        assert(scaled < 2 * r);
    }
}

/// Law: a byte count too large to scale to nanoseconds in 64 bits earns the
/// longest pause that 64 bits of nanoseconds hold at the rate: the count of
/// nanoseconds in which the rate moves no more than `u64::MAX` bytes, and at
/// least one.
pub proof fn lemma_pause_saturates(bytes: nat, rate: nat)
    requires
        rate > 0,
        bytes * 1_000_000_000 > u64::MAX,
    ensures
        pause_nanos(bytes, rate) >= 1,
        u64::MAX < (pause_nanos(bytes, rate) + 1) * rate,
        pause_nanos(bytes, rate) == 1 || pause_nanos(bytes, rate) * rate <= u64::MAX,
{
    let scaled: int = u64::MAX as int;
    let r: int = rate as int;
    let n: int = scaled / r;
    vstd::arithmetic::div_mod::lemma_fundamental_div_mod(scaled, r);
    vstd::arithmetic::div_mod::lemma_mod_pos_bound(scaled, r);
    assert(n * r <= scaled < (n + 1) * r) by (nonlinear_arith)
        requires
            scaled == r * n + scaled % r,
            0 <= scaled % r < r,
    ;
    if n == 0 {
        assert(scaled < 2 * r);
    }
}

/// The slot after which the next transfer may start, once `bytes` bytes were
/// accounted at time `now` on a limiter of `rate` bytes per second whose next
/// slot was `next_at`.
pub open spec fn next_slot(next_at: int, rate: nat, bytes: nat, now: int) -> int {
    if bytes == 0 || rate == 0 {
        next_at
    } else {
        (if next_at < now { now } else { next_at }) + pause_nanos(bytes, rate)
    }
}

/// The slot after a run of transfers, each given as its byte count and the
/// time at which it was accounted.
pub open spec fn slot_after(next_at: int, rate: nat, calls: Seq<(nat, int)>) -> int
    decreases calls.len(),
{
    if calls.len() == 0 {
        next_at
    } else {
        next_slot(slot_after(next_at, rate, calls.drop_last()), rate, calls.last().0, calls.last().1)
    }
}

/// The pauses that a run of transfers earns at `rate`: the sum of
/// `pause_nanos` over the transfers of at least one byte.
pub open spec fn earned_pause(rate: nat, calls: Seq<(nat, int)>) -> nat
    decreases calls.len(),
{
    if calls.len() == 0 {
        0
    } else {
        earned_pause(rate, calls.drop_last()) + if calls.last().0 == 0 { 0 } else { pause_nanos(calls.last().0, rate) }
    }
}

/// Law: the limiter never lets transfers through faster than its rate. After
/// any run of transfers the next slot lies at least the earned pauses of all
/// of them past where it started, and never before the last transfer's time
/// plus its own pause.
pub proof fn lemma_limiter_keeps_pace(next_at: int, rate: nat, calls: Seq<(nat, int)>)
    requires
        rate > 0,
    ensures
        slot_after(next_at, rate, calls) >= next_at + earned_pause(rate, calls),
        calls.len() > 0 && calls.last().0 > 0 ==> slot_after(next_at, rate, calls) >= calls.last().1
            + pause_nanos(calls.last().0, rate),
    decreases calls.len(),
{
    if calls.len() > 0 {
        lemma_limiter_keeps_pace(next_at, rate, calls.drop_last());
    }
}

impl SpeedLimiter {
    /// A limiter of `rate` bytes per second whose first transfer may start at `now`.
    pub fn new(rate: u64, now: u128) -> (l: SpeedLimiter)
        ensures
            l == (SpeedLimiter { rate, next_at: now }),
    {
        SpeedLimiter { rate, next_at: now }
    }

    /// Accounts for `bytes` about to be transferred at time `now` and returns
    /// how long the caller must sleep first. Nothing is accounted when `bytes`
    /// or the rate is 0; otherwise the next slot moves to
    /// `max(next slot, now) + pause` and the caller sleeps until it.
    pub fn throttle(&mut self, bytes: u64, now: u128) -> (sleep: u128)
        requires
            (if old(self).next_at < now { now } else { old(self).next_at }) + pause_nanos(
                bytes as nat,
                old(self).rate as nat,
            ) <= u128::MAX,
        ensures
            bytes == 0 || old(self).rate == 0 ==> *final(self) == *old(self) && sleep == 0,
            bytes > 0 && old(self).rate > 0 ==> {
                &&& final(self).rate == old(self).rate
                &&& final(self).next_at == (if old(self).next_at < now { now } else { old(self).next_at })
                    + pause_nanos(bytes as nat, old(self).rate as nat)
                &&& sleep == final(self).next_at - now
                &&& sleep >= pause_nanos(bytes as nat, old(self).rate as nat)
            },
            final(self).next_at == next_slot(old(self).next_at as int, old(self).rate as nat, bytes as nat, now as int),
    {
        if bytes == 0 || self.rate == 0 {
            return 0;
        }
        let scaled: u64 = if bytes > u64::MAX / 1_000_000_000 { u64::MAX } else { bytes * 1_000_000_000 };
        let n = scaled / self.rate;
        let wait: u64 = if n == 0 { 1 } else { n };
        if self.next_at < now {
            self.next_at = now;
        }
        self.next_at = self.next_at + wait as u128;
        self.next_at - now
    }
}

proof fn lemma_increasing_pair<K: Ord>(s: Seq<K>, i: int, j: int)
    requires
        vstd::laws_cmp::obeys_cmp::<K>(),
        increasing_seq(s),
        0 <= i < j < s.len(),
    ensures
        s[i].cmp_spec(&s[j]) is Less,
{
    vstd::std_specs::btree::axiom_increasing_seq_meaning::<K>(s);
}

proof fn lemma_increasing_timings(s: Seq<&u128>, i: int, j: int)
    requires
        increasing_seq(s),
        0 <= i < j < s.len(),
    ensures
        *s[i] < *s[j],
{
    assert(vstd::laws_cmp::obeys_cmp::<u128>());
    assert(vstd::laws_cmp::obeys_cmp::<&u128>());
    lemma_increasing_pair::<&u128>(s, i, j);
}

broadcast proof fn lemma_timings_increase(s: Seq<&u128>)
    ensures
        #[trigger] increasing_seq(s) ==> forall|i: int, j: int|
            #![trigger s[i], s[j]]
            0 <= i < j < s.len() ==> *s[i] < *s[j],
{
    if increasing_seq(s) {
        assert forall|i: int, j: int| #![trigger s[i], s[j]] 0 <= i < j < s.len() implies *s[i] < *s[j] by {
            lemma_increasing_timings(s, i, j);
        }
    }
}

/// `m` is the slowest of the timings in `s`: one of them, and no shorter than any.
pub open spec fn is_slowest(s: Set<u128>, m: u128) -> bool {
    s.contains(m) && forall|t: u128| s.contains(t) ==> t <= m
}

/// The slowest of the timings in `s`.
pub open spec fn slowest_of(s: Set<u128>) -> u128 {
    choose|m: u128| is_slowest(s, m)
}

/// Keeps the `target` shortest recent segment timings, to spot a transfer
/// that is slower than all of them.
#[derive(Debug)]
pub struct SlowestTracker {
    target_concurrency: usize,
    timings: BTreeSet<u128>,
}

impl SlowestTracker {
    #[verifier::type_invariant]
    spec fn well_formed(self) -> bool {
        &&& self.target_concurrency >= 1
        &&& self.timings@.finite()
        &&& self.timings@.len() <= self.target_concurrency
    }

    /// How many timings are kept.
    pub closed spec fn target(self) -> nat {
        self.target_concurrency as nat
    }

    /// The kept timings in nanoseconds.
    pub closed spec fn timings(self) -> Set<u128> {
        self.timings@
    }

    /// A tracker that keeps `target_concurrency` timings (at least one).
    pub fn new(target_concurrency: usize) -> (t: SlowestTracker)
        ensures
            t.target() == if target_concurrency == 0 { 1 } else { target_concurrency },
            t.timings() == Set::<u128>::empty(),
    {
        let target_concurrency = if target_concurrency == 0 { 1 } else { target_concurrency };
        SlowestTracker { target_concurrency, timings: BTreeSet::new() }
    }

    /// The slowest kept timing, found by walking the timings in increasing order.
    fn slowest(&self) -> (r: Option<u128>)
        ensures
            r is None <==> self.timings().len() == 0,
            r matches Some(m) ==> is_slowest(self.timings(), m),
    {
        proof {
            use_type_invariant(self);
        }
        broadcast use lemma_timings_increase;
        let ghost keys = self.timings@;
        proof {
            assert(vstd::laws_cmp::obeys_cmp::<u128>());
            assert(vstd::laws_cmp::obeys_cmp::<&u128>());
        }
        let mut last: Option<u128> = None;
        for x in it: self.timings.iter()
            invariant
                keys == self.timings@,
                it.seq().unref().to_set() == keys,
                it.seq().len() == keys.len(),
                increasing_seq(it.seq()),
                forall|i: int, j: int|
                    #![trigger it.seq()[i], it.seq()[j]]
                    0 <= i < j < it.seq().len() ==> *it.seq()[i] < *it.seq()[j],
                forall|t: u128| keys.contains(t) ==> exists|k: int| 0 <= k < it.seq().len() && *it.seq()[k] == t,
                last matches Some(m) ==> it.index() > 0 && m == *it.seq()[it.index() - 1],
                last is None ==> it.index() == 0,
                it.index() == it.seq().len() ==> match last {
                    Some(m) => is_slowest(keys, m),
                    None => keys.len() == 0,
                },
        {
            last = Some(*x);
        }
        last
    }

    /// Whether a transfer that has taken `elapsed` should be recycled: only once
    /// the tracker is full, and only when it is slower than every kept timing.
    pub fn should_recycle(&self, elapsed: Elapsed) -> (b: bool)
        ensures
            b == (self.timings().len() >= self.target() && self.timings().len() > 0
                && forall|t: u128| self.timings().contains(t) ==> elapsed.total_nanos() > t),
    {
        proof {
            use_type_invariant(self);
        }
        if self.timings.len() < self.target_concurrency {
            return false;
        }
        match self.slowest() {
            Some(m) => elapsed.as_nanos() > m,
            None => false,
        }
    }

    /// Records a finished transfer's time: added while the tracker is not full,
    /// otherwise it takes the place of the slowest kept timing.
    pub fn record(&mut self, elapsed: Elapsed)
        ensures
            final(self).target() == old(self).target(),
            final(self).timings().len() <= final(self).target(),
            final(self).timings() == if old(self).timings().len() < old(self).target() {
                old(self).timings().insert(elapsed.total_nanos() as u128)
            } else {
                old(self).timings().remove(slowest_of(old(self).timings())).insert(elapsed.total_nanos() as u128)
            },
    {
        proof {
            use_type_invariant(&*self);
        }
        let e = elapsed.as_nanos();
        let ghost before = self.timings@;
        let m = if self.timings.len() < self.target_concurrency {
            None
        } else {
            self.slowest()
        };
        proof {
            if m is Some {
                let w = m->0;
                assert(is_slowest(before, slowest_of(before)));
                assert(slowest_of(before) <= w && w <= slowest_of(before));
            }
        }
        let mut timings: BTreeSet<u128> = BTreeSet::new();
        std::mem::swap(&mut timings, &mut self.timings);
        match m {
            Some(w) => {
                timings.remove(&w);
            },
            None => {},
        }
        timings.insert(e);
        proof {
            assert(timings@.len() <= self.target_concurrency);
        }
        self.timings = timings;
    }
}

impl Elapsed {
    /// The whole span in nanoseconds.
    pub fn as_nanos(&self) -> (n: u128)
        ensures
            n == self.total_nanos(),
    {
        (self.as_secs() as u128) * 1_000_000_000 + (self.subsec_nanos() as u128)
    }
}

} // verus!
