//! Exponential backoff, alone and kept per contract.
use crate::contract::key::ContractKey;
use crate::linear_map::{lemma_entries_contains, lemma_entries_value, LinearMap};
use crate::time::{Duration, Instant, MAX_NANOS};
use vstd::arithmetic::power2::{lemma2_to64, lemma_pow2_pos, lemma_pow2_unfold, pow2};
use vstd::prelude::*;

verus! {

/// The delay after a number of failures in a row: `base` after the first,
/// doubled with each one more, never above `max`, and none without a failure.
pub open spec fn delay_nanos(base: int, max: int, failures: nat) -> int {
    if failures == 0 {
        0
    } else if base * pow2((failures - 1) as nat) <= max {
        base * pow2((failures - 1) as nat)
    } else {
        max
    }
}

/// Delays that double with each failure.
#[derive(Clone, Copy, Debug, PartialEq, Eq, Structural)]
pub struct ExponentialBackoff {
    pub base: Duration,
    pub max: Duration,
}

impl ExponentialBackoff {
    pub open spec fn wf(self) -> bool {
        self.base.wf() && self.max.wf()
    }

    /// The delay after a number of failures in a row.
    pub open spec fn delay_spec(self, failures: nat) -> Duration {
        Duration {
            nanos: delay_nanos(self.base.nanos as int, self.max.nanos as int, failures) as u128,
        }
    }

    /// Delays that start at `base` and do not exceed `max`.
    pub fn new(base: Duration, max: Duration) -> (b: Self)
        requires
            base.wf(),
            max.wf(),
        ensures
            b.wf(),
            b.base == base,
            b.max == max,
    {
        ExponentialBackoff { base, max }
    }

    /// The delay after a number of failures in a row.
    pub fn delay(&self, failures: u32) -> (d: Duration)
        requires
            self.wf(),
        ensures
            d == self.delay_spec(failures as nat),
            d.nanos == delay_nanos(self.base.nanos as int, self.max.nanos as int, failures as nat),
            d.wf(),
    {
        if failures == 0 {
            return Duration { nanos: 0 };
        }
        let base: u128 = self.base.nanos;
        let max: u128 = self.max.nanos;
        if base == 0 {
            assert(0 * pow2((failures - 1) as nat) == 0) by (nonlinear_arith);
            return Duration { nanos: 0 };
        }
        let mut nanos: u128 = if base <= max {
            base
        } else {
            max
        };
        let mut n: u32 = 1;
        proof {
            lemma2_to64();
            assert(base * pow2(0) == base) by (nonlinear_arith)
                requires
                    pow2(0) == 1,
            ;
        }
        while n < failures && nanos < max
            invariant
                1 <= n <= failures,
                0 < base,
                max <= MAX_NANOS,
                nanos == delay_nanos(base as int, max as int, n as nat),
                nanos <= max,
            decreases failures - n,
        {
            proof {
                lemma_pow2_unfold(n as nat);
                assert(base * pow2(n as nat) == 2 * (base * pow2((n - 1) as nat)))
                    by (nonlinear_arith)
                    requires
                        pow2(n as nat) == 2 * pow2((n - 1) as nat),
                ;
            }
            nanos = if nanos <= max / 2 {
                2 * nanos
            } else {
                max
            };
            n += 1;
        }
        proof {
            if n < failures {
                lemma_delay_stays(base as int, max as int, n as nat, failures as nat);
            }
        }
        Duration { nanos }
    }
}

impl Default for ExponentialBackoff {
    /// Five seconds at first, five minutes at most.
    fn default() -> (b: Self)
        ensures
            b.wf(),
            b.base.nanos == 5_000_000_000,
            b.max.nanos == 300_000_000_000,
    {
        ExponentialBackoff { base: Duration::from_secs(5), max: Duration::from_secs(300) }
    }
}

/// A delay that has reached the maximum stays there.
proof fn lemma_delay_stays(base: int, max: int, a: nat, b: nat)
    requires
        0 < base,
        0 <= max,
        1 <= a <= b,
        delay_nanos(base, max, a) >= max,
    ensures
        delay_nanos(base, max, b) == max,
    decreases b,
{
    if a < b {
        lemma_delay_stays(base, max, a, (b - 1) as nat);
        lemma_pow2_unfold((b - 1) as nat);
        lemma_pow2_pos((b - 2) as nat);
        assert(base * pow2((b - 1) as nat) == 2 * (base * pow2((b - 2) as nat))) by (nonlinear_arith)
            requires
                pow2((b - 1) as nat) == 2 * pow2((b - 2) as nat),
        ;
        assert(base * pow2((b - 2) as nat) > 0) by (nonlinear_arith)
            requires
                base > 0,
                pow2((b - 2) as nat) > 0,
        ;
    }
}

/// One more failure never shortens the delay, and no delay exceeds the maximum.
pub proof fn delay_is_monotonic(b: ExponentialBackoff, few: nat, many: nat)
    requires
        b.wf(),
        few <= many,
    ensures
        b.delay_spec(few).nanos <= b.delay_spec(many).nanos,
        b.delay_spec(many).nanos <= b.max.nanos,
    decreases many,
{
    let base = b.base.nanos as int;
    let max = b.max.nanos as int;
    if many > 0 {
        lemma_pow2_pos((many - 1) as nat);
        assert(base * pow2((many - 1) as nat) >= 0) by (nonlinear_arith)
            requires
                base >= 0,
                pow2((many - 1) as nat) > 0,
        ;
    }
    if few < many {
        delay_is_monotonic(b, few, (many - 1) as nat);
        if many > 1 {
            lemma_pow2_unfold((many - 1) as nat);
            lemma_pow2_pos((many - 2) as nat);
            assert(base * pow2((many - 1) as nat) == 2 * (base * pow2((many - 2) as nat)))
                by (nonlinear_arith)
                requires
                    pow2((many - 1) as nat) == 2 * pow2((many - 2) as nat),
            ;
            assert(base * pow2((many - 2) as nat) >= 0) by (nonlinear_arith)
                requires
                    base >= 0,
                    pow2((many - 2) as nat) > 0,
            ;
        }
    }
}

/// What is remembered of a contract that failed.
#[derive(Clone, Copy, Debug, PartialEq, Eq, Structural)]
pub struct BackoffEntry {
    /// Failures in a row.
    pub failures: u32,
    /// When the contract may be tried again.
    pub retry_after: Instant,
}

/// Backoff per contract, for at most a fixed number of contracts.
#[derive(Debug)]
pub struct TrackedBackoff {
    pub backoff: ExponentialBackoff,
    pub max_entries: usize,
    pub entries: LinearMap<ContractKey, BackoffEntry>,
}

/// One failure more, as far as the counter reaches.
pub open spec fn one_more(failures: u32) -> u32 {
    if failures < u32::MAX {
        (failures + 1) as u32
    } else {
        failures
    }
}

/// A failure was recorded: the key has one more than before. Where there is no room
/// for it, a key whose delay ends first is forgotten.
pub open spec fn failure_recorded(
    before: TrackedBackoff,
    after: TrackedBackoff,
    key: Seq<u8>,
    now: Instant,
) -> bool {
    let entry = before.failed_entry(key, now);
    &&& after.backoff == before.backoff
    &&& after.max_entries == before.max_entries
    &&& if before.known().dom().contains(key) || before.known().dom().len() < before.max_entries {
        after.known() == before.known().insert(key, entry)
    } else {
        exists|forgotten: Seq<u8>|
            {
                &&& #[trigger] before.known().dom().contains(forgotten)
                &&& forall|k: Seq<u8>| #[trigger]
                    before.known().dom().contains(k)
                        ==> before.known()[forgotten].retry_after.nanos
                        <= before.known()[k].retry_after.nanos
                &&& after.known() == before.known().remove(forgotten).insert(key, entry)
            }
    }
}

/// A success was recorded: nothing is known of the key any more.
pub open spec fn success_recorded(
    before: TrackedBackoff,
    after: TrackedBackoff,
    key: Seq<u8>,
) -> bool {
    &&& after.backoff == before.backoff
    &&& after.max_entries == before.max_entries
    &&& after.known() == before.known().remove(key)
}

/// The keys whose delay has ended are forgotten, and no others.
pub open spec fn expired_forgotten(
    before: TrackedBackoff,
    after: TrackedBackoff,
    now: Instant,
) -> bool {
    &&& after.backoff == before.backoff
    &&& after.max_entries == before.max_entries
    &&& forall|k: Seq<u8>| #[trigger]
        after.known().dom().contains(k) <==> before.blocks(k, now)
    &&& forall|k: Seq<u8>| #[trigger]
        after.known().dom().contains(k) ==> after.known()[k] == before.known()[k]
}

impl TrackedBackoff {
    /// No contract is kept twice, and no more than allowed.
    pub open spec fn wf(&self) -> bool {
        &&& self.backoff.wf()
        &&& self.entries.wf()
        &&& self.entries.entries@.len() <= self.max_entries
        &&& self.max_entries > 0
    }

    /// What is remembered of each contract.
    pub open spec fn known(&self) -> Map<Seq<u8>, BackoffEntry> {
        self.entries@
    }

    /// The contract failed, and its delay is not over yet.
    pub open spec fn blocks(&self, key: Seq<u8>, now: Instant) -> bool {
        self.known().dom().contains(key) && now.nanos < self.known()[key].retry_after.nanos
    }

    /// What is remembered of a contract once it has failed again.
    pub open spec fn failed_entry(&self, key: Seq<u8>, now: Instant) -> BackoffEntry {
        let failures = if self.known().dom().contains(key) {
            one_more(self.known()[key].failures)
        } else {
            1
        };
        BackoffEntry {
            failures,
            retry_after: Instant {
                nanos: (now.nanos + self.backoff.delay_spec(failures as nat).nanos) as u128,
            },
        }
    }

    /// No contract has failed yet.
    pub fn new(backoff: ExponentialBackoff, max_entries: usize) -> (t: Self)
        requires
            backoff.wf(),
            max_entries > 0,
        ensures
            t.wf(),
            t.backoff == backoff,
            t.max_entries == max_entries,
            t.known() == Map::<Seq<u8>, BackoffEntry>::empty(),
    {
        TrackedBackoff { backoff, max_entries, entries: LinearMap::new() }
    }

    /// Whether the contract failed and its delay is not over yet.
    pub fn is_in_backoff(&self, key: &ContractKey, now: Instant) -> (b: bool)
        requires
            self.wf(),
        ensures
            b == self.blocks(key@, now),
    {
        match self.entries.get(key) {
            Some(e) => now.nanos < e.retry_after.nanos,
            None => false,
        }
    }

    /// The position of an entry whose delay ends first.
    fn first_to_end(&self) -> (i: usize)
        requires
            self.entries.entries@.len() > 0,
        ensures
            i < self.entries.entries@.len(),
            forall|j: int|
                0 <= j < self.entries.entries@.len()
                    ==> self.entries.entries@[i as int].1.retry_after.nanos <= (
                #[trigger] self.entries.entries@[j]).1.retry_after.nanos,
    {
        let mut best: usize = 0;
        let mut i: usize = 1;
        while i < self.entries.entries.len()
            invariant
                best < i <= self.entries.entries@.len(),
                forall|j: int|
                    0 <= j < i ==> self.entries.entries@[best as int].1.retry_after.nanos <= (
                    #[trigger] self.entries.entries@[j]).1.retry_after.nanos,
            decreases self.entries.entries@.len() - i,
        {
            if self.entries.entries[i].1.retry_after.nanos
                < self.entries.entries[best].1.retry_after.nanos {
                best = i;
            }
            i += 1;
        }
        best
    }

    /// Notes a failure of the contract. Where there is no room for one more
    /// contract, the one whose delay ends first is forgotten.
    pub fn record_failure(&mut self, key: ContractKey, now: Instant)
        requires
            old(self).wf(),
            now.nanos + old(self).backoff.max.nanos <= u128::MAX,
        ensures
            final(self).wf(),
            failure_recorded(*old(self), *final(self), key@, now),
    {
        let count: usize = self.entries.len();
        let entry = self.entries.get(&key);
        let failures: u32 = match entry {
            Some(e) => if e.failures < u32::MAX {
                e.failures + 1
            } else {
                e.failures
            },
            None => 1,
        };
        let is_known = entry.is_some();
        proof {
            delay_is_monotonic(self.backoff, 0, failures as nat);
        }
        let retry_after = now.after(self.backoff.delay(failures));
        if !is_known && count >= self.max_entries {
            let i = self.first_to_end();
            proof {
                let s = self.entries.entries@;
                lemma_entries_value(s, i as int);
                assert forall|k: Seq<u8>| #[trigger] self.known().dom().contains(k) implies s[i as int].1.retry_after.nanos
                    <= self.known()[k].retry_after.nanos by {
                    lemma_entries_contains(s, k);
                    let j = choose|j: int| 0 <= j < s.len() && #[trigger] s[j].0@ == k;
                    lemma_entries_value(s, j);
                }
            }
            self.entries.remove_at(i);
        }
        self.entries.insert(key, BackoffEntry { failures, retry_after });
    }

    /// Forgets the failures of the contract.
    pub fn record_success(&mut self, key: &ContractKey)
        requires
            old(self).wf(),
        ensures
            final(self).wf(),
            success_recorded(*old(self), *final(self), key@),
    {
        self.entries.remove(key);
    }

    /// Forgets the contracts whose delay is over.
    pub fn cleanup_expired(&mut self, now: Instant)
        requires
            old(self).wf(),
        ensures
            final(self).wf(),
            expired_forgotten(*old(self), *final(self), now),
    {
        let mut i: usize = 0;
        while i < self.entries.entries.len()
            invariant
                self.wf(),
                self.backoff == old(self).backoff,
                self.max_entries == old(self).max_entries,
                i <= self.entries.entries@.len(),
                forall|j: int|
                    0 <= j < i ==> now.nanos < (
                    #[trigger] self.entries.entries@[j]).1.retry_after.nanos,
                forall|k: Seq<u8>| #[trigger]
                    self.known().dom().contains(k) ==> old(self).known().dom().contains(k)
                        && self.known()[k] == old(self).known()[k],
                forall|k: Seq<u8>| #[trigger]
                    old(self).blocks(k, now) ==> self.known().dom().contains(k),
            decreases self.entries.entries@.len() - i,
        {
            if now.nanos >= self.entries.entries[i].1.retry_after.nanos {
                let ghost before = self.entries.entries@;
                let ghost known_before = self.known();
                self.entries.remove_at(i);
                assert forall|k: Seq<u8>| #[trigger] self.known().dom().contains(k) implies old(
                    self,
                ).known().dom().contains(k) && self.known()[k] == old(self).known()[k] by {
                    assert(known_before.dom().contains(k));
                }
                assert forall|j: int| 0 <= j < i implies now.nanos < (
                #[trigger] self.entries.entries@[j]).1.retry_after.nanos by {
                    assert(self.entries.entries@[j] == before[j]);
                }
            } else {
                i += 1;
            }
        }
        proof {
            let s = self.entries.entries@;
            assert forall|k: Seq<u8>| #[trigger] self.known().dom().contains(k) implies old(
                self,
            ).blocks(k, now) by {
                lemma_entries_contains(s, k);
                let j = choose|j: int| 0 <= j < s.len() && #[trigger] s[j].0@ == k;
                lemma_entries_value(s, j);
            }
        }
    }
}

/// A contract whose failure was recorded is in backoff until its delay is over, for
/// as long as nothing else is recorded.
pub proof fn failure_blocks(
    before: TrackedBackoff,
    after: TrackedBackoff,
    key: Seq<u8>,
    failed: Instant,
    now: Instant,
)
    requires
        before.wf(),
        failed.nanos + before.backoff.max.nanos <= u128::MAX,
        failure_recorded(before, after, key, failed),
    ensures
        after.known().dom().contains(key),
        after.known()[key].failures > 0,
        after.blocks(key, now) <==> now.nanos < failed.nanos + after.backoff.delay_spec(
            after.known()[key].failures as nat,
        ).nanos,
{
    delay_is_monotonic(before.backoff, 0, before.failed_entry(key, failed).failures as nat);
}

/// Without a failure there is no delay, after the first it is the base, and each further
/// failure doubles it, up to the maximum.
pub proof fn delays_double(b: ExponentialBackoff, failures: nat)
    requires
        b.wf(),
        b.base.nanos <= b.max.nanos,
        failures > 0,
    ensures
        b.delay_spec(0).nanos == 0,
        b.delay_spec(1).nanos == b.base.nanos,
        2 * b.delay_spec(failures).nanos <= b.max.nanos ==> b.delay_spec(failures + 1).nanos == 2
            * b.delay_spec(failures).nanos,
        2 * b.delay_spec(failures).nanos >= b.max.nanos && b.base.nanos > 0 ==> b.delay_spec(
            failures + 1,
        ).nanos == b.max.nanos,
{
    let base = b.base.nanos as int;
    let max = b.max.nanos as int;
    lemma2_to64();
    assert(base * pow2(0) == base) by (nonlinear_arith)
        requires
            pow2(0) == 1,
    ;
    let p = pow2((failures - 1) as nat) as int;
    lemma_pow2_unfold(failures);
    lemma_pow2_pos((failures - 1) as nat);
    assert(base * pow2(failures) == 2 * (base * p)) by (nonlinear_arith)
        requires
            pow2(failures) == 2 * p,
    ;
    assert(base * p >= 0) by (nonlinear_arith)
        requires
            base >= 0,
            p > 0,
    ;
    delay_is_monotonic(b, 0, failures);
    delay_is_monotonic(b, 0, failures + 1);
}

/// A recorded failure counts one more for its key, and changes nothing for other keys
/// but that one whose delay ends first may be forgotten where there is no room.
pub proof fn failures_count_for_their_key(
    before: TrackedBackoff,
    after: TrackedBackoff,
    key: Seq<u8>,
    other: Seq<u8>,
    now: Instant,
)
    requires
        before.wf(),
        failure_recorded(before, after, key, now),
        key != other,
    ensures
        before.known().dom().contains(key) && before.known()[key].failures < u32::MAX
            ==> after.known()[key].failures == before.known()[key].failures + 1,
        !before.known().dom().contains(key) ==> after.known()[key].failures == 1,
        after.known().dom().contains(key),
        after.known().dom().contains(other) ==> before.known().dom().contains(other)
            && after.known()[other] == before.known()[other],
        before.known().dom().contains(other) && (before.known().dom().contains(key)
            || before.known().dom().len() < before.max_entries) ==> after.known().dom().contains(
            other,
        ),
        before.known().dom().contains(other) && !after.known().dom().contains(other)
            ==> before.known().dom().len() >= before.max_entries && forall|k: Seq<u8>| #[trigger]
            before.known().dom().contains(k) ==> before.known()[other].retry_after.nanos
                <= before.known()[k].retry_after.nanos,
{
}

/// A success lets its key be tried at once, and touches no other; forgetting what is over
/// makes no difference to what is blocked, then or later.
pub proof fn successes_unblock(
    before: TrackedBackoff,
    after: TrackedBackoff,
    key: Seq<u8>,
    other: Seq<u8>,
    now: Instant,
    later: Instant,
)
    requires
        key != other,
        now.nanos <= later.nanos,
    ensures
        success_recorded(before, after, key) ==> !after.blocks(key, now) && !after.known().dom().contains(key),
        success_recorded(before, after, key) ==> after.blocks(other, now) == before.blocks(
            other,
            now,
        ),
        expired_forgotten(before, after, now) ==> after.blocks(key, later) == before.blocks(
            key,
            later,
        ),
        expired_forgotten(before, after, now) && after.known().dom().contains(key)
            ==> before.known().dom().contains(key) && after.known()[key] == before.known()[key]
            && now.nanos < after.known()[key].retry_after.nanos,
        before.blocks(key, later) ==> before.blocks(key, now),
{
    if expired_forgotten(before, after, now) {
        assert(after.known().dom().contains(key) <==> before.blocks(key, now));
    }
}

/// No more keys are known than allowed, however many fail; a key that is known already
/// makes none forgotten, and room for one more is used before one is.
pub proof fn no_more_are_known_than_allowed(
    before: TrackedBackoff,
    after: TrackedBackoff,
    key: Seq<u8>,
    now: Instant,
)
    requires
        failure_recorded(before, after, key, now),
        before.known().dom().finite(),
        before.known().dom().len() <= before.max_entries,
        before.max_entries > 0,
    ensures
        after.known().dom().len() <= before.max_entries,
        before.known().dom().contains(key) ==> after.known().dom().len()
            == before.known().dom().len(),
        !before.known().dom().contains(key) && before.known().dom().len() < before.max_entries
            ==> after.known().dom().len() == before.known().dom().len() + 1,
{
    let entry = before.failed_entry(key, now);
    assert(before.known().insert(key, entry).dom() =~= before.known().dom().insert(key));
    if !(before.known().dom().contains(key) || before.known().dom().len() < before.max_entries) {
        let f = choose|forgotten: Seq<u8>|
            {
                &&& #[trigger] before.known().dom().contains(forgotten)
                &&& forall|k: Seq<u8>| #[trigger]
                    before.known().dom().contains(k)
                        ==> before.known()[forgotten].retry_after.nanos
                        <= before.known()[k].retry_after.nanos
                &&& after.known() == before.known().remove(forgotten).insert(key, entry)
            };
        assert(after.known().dom() =~= before.known().dom().remove(f).insert(key));
    }
}

} // verus!
