//! Background maintenance of the node.
//!
//! Three long-lived tasks are decided here, step by step:
//!
//! - seeding ([`SeedingTask`]): hosted contracts are put again from time to time,
//!   so that they stay replicated near their location after peer churn;
//! - storage verification ([`VerificationTask`]): stored states are read and
//!   checked, and what is corrupted or missing is fetched again;
//! - durable operations ([`DurableOpRegistry`]): registered GET and SUBSCRIBE
//!   operations are retried with exponential backoff until they succeed or the
//!   retries are used up.
//!
//! Sleeping, reading the local store and sending into the network are the
//! caller's: it hands in what happened and carries out what comes back.
use crate::contract::key::{ContractInstanceId, ContractKey};
use crate::linear_map::{lemma_entries_contains, lemma_entries_value, LinearMap};
use crate::node::pending::PendingPuts;
use crate::time::{Duration, Instant};
use crate::util::backoff::{
    delay_is_monotonic, expired_forgotten, failure_recorded, success_recorded, BackoffEntry,
    ExponentialBackoff, TrackedBackoff,
};
use vstd::prelude::*;

verus! {

/// Verification failures in a row after which a contract is evicted.
pub const MAX_VERIFICATION_FAILURES: u32 = 3;

/// Durable operations dispatched per sweep at most.
pub const MAX_DURABLE_RETRIES_PER_TICK: usize = 10;

/// The largest contract state that counts as intact: 50 MiB.
pub const MAX_CONTRACT_STATE_SIZE: usize = 52_428_800;

/// Hops to live of a PUT that seeds a contract again.
pub const REPLICATION_HTL: usize = 3;

/// Seconds to wait for the first ring connection.
pub const MAX_WAIT_FOR_CONNECTION_SECS: u64 = 300;

/// Milliseconds between two looks at the ring while waiting.
pub const CONNECTION_POLL_MILLIS: u64 = 500;

/// Seconds between two sweeps of the durable operations.
pub const SWEEP_INTERVAL_SECS: u64 = 5;

/// Contracts that a task keeps backoff for at most.
pub const MAX_BACKOFF_ENTRIES: usize = 512;

pub fn default_seeding_interval_secs() -> (n: u64)
    ensures
        n == 300,
{
    300
}

pub fn default_seeding_batch_size() -> (n: usize)
    ensures
        n == 20,
{
    20
}

pub fn default_verification_interval_secs() -> (n: u64)
    ensures
        n == 600,
{
    600
}

pub fn default_verification_batch_size() -> (n: usize)
    ensures
        n == 20,
{
    20
}

pub fn default_max_durable_retries() -> (n: u32)
    ensures
        n == 10,
{
    10
}

pub fn default_maintenance_enabled() -> (b: bool)
    ensures
        b,
{
    true
}

/// Configuration of the background maintenance.
#[derive(Clone, Copy, Debug, PartialEq, Eq, Structural)]
pub struct MaintenanceConfig {
    /// Seconds between two seeding cycles.
    pub seeding_interval_secs: u64,
    /// Contracts to seed per cycle at most.
    pub seeding_batch_size: usize,
    /// Seconds between two verification cycles.
    pub verification_interval_secs: u64,
    /// Contracts to verify per cycle at most.
    pub verification_batch_size: usize,
    /// Attempts of a durable operation before it is given up.
    pub max_durable_retries: u32,
    /// Whether the tasks run at all.
    pub enabled: bool,
}

impl MaintenanceConfig {
    /// How maintenance is done where nothing else is said.
    pub open spec fn standard() -> MaintenanceConfig {
        MaintenanceConfig {
            seeding_interval_secs: 300,
            seeding_batch_size: 20,
            verification_interval_secs: 600,
            verification_batch_size: 20,
            max_durable_retries: 10,
            enabled: true,
        }
    }
}

impl Default for MaintenanceConfig {
    /// Seeding every five minutes and verification every ten, twenty contracts
    /// at a time, and ten attempts for a durable operation.
    fn default() -> (c: Self)
        ensures
            c == MaintenanceConfig::standard(),
            c == (MaintenanceConfig {
                seeding_interval_secs: 300,
                seeding_batch_size: 20,
                verification_interval_secs: 600,
                verification_batch_size: 20,
                max_durable_retries: 10,
                enabled: true,
            }),
    {
        MaintenanceConfig {
            seeding_interval_secs: default_seeding_interval_secs(),
            seeding_batch_size: default_seeding_batch_size(),
            verification_interval_secs: default_verification_interval_secs(),
            verification_batch_size: default_verification_batch_size(),
            max_durable_retries: default_max_durable_retries(),
            enabled: default_maintenance_enabled(),
        }
    }
}

// ---------------------------------------------------------------------------
// Durable operations
// ---------------------------------------------------------------------------

/// What a durable operation does.
#[derive(Clone, Copy, Debug, PartialEq, Eq, Structural)]
pub enum DurableOpKind {
    Get { fetch_contract: bool },
    Subscribe { is_renewal: bool },
}

/// What the registry of durable operations can be asked.
#[derive(Clone, Copy, Debug)]
pub enum DurableOpRequest {
    Register {
        instance_id: ContractInstanceId,
        kind: DurableOpKind,
        fallback: Option<DurableOpKind>,
    },
    Cancel { instance_id: ContractInstanceId },
    Complete { instance_id: ContractInstanceId },
}

/// A registered operation.
#[derive(Clone, Copy, Debug)]
pub struct DurableOp {
    pub instance_id: ContractInstanceId,
    pub kind: DurableOpKind,
    pub attempts: u32,
    pub retry_after: Instant,
    pub fallback: Option<DurableOpKind>,
}

impl DurableOp {
    /// The operation may be dispatched.
    pub open spec fn ready(self, now: Instant) -> bool {
        now.nanos >= self.retry_after.nanos
    }

    /// One attempt more uses the retries up.
    pub open spec fn last_attempt(self, max_retries: u32) -> bool {
        self.attempts + 1 >= max_retries
    }

    /// What is left of the operation after it has been dispatched: its next
    /// attempt after a delay; once the retries are used up, its fallback with a
    /// fresh count of attempts, or nothing where it has none.
    pub open spec fn dispatched(
        self,
        now: Instant,
        backoff: ExponentialBackoff,
        max_retries: u32,
    ) -> Option<DurableOp> {
        if !self.last_attempt(max_retries) {
            Some(
                DurableOp {
                    attempts: (self.attempts + 1) as u32,
                    retry_after: Instant {
                        nanos: (now.nanos + backoff.delay_spec(
                            (self.attempts + 1) as nat,
                        ).nanos) as u128,
                    },
                    ..self
                },
            )
        } else {
            match self.fallback {
                Some(kind) => Some(
                    DurableOp { kind, attempts: 0, retry_after: now, fallback: None, ..self },
                ),
                None => None,
            }
        }
    }
}

/// An attempt that a sweep hands out.
#[derive(Clone, Copy, Debug)]
pub struct DurableDispatch {
    pub instance_id: ContractInstanceId,
    pub kind: DurableOpKind,
    /// The number of the attempt, from one.
    pub attempt: u32,
}

/// What a sweep did.
#[derive(Debug)]
pub struct SweepOutcome {
    /// The attempts to make now.
    pub dispatched: Vec<DurableDispatch>,
    /// Operations that were given up.
    pub exhausted: usize,
    /// Operations that turned to their fallback.
    pub switched_to_fallback: usize,
    /// Operations that are registered after the sweep.
    pub pending: usize,
}

/// One of the attempts is of the instance.
pub open spec fn attempts_instance(d: Seq<DurableDispatch>, id: Seq<u8>) -> bool {
    exists|i: int| 0 <= i < d.len() && #[trigger] d[i].instance_id@ == id
}

/// How many of the attempts turned their operation to its fallback.
pub open spec fn count_switched(
    ops: Map<Seq<u8>, DurableOp>,
    max_retries: u32,
    d: Seq<DurableDispatch>,
) -> nat
    decreases d.len(),
{
    if d.len() == 0 {
        0
    } else {
        let op = ops[d.last().instance_id@];
        count_switched(ops, max_retries, d.drop_last()) + (if op.last_attempt(max_retries)
            && op.fallback is Some {
            1nat
        } else {
            0nat
        })
    }
}

/// What a sweep at a moment may make of a registry, and what it hands out.
pub open spec fn swept(
    before: DurableOpRegistry,
    after: DurableOpRegistry,
    now: Instant,
    out: SweepOutcome,
) -> bool {
    &&& after.backoff == before.backoff
    &&& after.max_retries == before.max_retries
    &&& out.dispatched@.len()
        <= MAX_DURABLE_RETRIES_PER_TICK
    // every attempt is the next one of an operation that is ready
    &&& forall|i: int|
        #![trigger out.dispatched@[i]]
        0 <= i < out.dispatched@.len() ==> {
            let d = out.dispatched@[i];
            let op = before@[d.instance_id@];
            &&& before@.dom().contains(d.instance_id@)
            &&& op.ready(now)
            &&& d.kind == op.kind
            &&& d.attempt == op.attempts + 1
        }
    // no operation is dispatched twice
    &&& forall|i: int, j: int|
        0 <= i < j < out.dispatched@.len() ==> #[trigger] out.dispatched@[i].instance_id@
            != #[trigger] out.dispatched@[j].instance_id@
    // a sweep that is not full leaves no operation that is ready
    &&& out.dispatched@.len() < MAX_DURABLE_RETRIES_PER_TICK ==> forall|id: Seq<u8>| #[trigger]
        before@.dom().contains(id) && before@[id].ready(now) ==> attempts_instance(
            out.dispatched@,
            id,
        )
    // what is left of each operation
    &&& forall|id: Seq<u8>|
        #![trigger after@.dom().contains(id)]
        #![trigger before@.dom().contains(id)]
        {
            let left = before@[id].dispatched(now, before.backoff, before.max_retries);
            if attempts_instance(out.dispatched@, id) {
                &&& after@.dom().contains(id) <==> left is Some
                &&& left is Some ==> after@[id] == left->0
            } else {
                &&& after@.dom().contains(id) <==> before@.dom().contains(id)
                &&& before@.dom().contains(id) ==> after@[id] == before@[id]
            }
        }
    // the counts
    &&& out.pending == after@.dom().len()
    &&& out.exhausted + out.pending == before@.dom().len()
    &&& out.switched_to_fallback == count_switched(before@, before.max_retries, out.dispatched@)
}

/// The durable operations and how they are retried.
#[derive(Debug)]
pub struct DurableOpRegistry {
    pub ops: LinearMap<ContractInstanceId, DurableOp>,
    pub backoff: ExponentialBackoff,
    pub max_retries: u32,
}

impl View for DurableOpRegistry {
    type V = Map<Seq<u8>, DurableOp>;

    open spec fn view(&self) -> Map<Seq<u8>, DurableOp> {
        self.ops@
    }
}

impl DurableOpRegistry {
    /// Each operation stands under its own instance and has attempts left.
    pub open spec fn wf(&self) -> bool {
        &&& self.ops.wf()
        &&& self.backoff.wf()
        &&& forall|id: Seq<u8>| #[trigger]
            self@.dom().contains(id) ==> self@[id].instance_id@ == id && (self@[id].attempts == 0
                || self@[id].attempts < self.max_retries)
    }

    /// No operation is registered.
    pub fn new(max_retries: u32) -> (r: Self)
        ensures
            r.wf(),
            r@ == Map::<Seq<u8>, DurableOp>::empty(),
            r.max_retries == max_retries,
            r.backoff.base.nanos == 5_000_000_000,
            r.backoff.max.nanos == 300_000_000_000,
    {
        DurableOpRegistry {
            ops: LinearMap::new(),
            backoff: ExponentialBackoff::default(),
            max_retries,
        }
    }

    /// What a request makes of the registered operations.
    pub open spec fn handled(
        ops: Map<Seq<u8>, DurableOp>,
        req: DurableOpRequest,
        now: Instant,
    ) -> Map<Seq<u8>, DurableOp> {
        match req {
            DurableOpRequest::Register { instance_id, kind, fallback } => if ops.dom().contains(
                instance_id@,
            ) {
                ops
            } else {
                ops.insert(
                    instance_id@,
                    DurableOp { instance_id, kind, attempts: 0, retry_after: now, fallback },
                )
            },
            DurableOpRequest::Cancel { instance_id } => ops.remove(instance_id@),
            DurableOpRequest::Complete { instance_id } => ops.remove(instance_id@),
        }
    }

    /// Registers an operation that may be dispatched at once, unless its
    /// instance has one already; or takes one out.
    pub fn handle(&mut self, req: DurableOpRequest, now: Instant)
        requires
            old(self).wf(),
        ensures
            final(self).wf(),
            final(self)@ == Self::handled(old(self)@, req, now),
            final(self).backoff == old(self).backoff,
            final(self).max_retries == old(self).max_retries,
    {
        match req {
            DurableOpRequest::Register { instance_id, kind, fallback } => {
                if !self.ops.contains_key(&instance_id) {
                    self.ops.insert(
                        instance_id,
                        DurableOp { instance_id, kind, attempts: 0, retry_after: now, fallback },
                    );
                }
            },
            DurableOpRequest::Cancel { instance_id } => {
                self.ops.remove(&instance_id);
            },
            DurableOpRequest::Complete { instance_id } => {
                self.ops.remove(&instance_id);
            },
        }
    }

    /// What is left of an operation after it has been dispatched.
    fn after_dispatch(&self, op: &DurableOp, now: Instant) -> (next: Option<DurableOp>)
        requires
            self.backoff.wf(),
            now.nanos + self.backoff.max.nanos <= u128::MAX,
            op.attempts == 0 || op.attempts < self.max_retries,
        ensures
            next == op.dispatched(now, self.backoff, self.max_retries),
    {
        let attempts: u32 = op.attempts + 1;
        proof {
            delay_is_monotonic(self.backoff, 0, attempts as nat);
        }
        let retry_after = now.after(self.backoff.delay(attempts));
        if attempts >= self.max_retries {
            match op.fallback {
                Some(kind) => Some(
                    DurableOp {
                        instance_id: op.instance_id,
                        kind,
                        attempts: 0,
                        retry_after: now,
                        fallback: None,
                    },
                ),
                None => None,
            }
        } else {
            Some(
                DurableOp {
                    instance_id: op.instance_id,
                    kind: op.kind,
                    attempts,
                    retry_after,
                    fallback: op.fallback,
                },
            )
        }
    }

    /// Dispatches operations that are ready, as many as one sweep allows, and
    /// leaves each of them for its next attempt, for its fallback, or not at all.
    pub fn sweep(&mut self, now: Instant) -> (out: SweepOutcome)
        requires
            old(self).wf(),
            now.nanos + old(self).backoff.max.nanos <= u128::MAX,
        ensures
            final(self).wf(),
            swept(*old(self), *final(self), now, out),
    {
        let mut dispatched: Vec<DurableDispatch> = Vec::new();
        let mut switched: usize = 0;
        let total: usize = self.ops.len();
        let mut i: usize = 0;
        let ghost ops0 = self@;
        let ghost backoff0 = self.backoff;
        let ghost max0 = self.max_retries;
        while i < self.ops.entries.len()
            invariant
                self.ops.wf(),
                self.backoff == backoff0,
                self.max_retries == max0,
                backoff0.wf(),
                ops0 == old(self)@,
                now.nanos + backoff0.max.nanos <= u128::MAX,
                i <= self.ops.entries@.len(),
                dispatched@.len() <= MAX_DURABLE_RETRIES_PER_TICK,
                switched <= dispatched@.len(),
                self.ops.entries@.len() <= total,
                switched == count_switched(ops0, max0, dispatched@),
                forall|id: Seq<u8>| #[trigger]
                    ops0.dom().contains(id) ==> ops0[id].instance_id@ == id && (ops0[id].attempts
                        == 0 || ops0[id].attempts < max0),
                forall|x: int|
                    #![trigger dispatched@[x]]
                    0 <= x < dispatched@.len() ==> {
                        let d = dispatched@[x];
                        let op = ops0[d.instance_id@];
                        &&& ops0.dom().contains(d.instance_id@)
                        &&& op.ready(now)
                        &&& d.kind == op.kind
                        &&& d.attempt == op.attempts + 1
                    },
                forall|x: int, y: int|
                    0 <= x < y < dispatched@.len() ==> #[trigger] dispatched@[x].instance_id@
                        != #[trigger] dispatched@[y].instance_id@,
                forall|id: Seq<u8>|
                    #![trigger self@.dom().contains(id)]
                    #![trigger ops0.dom().contains(id)]
                    {
                        let left = ops0[id].dispatched(now, backoff0, max0);
                        if attempts_instance(dispatched@, id) {
                            &&& self@.dom().contains(id) <==> left is Some
                            &&& left is Some ==> self@[id] == left->0
                        } else {
                            &&& self@.dom().contains(id) <==> ops0.dom().contains(id)
                            &&& ops0.dom().contains(id) ==> self@[id] == ops0[id]
                        }
                    },
                forall|j: int|
                    i <= j < self.ops.entries@.len() ==> !attempts_instance(
                        dispatched@,
                        (#[trigger] self.ops.entries@[j]).0@,
                    ),
                dispatched@.len() < MAX_DURABLE_RETRIES_PER_TICK ==> forall|j: int|
                    0 <= j < i ==> attempts_instance(
                        dispatched@,
                        (#[trigger] self.ops.entries@[j]).0@,
                    ) || !ops0[self.ops.entries@[j].0@].ready(now),
            decreases self.ops.entries@.len() - i,
        {
            let op: DurableOp = self.ops.entries[i].1;
            let ghost id = self.ops.entries@[i as int].0@;
            let ghost before = self.ops.entries@;
            let ghost map_before = self@;
            let ghost sent_before = dispatched@;
            proof {
                lemma_entries_value(before, i as int);
                assert(self@.dom().contains(id));
                assert(op == ops0[id]);
            }
            if dispatched.len() < MAX_DURABLE_RETRIES_PER_TICK && now.nanos >= op.retry_after.nanos {
                let attempt: u32 = op.attempts + 1;
                dispatched.push(
                    DurableDispatch { instance_id: op.instance_id, kind: op.kind, attempt },
                );
                if attempt >= self.max_retries && op.fallback.is_some() {
                    switched += 1;
                }
                proof {
                    assert(dispatched@.drop_last() =~= sent_before);
                    assert(dispatched@[dispatched@.len() - 1].instance_id@ == id);
                    assert(attempts_instance(dispatched@, id));
                    assert forall|k: Seq<u8>| #[trigger]
                        attempts_instance(dispatched@, k) <==> (k == id || attempts_instance(
                            sent_before,
                            k,
                        )) by {
                        lemma_attempts_push(sent_before, dispatched@.last(), k);
                        assert(dispatched@ =~= sent_before.push(dispatched@.last()));
                    }
                    assert forall|x: int, y: int| 0 <= x < y < dispatched@.len() implies #[trigger]
                        dispatched@[x].instance_id@ != #[trigger] dispatched@[y].instance_id@ by {
                        if y == sent_before.len() {
                            assert(dispatched@[x] == sent_before[x]);
                            if sent_before[x].instance_id@ == id {
                                assert(attempts_instance(sent_before, id));
                            }
                        } else {
                            assert(dispatched@[x] == sent_before[x] && dispatched@[y]
                                == sent_before[y]);
                        }
                    }
                }
                match self.after_dispatch(&op, now) {
                    Some(next) => {
                        self.ops.set_at(i, next);
                        assert forall|j: int| 0 <= j < self.ops.entries@.len() implies (
                        #[trigger] self.ops.entries@[j]).0 == before[j].0 by {}
                        assert forall|j: int| i < j < self.ops.entries@.len() implies before[j].0@
                            != id by {
                            assert(before[i as int].0@ != before[j].0@);
                        }
                        i += 1;
                    },
                    None => {
                        self.ops.remove_at(i);
                        assert forall|j: int| 0 <= j < i implies #[trigger] self.ops.entries@[j]
                            == before[j] by {}
                        assert forall|j: int| i <= j < self.ops.entries@.len() implies #[trigger] self.ops.entries@[j]
                            == before[j + 1] && before[j + 1].0@ != id by {
                            assert(before[i as int].0@ != before[j + 1].0@);
                        }
                    },
                }
            } else {
                i += 1;
            }
        }
        proof {
            let s = self.ops.entries@;
            assert forall|id: Seq<u8>| #[trigger]
                ops0.dom().contains(id) && ops0[id].ready(now) && dispatched@.len()
                    < MAX_DURABLE_RETRIES_PER_TICK implies attempts_instance(dispatched@, id) by {
                if !attempts_instance(dispatched@, id) {
                    assert(self@.dom().contains(id));
                    lemma_entries_contains(s, id);
                    let j = choose|j: int| 0 <= j < s.len() && #[trigger] s[j].0@ == id;
                    assert(s[j].0@ == id);
                }
            }
            assert forall|id: Seq<u8>| #[trigger] self@.dom().contains(id) implies self@[id].instance_id@
                == id && (self@[id].attempts == 0 || self@[id].attempts < max0) by {
                if attempts_instance(dispatched@, id) {
                    let x = choose|x: int|
                        0 <= x < dispatched@.len() && #[trigger] dispatched@[x].instance_id@ == id;
                    assert(ops0.dom().contains(dispatched@[x].instance_id@));
                } else {
                    assert(ops0.dom().contains(id));
                }
            }
        }
        let pending: usize = self.ops.len();
        SweepOutcome { dispatched, exhausted: total - pending, switched_to_fallback: switched, pending }
    }
}

/// One attempt more is of its own instance besides those before.
proof fn lemma_attempts_push(d: Seq<DurableDispatch>, e: DurableDispatch, id: Seq<u8>)
    ensures
        attempts_instance(d.push(e), id) <==> (id == e.instance_id@ || attempts_instance(d, id)),
{
    let p = d.push(e);
    if attempts_instance(p, id) {
        let i = choose|i: int| 0 <= i < p.len() && #[trigger] p[i].instance_id@ == id;
        if i < d.len() {
            assert(d[i].instance_id@ == id);
        }
    }
    if attempts_instance(d, id) {
        let i = choose|i: int| 0 <= i < d.len() && #[trigger] d[i].instance_id@ == id;
        assert(p[i].instance_id@ == id);
    }
    if id == e.instance_id@ {
        assert(p[d.len() as int].instance_id@ == id);
    }
}

/// What is left of an operation that is dispatched at each of some moments.
pub open spec fn dispatched_at(
    op: DurableOp,
    times: Seq<Instant>,
    backoff: ExponentialBackoff,
    max_retries: u32,
) -> Option<DurableOp>
    decreases times.len(),
{
    if times.len() == 0 {
        Some(op)
    } else {
        match dispatched_at(op, times.drop_last(), backoff, max_retries) {
            Some(p) => p.dispatched(times.last(), backoff, max_retries),
            None => None,
        }
    }
}

/// A fresh operation is attempted exactly as often as retries are allowed:
/// before that it is still registered as it was, with its attempts counted; at
/// the last attempt it turns to its fallback with a fresh count, or is given up.
pub proof fn durable_op_uses_its_retries(
    op: DurableOp,
    times: Seq<Instant>,
    backoff: ExponentialBackoff,
    max_retries: u32,
)
    requires
        op.attempts == 0,
        max_retries > 0,
        times.len() <= max_retries,
    ensures
        times.len() < max_retries ==> {
            let left = dispatched_at(op, times, backoff, max_retries);
            &&& left is Some
            &&& left->0.attempts == times.len()
            &&& left->0.kind == op.kind
            &&& left->0.fallback == op.fallback
            &&& left->0.instance_id == op.instance_id
        },
        times.len() == max_retries ==> dispatched_at(op, times, backoff, max_retries) == (
        match op.fallback {
            Some(kind) => Some(
                DurableOp {
                    instance_id: op.instance_id,
                    kind,
                    attempts: 0,
                    retry_after: times.last(),
                    fallback: None,
                },
            ),
            None => None,
        }),
    decreases times.len(),
{
    if times.len() > 0 {
        durable_op_uses_its_retries(op, times.drop_last(), backoff, max_retries);
    }
}

/// An operation that was registered and then cancelled or completed leaves the
/// registry as if its instance had never had one.
pub proof fn register_then_remove(
    ops: Map<Seq<u8>, DurableOp>,
    id: ContractInstanceId,
    kind: DurableOpKind,
    fallback: Option<DurableOpKind>,
    registered: Instant,
    removed: Instant,
)
    ensures
        ({
            let after = DurableOpRegistry::handled(
                ops,
                DurableOpRequest::Register { instance_id: id, kind, fallback },
                registered,
            );
            let cancel = DurableOpRequest::Cancel { instance_id: id };
            let complete = DurableOpRequest::Complete { instance_id: id };
            &&& after.dom().contains(id@)
            &&& DurableOpRegistry::handled(after, cancel, removed) == ops.remove(id@)
            &&& DurableOpRegistry::handled(after, complete, removed) == ops.remove(id@)
        }),
{
    let after = DurableOpRegistry::handled(
        ops,
        DurableOpRequest::Register { instance_id: id, kind, fallback },
        registered,
    );
    assert(after.remove(id@) =~= ops.remove(id@));
}

/// A second registration of an instance changes nothing.
pub proof fn second_registration_is_ignored(
    ops: Map<Seq<u8>, DurableOp>,
    id: ContractInstanceId,
    kind: DurableOpKind,
    fallback: Option<DurableOpKind>,
    now: Instant,
)
    requires
        ops.dom().contains(id@),
    ensures
        DurableOpRegistry::handled(
            ops,
            DurableOpRequest::Register { instance_id: id, kind, fallback },
            now,
        ) == ops,
{
}

/// What happened to the task of durable operations.
#[derive(Clone, Copy, Debug)]
pub enum DurableTaskEvent {
    /// A request came in.
    Request(DurableOpRequest),
    /// Nobody can send requests any more.
    ChannelClosed,
    /// It is time for a sweep.
    SweepTick,
}

/// What the task of durable operations has to do.
#[derive(Debug)]
pub enum DurableTaskAction {
    /// Wait for the next event.
    Wait,
    /// Make the attempts of a sweep, then wait.
    Dispatch(SweepOutcome),
    /// End.
    Exit,
}

/// One step of the task of durable operations.
pub fn durable_operation_task(
    registry: &mut DurableOpRegistry,
    event: DurableTaskEvent,
    now: Instant,
) -> (action: DurableTaskAction)
    requires
        old(registry).wf(),
        now.nanos + old(registry).backoff.max.nanos <= u128::MAX,
    ensures
        final(registry).wf(),
        final(registry).backoff == old(registry).backoff,
        final(registry).max_retries == old(registry).max_retries,
        match event {
            DurableTaskEvent::Request(req) => {
                &&& action is Wait
                &&& final(registry)@ == DurableOpRegistry::handled(old(registry)@, req, now)
            },
            DurableTaskEvent::ChannelClosed => {
                &&& action is Exit
                &&& final(registry)@ == old(registry)@
            },
            DurableTaskEvent::SweepTick => {
                &&& action matches DurableTaskAction::Dispatch(out)
                &&& swept(*old(registry), *final(registry), now, out)
            },
        },
{
    match event {
        DurableTaskEvent::Request(req) => {
            registry.handle(req, now);
            DurableTaskAction::Wait
        },
        DurableTaskEvent::ChannelClosed => DurableTaskAction::Exit,
        DurableTaskEvent::SweepTick => {
            let out = registry.sweep(now);
            DurableTaskAction::Dispatch(out)
        },
    }
}

// ---------------------------------------------------------------------------
// Waiting for the ring
// ---------------------------------------------------------------------------

/// What a look at the ring says while a task waits to start.
#[derive(Clone, Copy, Debug, PartialEq, Eq, Structural)]
pub enum ConnectionWait {
    /// There is a connection: start.
    Connected,
    /// There is none, and there has been time enough: start anyway.
    TimedOut,
    /// Look again later.
    Wait,
}

/// What a task does that waits for the ring: with a connection it starts, and without
/// one it waits for so long as is allowed.
pub open spec fn ring_wait(open_connections: usize, waited: Duration) -> ConnectionWait {
    if open_connections > 0 {
        ConnectionWait::Connected
    } else if waited.nanos >= MAX_WAIT_FOR_CONNECTION_SECS * 1_000_000_000 {
        ConnectionWait::TimedOut
    } else {
        ConnectionWait::Wait
    }
}

/// Whether a task starts: at the first connection, or after five minutes.
pub fn wait_for_ring_connection(open_connections: usize, waited: Duration) -> (w: ConnectionWait)
    ensures
        w == ring_wait(open_connections, waited),
        w == (if open_connections > 0 {
            ConnectionWait::Connected
        } else if waited.nanos >= 300_000_000_000 {
            ConnectionWait::TimedOut
        } else {
            ConnectionWait::Wait
        }),
{
    if open_connections > 0 {
        ConnectionWait::Connected
    } else if waited.nanos >= Duration::from_secs(MAX_WAIT_FOR_CONNECTION_SECS).nanos {
        ConnectionWait::TimedOut
    } else {
        ConnectionWait::Wait
    }
}

// ---------------------------------------------------------------------------
// Seeding
// ---------------------------------------------------------------------------

/// What a seeding cycle did.
#[derive(Clone, Copy, Debug, PartialEq, Eq, Structural)]
pub struct SeedingReport {
    pub spawned: u32,
    pub skipped_backoff: u32,
    pub skipped_pending: u32,
    pub skipped_unavailable: u32,
    pub handler_errors: u32,
}

impl SeedingReport {
    /// The contracts that the report accounts for.
    pub open spec fn total(self) -> int {
        self.spawned + self.skipped_backoff + self.skipped_pending + self.skipped_unavailable
            + self.handler_errors
    }
}

/// What the local store answers about a contract to seed.
#[derive(Clone, Copy, Debug, PartialEq, Eq, Structural)]
pub enum SeedingResponse {
    /// State and code are there.
    Available,
    /// State or code is missing.
    Unavailable,
    /// The store failed, or gave no answer to the question.
    HandlerError,
}

/// What the seeding task does next in a cycle.
#[derive(Clone, Copy, Debug)]
pub enum SeedingStep {
    /// Ask the local store for state and code of the contract.
    Fetch(ContractKey),
    /// The cycle is over.
    Done,
}

/// What the seeding task does with an answer of the local store.
#[derive(Clone, Copy, Debug, PartialEq, Eq, Structural)]
pub enum SeedingAction {
    /// Put the contract into the network.
    Put { htl: usize },
    /// Go on.
    Skip,
}

/// A cycle of the seeding task: the contracts of its batch, those before `next`
/// dealt with.
#[derive(Debug)]
pub struct SeedingCycle {
    pub batch: Vec<ContractKey>,
    pub next: usize,
    pub report: SeedingReport,
}

impl SeedingCycle {
    /// The report accounts for every contract dealt with, and for no other.
    pub open spec fn wf(&self) -> bool {
        &&& self.next <= self.batch@.len()
        &&& self.batch@.len() <= u32::MAX
        &&& self.report.total() == self.next
    }
}

/// The state that the seeding task keeps from cycle to cycle.
pub struct SeedingTask {
    pub backoff: TrackedBackoff,
    pub pending: PendingPuts,
}

/// Why a contract of a batch is passed over.
#[derive(Clone, Copy, Debug, PartialEq, Eq, Structural)]
pub enum SeedingSkip {
    Backoff,
    Pending,
    No,
}

impl SeedingTask {
    pub open spec fn wf(&self) -> bool {
        self.backoff.wf()
    }

    /// Backoff comes first, then a PUT in flight.
    pub open spec fn skip_spec(&self, key: ContractKey, now: Instant) -> SeedingSkip {
        if self.backoff.blocks(key@, now) {
            SeedingSkip::Backoff
        } else if self.pending@.contains(key@) {
            SeedingSkip::Pending
        } else {
            SeedingSkip::No
        }
    }

    /// How many contracts of a batch are passed over for a reason.
    pub open spec fn count_skips(
        &self,
        batch: Seq<ContractKey>,
        now: Instant,
        from: int,
        to: int,
        why: SeedingSkip,
    ) -> nat
        decreases to - from,
    {
        if from >= to {
            0
        } else {
            self.count_skips(batch, now, from, to - 1, why) + (if self.skip_spec(batch[to - 1], now)
                == why {
                1nat
            } else {
                0nat
            })
        }
    }

    /// Nothing has failed, nothing is in flight.
    pub fn new() -> (t: Self)
        ensures
            t.wf(),
            t.backoff.known() == Map::<Seq<u8>, BackoffEntry>::empty(),
            t.backoff.backoff.base.nanos == 60_000_000_000,
            t.backoff.backoff.max.nanos == 1_800_000_000_000,
            t.backoff.max_entries == MAX_BACKOFF_ENTRIES,
            t.pending@ == Set::<Seq<u8>>::empty(),
    {
        SeedingTask {
            backoff: TrackedBackoff::new(
                ExponentialBackoff::new(Duration::from_secs(60), Duration::from_secs(1800)),
                MAX_BACKOFF_ENTRIES,
            ),
            pending: PendingPuts::new(),
        }
    }

    /// Whether a cycle is put off: without a connection, and while more than
    /// three quarters of the event channel are taken.
    pub fn defers(open_connections: usize, capacity: usize, max_capacity: usize) -> (b: bool)
        ensures
            b == (open_connections == 0 || capacity < max_capacity / 4),
            b == put_off(open_connections, capacity, max_capacity),
    {
        open_connections == 0 || capacity < max_capacity / 4
    }

    /// Starts a cycle with the first contracts of a list, as many as a batch
    /// holds, and forgets backoff that is over.
    pub fn begin_cycle(&mut self, keys: Vec<ContractKey>, batch_size: usize, now: Instant) -> (c:
        SeedingCycle)
        requires
            old(self).wf(),
            keys@.len() <= u32::MAX || batch_size <= u32::MAX,
        ensures
            final(self).wf(),
            final(self).pending == old(self).pending,
            expired_forgotten(old(self).backoff, final(self).backoff, now),
            c.wf(),
            c.next == 0,
            c.batch@ == (if keys@.len() <= batch_size {
                keys@
            } else {
                keys@.subrange(0, batch_size as int)
            }),
            is_batch(keys@, batch_size, c.batch@),
    {
        let batch = select_batch(keys, batch_size);
        self.backoff.cleanup_expired(now);
        SeedingCycle {
            batch,
            next: 0,
            report: SeedingReport {
                spawned: 0,
                skipped_backoff: 0,
                skipped_pending: 0,
                skipped_unavailable: 0,
                handler_errors: 0,
            },
        }
    }

    /// Whether a contract is passed over.
    fn skip(&self, key: &ContractKey, now: Instant) -> (s: SeedingSkip)
        requires
            self.wf(),
        ensures
            s == self.skip_spec(*key, now),
    {
        if self.backoff.is_in_backoff(key, now) {
            SeedingSkip::Backoff
        } else if self.pending.contains(key) {
            SeedingSkip::Pending
        } else {
            SeedingSkip::No
        }
    }

    /// Passes over contracts that are in backoff or have a PUT in flight, up to
    /// the first that is neither.
    pub fn next_step(&self, cycle: &mut SeedingCycle, now: Instant) -> (step: SeedingStep)
        requires
            self.wf(),
            old(cycle).wf(),
        ensures
            final(cycle).wf(),
            final(cycle).batch == old(cycle).batch,
            old(cycle).next <= final(cycle).next,
            forall|j: int|
                old(cycle).next <= j < final(cycle).next ==> self.skip_spec(
                    #[trigger] old(cycle).batch@[j],
                    now,
                ) != SeedingSkip::No,
            final(cycle).next < old(cycle).batch@.len() ==> {
                &&& self.skip_spec(old(cycle).batch@[final(cycle).next as int], now)
                    == SeedingSkip::No
                &&& step == SeedingStep::Fetch(old(cycle).batch@[final(cycle).next as int])
            },
            final(cycle).next == old(cycle).batch@.len() ==> step is Done,
            final(cycle).report == (SeedingReport {
                skipped_backoff: (old(cycle).report.skipped_backoff + self.count_skips(
                    old(cycle).batch@,
                    now,
                    old(cycle).next as int,
                    final(cycle).next as int,
                    SeedingSkip::Backoff,
                )) as u32,
                skipped_pending: (old(cycle).report.skipped_pending + self.count_skips(
                    old(cycle).batch@,
                    now,
                    old(cycle).next as int,
                    final(cycle).next as int,
                    SeedingSkip::Pending,
                )) as u32,
                ..old(cycle).report
            }),
    {
        let ghost c0 = *cycle;
        while cycle.next < cycle.batch.len()
            invariant
                self.wf(),
                cycle.wf(),
                c0 == *old(cycle),
                cycle.batch == c0.batch,
                c0.next <= cycle.next,
                forall|j: int|
                    c0.next <= j < cycle.next ==> self.skip_spec(#[trigger] c0.batch@[j], now)
                        != SeedingSkip::No,
                cycle.report.skipped_backoff == c0.report.skipped_backoff + self.count_skips(
                    c0.batch@,
                    now,
                    c0.next as int,
                    cycle.next as int,
                    SeedingSkip::Backoff,
                ),
                cycle.report.skipped_pending == c0.report.skipped_pending + self.count_skips(
                    c0.batch@,
                    now,
                    c0.next as int,
                    cycle.next as int,
                    SeedingSkip::Pending,
                ),
                cycle.report == (SeedingReport {
                    skipped_backoff: cycle.report.skipped_backoff,
                    skipped_pending: cycle.report.skipped_pending,
                    ..c0.report
                }),
            decreases cycle.batch@.len() - cycle.next,
        {
            let key: ContractKey = cycle.batch[cycle.next];
            match self.skip(&key, now) {
                SeedingSkip::Backoff => {
                    cycle.report.skipped_backoff = cycle.report.skipped_backoff + 1;
                },
                SeedingSkip::Pending => {
                    cycle.report.skipped_pending = cycle.report.skipped_pending + 1;
                },
                SeedingSkip::No => {
                    return SeedingStep::Fetch(key);
                },
            }
            cycle.next = cycle.next + 1;
        }
        SeedingStep::Done
    }

    /// Takes the store's answer about the contract at hand: a contract that is
    /// there is put into the network and noted as in flight; a failure of the
    /// store puts the contract into backoff.
    pub fn on_response(
        &mut self,
        cycle: &mut SeedingCycle,
        response: SeedingResponse,
        now: Instant,
    ) -> (action: SeedingAction)
        requires
            old(self).wf(),
            old(cycle).wf(),
            old(cycle).next < old(cycle).batch@.len(),
            now.nanos + old(self).backoff.backoff.max.nanos <= u128::MAX,
        ensures
            final(self).wf(),
            final(cycle).wf(),
            final(cycle).batch == old(cycle).batch,
            final(cycle).next == old(cycle).next + 1,
            final(cycle).report == seeding_counted(old(cycle).report, response),
            action == seeding_action(response),
            ({
                let key = old(cycle).batch@[old(cycle).next as int];
                match response {
                    SeedingResponse::Available => {
                        &&& action == SeedingAction::Put { htl: REPLICATION_HTL }
                        &&& final(self).pending@ == old(self).pending@.insert(key@)
                        &&& final(self).backoff == old(self).backoff
                        &&& final(cycle).report == (SeedingReport {
                            spawned: (old(cycle).report.spawned + 1) as u32,
                            ..old(cycle).report
                        })
                    },
                    SeedingResponse::Unavailable => {
                        &&& action == SeedingAction::Skip
                        &&& final(self).pending@ == old(self).pending@
                        &&& final(self).backoff == old(self).backoff
                        &&& final(cycle).report == (SeedingReport {
                            skipped_unavailable: (old(cycle).report.skipped_unavailable + 1) as u32,
                            ..old(cycle).report
                        })
                    },
                    SeedingResponse::HandlerError => {
                        &&& action == SeedingAction::Skip
                        &&& final(self).pending@ == old(self).pending@
                        &&& failure_recorded(old(self).backoff, final(self).backoff, key@, now)
                        &&& final(cycle).report == (SeedingReport {
                            handler_errors: (old(cycle).report.handler_errors + 1) as u32,
                            ..old(cycle).report
                        })
                    },
                }
            }),
    {
        let key: ContractKey = cycle.batch[cycle.next];
        cycle.next = cycle.next + 1;
        match response {
            SeedingResponse::Available => {
                self.pending.insert(&key);
                cycle.report.spawned = cycle.report.spawned + 1;
                SeedingAction::Put { htl: REPLICATION_HTL }
            },
            SeedingResponse::Unavailable => {
                cycle.report.skipped_unavailable = cycle.report.skipped_unavailable + 1;
                SeedingAction::Skip
            },
            SeedingResponse::HandlerError => {
                cycle.report.handler_errors = cycle.report.handler_errors + 1;
                self.backoff.record_failure(key, now);
                SeedingAction::Skip
            },
        }
    }

    /// Notes that the PUT of a contract is over, however it ended.
    pub fn put_finished(&mut self, key: &ContractKey)
        requires
            old(self).wf(),
        ensures
            final(self).wf(),
            final(self).backoff == old(self).backoff,
            final(self).pending@ == old(self).pending@.remove(key@),
    {
        self.pending.remove(key);
    }
}

/// A contract whose PUT is in flight is never fetched for another one.
pub proof fn no_duplicate_put(task: SeedingTask, key: ContractKey, now: Instant)
    requires
        task.pending@.contains(key@),
    ensures
        task.skip_spec(key, now) != SeedingSkip::No,
{
}

/// The first contracts of a list, as many as a batch holds.
pub fn select_batch(keys: Vec<ContractKey>, batch_size: usize) -> (batch: Vec<ContractKey>)
    ensures
        batch@ == (if keys@.len() <= batch_size {
            keys@
        } else {
            keys@.subrange(0, batch_size as int)
        }),
        is_batch(keys@, batch_size, batch@),
{
    let mut batch = keys;
    batch.truncate(batch_size);
    batch
}

// ---------------------------------------------------------------------------
// Storage verification
// ---------------------------------------------------------------------------

/// What a verification cycle did.
#[derive(Clone, Copy, Debug, PartialEq, Eq, Structural)]
pub struct VerificationReport {
    pub healthy: u32,
    pub failed: u32,
    pub evicted: u32,
    pub recovery_started: u32,
}

/// What the local store answers about a contract to verify.
#[derive(Clone, Copy, Debug, PartialEq, Eq, Structural)]
pub enum VerificationRead {
    /// A state of so many bytes.
    State { size: usize },
    /// The contract is not in the local store.
    Missing,
    /// The store failed, or gave no answer to the question.
    Failed,
}

/// What the verification task does with a contract.
#[derive(Clone, Copy, Debug)]
pub enum VerificationAction {
    /// The state is intact.
    Healthy,
    /// Fetch the state from the network.
    Recover(ContractInstanceId),
    /// Evict the contract.
    Evict(ContractKey),
}

/// What the verification task does next in a cycle.
#[derive(Clone, Copy, Debug)]
pub enum VerificationStep {
    /// Read the state of the contract from the local store.
    Read(ContractKey),
    /// The cycle is over.
    Done,
}

/// A cycle of the verification task: the contracts of its batch, those before
/// `next` dealt with.
#[derive(Debug)]
pub struct VerificationCycle {
    pub batch: Vec<ContractKey>,
    pub next: usize,
    pub report: VerificationReport,
}

impl VerificationCycle {
    /// The report accounts for no more contracts than were dealt with, and each
    /// failure led to an eviction or to a recovery.
    pub open spec fn wf(&self) -> bool {
        &&& self.next <= self.batch@.len()
        &&& self.batch@.len() <= u32::MAX
        &&& self.report.healthy + self.report.failed <= self.next
        &&& self.report.evicted + self.report.recovery_started == self.report.failed
    }
}

/// A state is intact if it is there, not empty, and not too large.
pub open spec fn intact(read: VerificationRead) -> bool {
    read matches VerificationRead::State { size } && 0 < size <= MAX_CONTRACT_STATE_SIZE
}

/// The failures in a row after one more.
pub open spec fn failures_after(counts: Map<Seq<u8>, u32>, key: Seq<u8>) -> int {
    if counts.dom().contains(key) {
        counts[key] + 1
    } else {
        1
    }
}

/// The failures in a row of each contract after a contract was read: none after
/// success or eviction, one more after a failure.
pub open spec fn counts_after(
    counts: Map<Seq<u8>, u32>,
    key: Seq<u8>,
    read: VerificationRead,
) -> Map<Seq<u8>, u32> {
    if intact(read) || failures_after(counts, key) >= MAX_VERIFICATION_FAILURES {
        counts.remove(key)
    } else {
        counts.insert(key, failures_after(counts, key) as u32)
    }
}

/// What is done with a contract that was read.
pub open spec fn action_after(
    counts: Map<Seq<u8>, u32>,
    key: ContractKey,
    read: VerificationRead,
) -> VerificationAction {
    if intact(read) {
        VerificationAction::Healthy
    } else if failures_after(counts, key@) >= MAX_VERIFICATION_FAILURES {
        VerificationAction::Evict(key)
    } else {
        VerificationAction::Recover(key.instance)
    }
}

/// The state that the verification task keeps from cycle to cycle.
#[derive(Debug)]
pub struct VerificationTask {
    pub backoff: TrackedBackoff,
    pub failure_counts: LinearMap<ContractKey, u32>,
}

impl VerificationTask {
    /// A contract that failed too often is not remembered.
    pub open spec fn wf(&self) -> bool {
        &&& self.backoff.wf()
        &&& self.failure_counts.wf()
        &&& forall|k: Seq<u8>| #[trigger]
            self.failure_counts@.dom().contains(k) ==> 0 < self.failure_counts@[k]
                < MAX_VERIFICATION_FAILURES
    }

    /// Nothing has failed.
    pub fn new() -> (t: Self)
        ensures
            t.wf(),
            t.backoff.known() == Map::<Seq<u8>, BackoffEntry>::empty(),
            t.backoff.backoff.base.nanos == 30_000_000_000,
            t.backoff.backoff.max.nanos == 900_000_000_000,
            t.backoff.max_entries == MAX_BACKOFF_ENTRIES,
            t.failure_counts@ == Map::<Seq<u8>, u32>::empty(),
    {
        VerificationTask {
            backoff: TrackedBackoff::new(
                ExponentialBackoff::new(Duration::from_secs(30), Duration::from_secs(900)),
                MAX_BACKOFF_ENTRIES,
            ),
            failure_counts: LinearMap::new(),
        }
    }

    /// Starts a cycle with the first contracts of a list, as many as a batch
    /// holds, and forgets backoff that is over.
    pub fn begin_cycle(&mut self, keys: Vec<ContractKey>, batch_size: usize, now: Instant) -> (c:
        VerificationCycle)
        requires
            old(self).wf(),
            keys@.len() <= u32::MAX || batch_size <= u32::MAX,
        ensures
            final(self).wf(),
            final(self).failure_counts == old(self).failure_counts,
            expired_forgotten(old(self).backoff, final(self).backoff, now),
            c.wf(),
            c.next == 0,
            c.report == (VerificationReport {
                healthy: 0,
                failed: 0,
                evicted: 0,
                recovery_started: 0,
            }),
            c.batch@ == (if keys@.len() <= batch_size {
                keys@
            } else {
                keys@.subrange(0, batch_size as int)
            }),
            is_batch(keys@, batch_size, c.batch@),
    {
        let batch = select_batch(keys, batch_size);
        self.backoff.cleanup_expired(now);
        VerificationCycle {
            batch,
            next: 0,
            report: VerificationReport { healthy: 0, failed: 0, evicted: 0, recovery_started: 0 },
        }
    }

    /// Passes over contracts in backoff, up to the first that is not.
    pub fn next_step(&self, cycle: &mut VerificationCycle, now: Instant) -> (step: VerificationStep)
        requires
            self.wf(),
            old(cycle).wf(),
        ensures
            final(cycle).wf(),
            final(cycle).batch == old(cycle).batch,
            final(cycle).report == old(cycle).report,
            old(cycle).next <= final(cycle).next,
            forall|j: int|
                old(cycle).next <= j < final(cycle).next ==> self.backoff.blocks(
                    (#[trigger] old(cycle).batch@[j])@,
                    now,
                ),
            final(cycle).next < old(cycle).batch@.len() ==> {
                &&& !self.backoff.blocks(old(cycle).batch@[final(cycle).next as int]@, now)
                &&& step == VerificationStep::Read(old(cycle).batch@[final(cycle).next as int])
            },
            final(cycle).next == old(cycle).batch@.len() ==> step is Done,
    {
        let ghost c0 = *cycle;
        while cycle.next < cycle.batch.len()
            invariant
                self.wf(),
                cycle.wf(),
                c0 == *old(cycle),
                cycle.batch == c0.batch,
                cycle.report == c0.report,
                c0.next <= cycle.next,
                forall|j: int|
                    c0.next <= j < cycle.next ==> self.backoff.blocks(
                        (#[trigger] c0.batch@[j])@,
                        now,
                    ),
            decreases cycle.batch@.len() - cycle.next,
        {
            let key: ContractKey = cycle.batch[cycle.next];
            if !self.backoff.is_in_backoff(&key, now) {
                return VerificationStep::Read(key);
            }
            cycle.next = cycle.next + 1;
        }
        VerificationStep::Done
    }

    /// Takes what the store said of the contract at hand.
    pub fn on_read(&mut self, cycle: &mut VerificationCycle, read: VerificationRead, now: Instant) -> (action:
        VerificationAction)
        requires
            old(self).wf(),
            old(cycle).wf(),
            old(cycle).next < old(cycle).batch@.len(),
            now.nanos + old(self).backoff.backoff.max.nanos <= u128::MAX,
        ensures
            final(self).wf(),
            final(cycle).wf(),
            final(cycle).batch == old(cycle).batch,
            final(cycle).next == old(cycle).next + 1,
            final(cycle).report == verification_counted(old(cycle).report, action),
            ({
                let key = old(cycle).batch@[old(cycle).next as int];
                let counts = old(self).failure_counts@;
                let report = old(cycle).report;
                &&& action == action_after(counts, key, read)
                &&& final(self).failure_counts@ == counts_after(counts, key@, read)
                &&& final(cycle).report == (match action {
                    VerificationAction::Healthy => VerificationReport {
                        healthy: (report.healthy + 1) as u32,
                        ..report
                    },
                    VerificationAction::Evict(_) => VerificationReport {
                        failed: (report.failed + 1) as u32,
                        evicted: (report.evicted + 1) as u32,
                        ..report
                    },
                    VerificationAction::Recover(_) => VerificationReport {
                        failed: (report.failed + 1) as u32,
                        recovery_started: (report.recovery_started + 1) as u32,
                        ..report
                    },
                })
                &&& intact(read) ==> success_recorded(old(self).backoff, final(self).backoff, key@)
                &&& !intact(read) ==> failure_recorded(
                    old(self).backoff,
                    final(self).backoff,
                    key@,
                    now,
                )
            }),
    {
        let key: ContractKey = cycle.batch[cycle.next];
        cycle.next = cycle.next + 1;
        let healthy = match read {
            VerificationRead::State { size } => size > 0 && size <= MAX_CONTRACT_STATE_SIZE,
            VerificationRead::Missing => false,
            VerificationRead::Failed => false,
        };
        if healthy {
            cycle.report.healthy = cycle.report.healthy + 1;
            self.failure_counts.remove(&key);
            self.backoff.record_success(&key);
            VerificationAction::Healthy
        } else {
            cycle.report.failed = cycle.report.failed + 1;
            let count: u32 = match self.failure_counts.get(&key) {
                Some(n) => *n + 1,
                None => 1,
            };
            self.backoff.record_failure(key, now);
            if count >= MAX_VERIFICATION_FAILURES {
                self.failure_counts.remove(&key);
                cycle.report.evicted = cycle.report.evicted + 1;
                VerificationAction::Evict(key)
            } else {
                self.failure_counts.insert(key, count);
                cycle.report.recovery_started = cycle.report.recovery_started + 1;
                VerificationAction::Recover(*key.id())
            }
        }
    }
}

/// A contract that has not failed before is recovered after its first and its
/// second failure in a row and evicted after the third, which clears its count.
pub proof fn third_failure_evicts(
    counts: Map<Seq<u8>, u32>,
    key: ContractKey,
    first: VerificationRead,
    second: VerificationRead,
    third: VerificationRead,
)
    requires
        !counts.dom().contains(key@),
        !intact(first),
        !intact(second),
        !intact(third),
    ensures
        ({
            let one = counts_after(counts, key@, first);
            let two = counts_after(one, key@, second);
            &&& action_after(counts, key, first) == VerificationAction::Recover(key.instance)
            &&& action_after(one, key, second) == VerificationAction::Recover(key.instance)
            &&& action_after(two, key, third) == VerificationAction::Evict(key)
            &&& counts_after(two, key@, third) == counts
        }),
{
    let one = counts_after(counts, key@, first);
    let two = counts_after(one, key@, second);
    assert(counts_after(two, key@, third) =~= counts);
}

/// A read that finds the state intact clears the contract's count, so that only
/// failures in a row lead to eviction.
pub proof fn success_clears_failures(
    counts: Map<Seq<u8>, u32>,
    key: ContractKey,
    good: VerificationRead,
    bad: VerificationRead,
)
    requires
        intact(good),
        !intact(bad),
    ensures
        action_after(counts_after(counts, key@, good), key, bad) == VerificationAction::Recover(
            key.instance,
        ),
{
}

// ---------------------------------------------------------------------------
// What the tasks promise
// ---------------------------------------------------------------------------

/// A fresh operation may be dispatched at once. After an attempt that is not the last, the
/// next one waits for the delay of as many failures, with the same kind and fallback; the
/// fallback may be dispatched at once, and has none itself.
pub proof fn attempts_wait_for_their_delay(
    op: DurableOp,
    now: Instant,
    later: Instant,
    backoff: ExponentialBackoff,
    max_retries: u32,
)
    requires
        backoff.wf(),
        now.nanos + backoff.max.nanos <= u128::MAX,
    ensures
        ({
            let left = op.dispatched(now, backoff, max_retries);
            &&& op.attempts + 1 < max_retries ==> {
                &&& left is Some
                &&& left->0.attempts == op.attempts + 1
                &&& left->0.kind == op.kind
                &&& left->0.fallback == op.fallback
                &&& left->0.instance_id == op.instance_id
                &&& left->0.ready(later) <==> later.nanos >= now.nanos + backoff.delay_spec(
                    (op.attempts + 1) as nat,
                ).nanos
            }
            &&& op.attempts + 1 >= max_retries && op.fallback is Some ==> {
                &&& left is Some
                &&& left->0.kind == op.fallback->0
                &&& left->0.attempts == 0
                &&& left->0.fallback is None
                &&& left->0.instance_id == op.instance_id
                &&& left->0.ready(now)
            }
            &&& op.attempts + 1 >= max_retries && op.fallback is None ==> left is None
        }),
{
    delay_is_monotonic(backoff, 0, (op.attempts + 1) as nat);
}

/// A registered operation is there with its kind and fallback, may be dispatched at once
/// and has not been attempted; a request touches no other instance.
pub proof fn requests_touch_their_instance(
    ops: Map<Seq<u8>, DurableOp>,
    id: ContractInstanceId,
    kind: DurableOpKind,
    fallback: Option<DurableOpKind>,
    req: DurableOpRequest,
    other: Seq<u8>,
    now: Instant,
)
    requires
        !ops.dom().contains(id@),
        match req {
            DurableOpRequest::Register { instance_id, .. } => instance_id@ != other,
            DurableOpRequest::Cancel { instance_id } => instance_id@ != other,
            DurableOpRequest::Complete { instance_id } => instance_id@ != other,
        },
    ensures
        ({
            let after = DurableOpRegistry::handled(
                ops,
                DurableOpRequest::Register { instance_id: id, kind, fallback },
                now,
            );
            &&& after.dom().contains(id@)
            &&& after[id@].kind == kind
            &&& after[id@].fallback == fallback
            &&& after[id@].attempts == 0
            &&& after[id@].ready(now)
            &&& after[id@].instance_id == id
        }),
        DurableOpRegistry::handled(ops, req, now).dom().contains(other) <==> ops.dom().contains(
            other,
        ),
        ops.dom().contains(other) ==> DurableOpRegistry::handled(ops, req, now)[other]
            == ops[other],
{
}

/// A sweep attempts operations that are ready, at most ten, each as it is registered and
/// with the number of its attempt; what it does not attempt stays as it was, and what is
/// not ready is not attempted. Where fewer than ten are ready all of them are attempted.
pub proof fn sweeps_attempt_what_is_ready(
    before: DurableOpRegistry,
    after: DurableOpRegistry,
    now: Instant,
    out: SweepOutcome,
    id: Seq<u8>,
    i: int,
)
    requires
        swept(before, after, now, out),
    ensures
        out.dispatched@.len() <= 10,
        0 <= i < out.dispatched@.len() ==> {
            let d = out.dispatched@[i];
            let op = before@[d.instance_id@];
            &&& before@.dom().contains(d.instance_id@)
            &&& now.nanos >= op.retry_after.nanos
            &&& d.kind == op.kind
            &&& d.attempt == op.attempts + 1
        },
        before@.dom().contains(id) && now.nanos < before@[id].retry_after.nanos
            ==> !attempts_instance(out.dispatched@, id) && after@.dom().contains(id) && after@[id]
            == before@[id],
        before@.dom().contains(id) && !attempts_instance(out.dispatched@, id)
            ==> after@.dom().contains(id) && after@[id] == before@[id],
        before@.dom().contains(id) && now.nanos >= before@[id].retry_after.nanos
            && out.dispatched@.len() < 10 ==> attempts_instance(out.dispatched@, id),
        after@.dom().contains(id) ==> before@.dom().contains(id),
        before@.dom().contains(id) && !after@.dom().contains(id) ==> attempts_instance(
            out.dispatched@,
            id,
        ) && before@[id].attempts + 1 >= before.max_retries && before@[id].fallback is None,
        out.exhausted == before@.dom().len() - after@.dom().len(),
        out.pending == after@.dom().len(),
{
    if attempts_instance(out.dispatched@, id) {
        let x = choose|x: int|
            0 <= x < out.dispatched@.len() && #[trigger] out.dispatched@[x].instance_id@ == id;
        assert(before@.dom().contains(out.dispatched@[x].instance_id@));
    }
    assert(after@.dom().contains(id) || !after@.dom().contains(id));
}

/// Of the attempts those count as turned to a fallback that were the last of an operation
/// that has one.
pub proof fn fallbacks_are_counted(
    ops: Map<Seq<u8>, DurableOp>,
    max_retries: u32,
    d: Seq<DurableDispatch>,
    e: DurableDispatch,
)
    ensures
        ({
            let op = ops[e.instance_id@];
            count_switched(ops, max_retries, d.push(e)) == count_switched(ops, max_retries, d) + (
            if op.attempts + 1 >= max_retries && op.fallback is Some {
                1nat
            } else {
                0nat
            })
        }),
        count_switched(ops, max_retries, Seq::empty()) == 0,
{
    assert(d.push(e).drop_last() =~= d);
}

/// A contract is put again where neither a failure holds it back nor a PUT of it is in
/// flight; a failure is named before a PUT.
pub proof fn contracts_are_passed_over_for_a_reason(task: SeedingTask, key: ContractKey, now: Instant)
    ensures
        task.skip_spec(key, now) == SeedingSkip::No <==> !task.backoff.blocks(key@, now)
            && !task.pending@.contains(key@),
        task.skip_spec(key, now) == SeedingSkip::Backoff <==> task.backoff.blocks(key@, now),
        task.backoff.blocks(key@, now) ==> task.skip_spec(key, now) != SeedingSkip::Pending,
{
}

/// Every contract of a stretch is counted under one reason.
pub proof fn every_contract_is_counted_once(
    task: SeedingTask,
    batch: Seq<ContractKey>,
    now: Instant,
    from: int,
    to: int,
)
    requires
        from <= to,
    ensures
        task.count_skips(batch, now, from, to, SeedingSkip::Backoff) + task.count_skips(
            batch,
            now,
            from,
            to,
            SeedingSkip::Pending,
        ) + task.count_skips(batch, now, from, to, SeedingSkip::No) == to - from,
    decreases to - from,
{
    if from < to {
        every_contract_is_counted_once(task, batch, now, from, to - 1);
    }
}

/// A report accounts for each contract once, under what became of it.
pub proof fn reports_add_up(r: SeedingReport)
    ensures
        r.total() == r.spawned + r.skipped_backoff + r.skipped_pending + r.skipped_unavailable
            + r.handler_errors,
{
}

/// A state counts as intact where it is there and has at least one byte and at most
/// fifty mebibytes; a missing state and a failed read do not.
pub proof fn states_are_intact_within_bounds(size: usize)
    ensures
        intact(VerificationRead::State { size }) <==> 1 <= size <= 50 * 1024 * 1024,
        !intact(VerificationRead::Missing),
        !intact(VerificationRead::Failed),
{
}

/// What is read of one contract does not touch the count of another, and a failure adds
/// one to the contract's own.
pub proof fn failures_count_for_their_contract(
    counts: Map<Seq<u8>, u32>,
    key: ContractKey,
    other: Seq<u8>,
    read: VerificationRead,
)
    requires
        other != key@,
    ensures
        ({
            let after = counts_after(counts, key@, read);
            &&& after.dom().contains(other) <==> counts.dom().contains(other)
            &&& counts.dom().contains(other) ==> after[other] == counts[other]
            &&& intact(read) ==> action_after(counts, key, read) is Healthy
                && !after.dom().contains(key@)
            &&& !intact(read) && !counts.dom().contains(key@) ==> action_after(
                counts,
                key,
                read,
            ) == VerificationAction::Recover(key.instance) && after.dom().contains(key@)
                && after[key@] == 1
            &&& !intact(read) && counts.dom().contains(key@) && counts[key@] == 1 ==> action_after(
                counts,
                key,
                read,
            ) == VerificationAction::Recover(key.instance) && after.dom().contains(key@)
                && after[key@] == 2
            &&& !intact(read) && counts.dom().contains(key@) && counts[key@] >= 2 ==> action_after(
                counts,
                key,
                read,
            ) == VerificationAction::Evict(key) && !after.dom().contains(key@)
        }),
{
}

/// A cycle is put off: there is no connection, or less than a quarter of the channel is
/// free.
pub open spec fn put_off(open_connections: usize, capacity: usize, max_capacity: usize) -> bool {
    open_connections == 0 || capacity < max_capacity / 4
}

/// A batch is the beginning of a list: all of it where it fits, and so much otherwise.
pub open spec fn is_batch(
    keys: Seq<ContractKey>,
    batch_size: usize,
    batch: Seq<ContractKey>,
) -> bool {
    &&& batch.is_prefix_of(keys)
    &&& batch.len() == if keys.len() <= batch_size {
        keys.len()
    } else {
        batch_size as nat
    }
}

/// A seeding report with the contract at hand.
pub open spec fn seeding_counted(r: SeedingReport, response: SeedingResponse) -> SeedingReport {
    match response {
        SeedingResponse::Available => SeedingReport { spawned: (r.spawned + 1) as u32, ..r },
        SeedingResponse::Unavailable => SeedingReport {
            skipped_unavailable: (r.skipped_unavailable + 1) as u32,
            ..r
        },
        SeedingResponse::HandlerError => SeedingReport {
            handler_errors: (r.handler_errors + 1) as u32,
            ..r
        },
    }
}

/// What is done with a contract, given what the store says of it.
pub open spec fn seeding_action(response: SeedingResponse) -> SeedingAction {
    match response {
        SeedingResponse::Available => SeedingAction::Put { htl: REPLICATION_HTL },
        _ => SeedingAction::Skip,
    }
}

/// A verification report with the contract at hand.
pub open spec fn verification_counted(
    r: VerificationReport,
    action: VerificationAction,
) -> VerificationReport {
    match action {
        VerificationAction::Healthy => VerificationReport { healthy: (r.healthy + 1) as u32, ..r },
        VerificationAction::Evict(_) => VerificationReport {
            failed: (r.failed + 1) as u32,
            evicted: (r.evicted + 1) as u32,
            ..r
        },
        VerificationAction::Recover(_) => VerificationReport {
            failed: (r.failed + 1) as u32,
            recovery_started: (r.recovery_started + 1) as u32,
            ..r
        },
    }
}

/// A connection lets a task start at once. Without one it waits, five minutes and no
/// longer, and having waited enough it does not wait again.
pub proof fn tasks_wait_five_minutes(open_connections: usize, waited: Duration, longer: Duration)
    requires
        waited.nanos <= longer.nanos,
    ensures
        open_connections > 0 <==> ring_wait(open_connections, waited) == ConnectionWait::Connected,
        waited.nanos < 5 * 60 * 1_000_000_000 ==> ring_wait(0, waited) == ConnectionWait::Wait,
        ring_wait(0, waited) == ConnectionWait::TimedOut ==> ring_wait(0, longer)
            == ConnectionWait::TimedOut,
        waited.nanos == 5 * 60 * 1_000_000_000 ==> ring_wait(0, waited)
            == ConnectionWait::TimedOut,
{
}

/// Without a connection every cycle is put off. With one, more room never puts a cycle
/// off, a free channel does not and a full one does where it holds four or more; so
/// does any in which more than three quarters are taken.
pub proof fn busy_channels_put_cycles_off(
    open_connections: usize,
    capacity: usize,
    more: usize,
    max_capacity: usize,
)
    requires
        open_connections > 0,
        capacity <= more <= max_capacity,
    ensures
        put_off(0, capacity, max_capacity),
        put_off(open_connections, more, max_capacity) ==> put_off(
            open_connections,
            capacity,
            max_capacity,
        ),
        !put_off(open_connections, max_capacity, max_capacity),
        max_capacity >= 4 ==> put_off(open_connections, 0, max_capacity),
        4 * capacity >= max_capacity ==> !put_off(open_connections, capacity, max_capacity),
        4 * capacity + 4 <= max_capacity ==> put_off(open_connections, capacity, max_capacity),
{
}

/// A batch never holds more than it may, nor leaves out a contract while there is room;
/// its contracts are the first ones, in their order.
pub proof fn batches_begin_lists(
    keys: Seq<ContractKey>,
    batch_size: usize,
    batch: Seq<ContractKey>,
    i: int,
)
    requires
        is_batch(keys, batch_size, batch),
        0 <= i < keys.len(),
    ensures
        batch.len() <= batch_size,
        i < batch_size <==> i < batch.len(),
        i < batch.len() ==> batch[i] == keys[i],
{
}

/// A contract that is there is put and counts as put, and no other is; every contract
/// counts once.
pub proof fn contracts_that_are_there_are_put(r: SeedingReport, response: SeedingResponse)
    requires
        r.spawned < u32::MAX,
        r.skipped_unavailable < u32::MAX,
        r.handler_errors < u32::MAX,
    ensures
        seeding_counted(r, response).total() == r.total() + 1,
        seeding_action(response) is Put <==> response is Available,
        seeding_action(response) is Put ==> seeding_action(response)->htl == 3,
        seeding_counted(r, response).spawned == r.spawned + 1 <==> response is Available,
        seeding_counted(r, response).skipped_unavailable == r.skipped_unavailable + 1
            <==> response is Unavailable,
        seeding_counted(r, response).handler_errors == r.handler_errors + 1
            <==> response is HandlerError,
        seeding_counted(r, response).skipped_backoff == r.skipped_backoff,
        seeding_counted(r, response).skipped_pending == r.skipped_pending,
{
}

/// A contract counts as healthy or as failed, and as evicted or recovered only where it
/// failed: those two make up the failures.
pub proof fn failures_are_evicted_or_recovered(r: VerificationReport, action: VerificationAction)
    requires
        r.healthy < u32::MAX,
        r.failed < u32::MAX,
        r.evicted < u32::MAX,
        r.recovery_started < u32::MAX,
    ensures
        ({
            let after = verification_counted(r, action);
            &&& after.healthy + after.failed == r.healthy + r.failed + 1
            &&& after.healthy == r.healthy + 1 <==> action is Healthy
            &&& after.evicted == r.evicted + 1 <==> action is Evict
            &&& after.recovery_started == r.recovery_started + 1 <==> action is Recover
            &&& r.failed == r.evicted + r.recovery_started ==> after.failed == after.evicted
                + after.recovery_started
        }),
{
}

/// As it comes, contracts are seeded every five minutes and verified half as often,
/// twenty at a time; a contract goes after three failures in a row, a durable operation
/// after ten attempts, and 512 contracts at most are held back.
pub proof fn maintenance_as_it_comes(keys: Seq<ContractKey>, batch: Seq<ContractKey>)
    requires
        is_batch(keys, MaintenanceConfig::standard().seeding_batch_size, batch),
    ensures
        batch.len() <= 20,
        keys.len() <= 20 ==> batch == keys,
        MaintenanceConfig::standard().enabled,
        MaintenanceConfig::standard().seeding_interval_secs == 5 * 60,
        MaintenanceConfig::standard().verification_interval_secs == 2
            * MaintenanceConfig::standard().seeding_interval_secs,
        MaintenanceConfig::standard().verification_batch_size
            == MaintenanceConfig::standard().seeding_batch_size,
        MaintenanceConfig::standard().max_durable_retries == 10,
        MAX_VERIFICATION_FAILURES == 3,
        MAX_BACKOFF_ENTRIES == 512,
{
}

} // verus!
