//! Batches of network operations: when a queue is flushed, in which order its
//! operations go, and how large its batches become.
//!
//! Operations carry a ticket; what a flush hands back under a ticket completes
//! the operation. Timers and channels are the caller's.
use crate::clock::Stopwatch;
use crate::counters::{add_wrapping, counted, counting_is_additive, wrapped_sum};
use crate::ratio::Ratio;
use crate::time::{Duration, Instant};
use vstd::prelude::*;

verus! {

/// How urgent an operation is; earlier ones are more urgent.
#[derive(Clone, Copy, Debug, PartialEq, Eq, PartialOrd, Ord, Structural)]
pub enum Priority {
    Critical,
    High,
    Normal,
    Low,
}

impl Priority {
    /// The place of a priority, from zero for the most urgent.
    pub open spec fn level_spec(self) -> nat {
        match self {
            Priority::Critical => 0,
            Priority::High => 1,
            Priority::Normal => 2,
            Priority::Low => 3,
        }
    }

    /// The place of a priority, from zero for the most urgent.
    pub fn level(self) -> (n: u8)
        ensures
            n == self.level_spec(),
    {
        match self {
            Priority::Critical => 0,
            Priority::High => 1,
            Priority::Normal => 2,
            Priority::Low => 3,
        }
    }
}

/// How operations are batched.
#[derive(Clone, Copy, Debug, PartialEq, Eq, Structural)]
pub struct BatchConfig {
    /// Operations per batch at most.
    pub max_batch_size: usize,
    /// How long an operation waits at most.
    pub batch_timeout: Duration,
    pub priority_levels: u8,
    /// Whether batches grow and shrink with the throughput.
    pub adaptive_sizing: bool,
    /// Operations per batch at least.
    pub min_batch_size: usize,
    pub coalescing_window: Duration,
}

impl BatchConfig {
    /// A tenth more than a batch fits the machine's integers.
    pub open spec fn wf(self) -> bool {
        &&& self.max_batch_size * 110 <= usize::MAX
        &&& self.min_batch_size * 110 <= usize::MAX
    }

    /// The batch size that a queue starts with: the largest one, or halfway
    /// between smallest and largest where batches adapt and the smallest is not the
    /// larger one.
    pub open spec fn initial_size(self) -> int {
        if self.adaptive_sizing && self.min_batch_size <= self.max_batch_size {
            (self.min_batch_size + self.max_batch_size) / 2
        } else {
            self.max_batch_size as int
        }
    }
}

// ---------------------------------------------------------------------------
// The queue
// ---------------------------------------------------------------------------

/// Things that have a priority.
pub trait HasPriority {
    spec fn priority_spec(&self) -> Priority;

    fn priority(&self) -> (p: Priority)
        ensures
            p == self.priority_spec(),
    ;
}

/// An item in a queue.
#[derive(Debug)]
pub struct PriorityItem<T> {
    pub priority: Priority,
    pub queued_at: Instant,
    pub item: T,
}

/// An item goes before another: it is more urgent, or as urgent and queued earlier.
pub open spec fn goes_before<T>(a: PriorityItem<T>, b: PriorityItem<T>) -> bool {
    a.priority.level_spec() < b.priority.level_spec() || (a.priority.level_spec()
        == b.priority.level_spec() && a.queued_at.nanos < b.queued_at.nanos)
}

/// The item that goes first: none goes before it, and among equals it came first.
pub open spec fn is_first<T>(s: Seq<PriorityItem<T>>, i: int) -> bool {
    &&& 0 <= i < s.len()
    &&& forall|j: int| 0 <= j < s.len() ==> !goes_before(#[trigger] s[j], s[i])
    &&& forall|j: int| 0 <= j < i ==> goes_before(s[i], #[trigger] s[j])
}

/// There is at most one item that goes first.
pub proof fn first_is_unique<T>(s: Seq<PriorityItem<T>>, i: int, j: int)
    requires
        is_first(s, i),
        is_first(s, j),
    ensures
        i == j,
{
    if i < j {
        assert(goes_before(s[j], s[i]));
    } else if j < i {
        assert(goes_before(s[i], s[j]));
    }
}

/// The items in the order in which they go.
pub open spec fn in_order<T>(s: Seq<PriorityItem<T>>) -> Seq<PriorityItem<T>>
    decreases s.len(),
{
    if s.len() == 0 {
        Seq::empty()
    } else {
        let i = choose|i: int| is_first(s, i);
        if 0 <= i < s.len() {
            seq![s[i]] + in_order(s.remove(i))
        } else {
            Seq::empty()
        }
    }
}

proof fn lemma_first_exists<T>(s: Seq<PriorityItem<T>>) -> (i: int)
    requires
        s.len() > 0,
    ensures
        is_first(s, i),
    decreases s.len(),
{
    if s.len() == 1 {
        assert(is_first(s, 0));
        0
    } else {
        let p = s.drop_last();
        let k = lemma_first_exists(p);
        let last = s.len() - 1;
        if goes_before(s[last], s[k]) {
            assert forall|j: int| 0 <= j < s.len() implies !goes_before(
                #[trigger] s[j],
                s[last],
            ) by {
                if j < last {
                    assert(p[j] == s[j]);
                }
            }
            assert forall|j: int| 0 <= j < last implies goes_before(s[last], #[trigger] s[j]) by {
                assert(p[j] == s[j]);
            }
            assert(is_first(s, last));
            last
        } else {
            assert forall|j: int| 0 <= j < s.len() implies !goes_before(#[trigger] s[j], s[k]) by {
                if j < last {
                    assert(p[j] == s[j]);
                }
            }
            assert forall|j: int| 0 <= j < k implies goes_before(s[k], #[trigger] s[j]) by {
                assert(p[j] == s[j]);
            }
            assert(is_first(s, k));
            k
        }
    }
}

/// A queue out of which the most urgent items come first.
#[derive(Debug)]
pub struct PriorityQueue<T> {
    pub items: Vec<PriorityItem<T>>,
}

impl<T: HasPriority> PriorityQueue<T> {
    /// An empty queue.
    pub fn new() -> (q: Self)
        ensures
            q.items@.len() == 0,
    {
        PriorityQueue { items: Vec::new() }
    }

    /// Adds an item.
    pub fn push(&mut self, item: T, now: Instant)
        ensures
            final(self).items@ == old(self).items@.push(
                PriorityItem { priority: item.priority_spec(), queued_at: now, item },
            ),
    {
        let priority = item.priority();
        self.items.push(PriorityItem { priority, queued_at: now, item });
    }

    /// Takes the item that goes first.
    pub fn pop(&mut self) -> (r: Option<T>)
        ensures
            old(self).items@.len() == 0 ==> r is None && final(self).items@ == old(self).items@,
            old(self).items@.len() > 0 ==> {
                let order = in_order(old(self).items@);
                &&& r is Some
                &&& order.len() > 0
                &&& r->0 == order[0].item
                &&& in_order(final(self).items@) == order.subrange(1, order.len() as int)
                &&& final(self).items@.len() == old(self).items@.len() - 1
                &&& exists|i: int| #[trigger]
                    is_first(old(self).items@, i) && final(self).items@ == old(self).items@.remove(i)
            },
    {
        if self.items.len() == 0 {
            return None;
        }
        let mut best: usize = 0;
        let mut i: usize = 1;
        while i < self.items.len()
            invariant
                best < i <= self.items@.len(),
                forall|j: int|
                    0 <= j < i ==> !goes_before(
                        #[trigger] self.items@[j],
                        self.items@[best as int],
                    ),
                forall|j: int|
                    0 <= j < best ==> goes_before(
                        self.items@[best as int],
                        #[trigger] self.items@[j],
                    ),
            decreases self.items@.len() - i,
        {
            let a: u8 = self.items[best].priority.level();
            let b: u8 = self.items[i].priority.level();
            let overtakes = b < a || (a == b && self.items[i].queued_at.nanos
                < self.items[best].queued_at.nanos);
            if overtakes {
                best = i;
            }
            i += 1;
        }
        let ghost s = self.items@;
        let first = self.items.remove(best);
        proof {
            assert(is_first(s, best as int));
            let k = choose|k: int| is_first(s, k);
            first_is_unique(s, k, best as int);
            assert(self.items@ =~= s.remove(best as int));
            let order = in_order(s);
            assert(order == seq![s[best as int]] + in_order(s.remove(best as int)));
            assert(order.subrange(1, order.len() as int) =~= in_order(self.items@));
        }
        Some(first.item)
    }

    /// Whether there is nothing in the queue.
    pub fn is_empty(&self) -> (b: bool)
        ensures
            b == (self.items@.len() == 0),
    {
        self.items.len() == 0
    }

    /// The number of items.
    pub fn len(&self) -> (n: usize)
        ensures
            n == self.items@.len(),
    {
        self.items.len()
    }
}

/// Nothing is lost on the way out of a queue, and what comes out later is not more
/// urgent, nor queued earlier where it is as urgent.
pub proof fn order_is_by_urgency<T>(s: Seq<PriorityItem<T>>)
    ensures
        in_order(s).len() == s.len(),
        in_order(s).to_multiset() == s.to_multiset(),
        forall|a: int, b: int|
            0 <= a < b < in_order(s).len() ==> !goes_before(
                #[trigger] in_order(s)[b],
                #[trigger] in_order(s)[a],
            ),
    decreases s.len(),
{
    broadcast use vstd::seq_lib::group_to_multiset_ensures;

    if s.len() == 0 {
        assert(in_order(s) =~= s);
    } else {
        let e = lemma_first_exists(s);
        let i = choose|i: int| is_first(s, i);
        let rest = s.remove(i);
        order_is_by_urgency(rest);
        let tail = in_order(rest);
        let order = in_order(s);
        assert(order == seq![s[i]] + tail);
        assert(s.to_multiset() =~= rest.to_multiset().insert(s[i]));
        assert(order.to_multiset() =~= tail.to_multiset().insert(s[i])) by {
            vstd::seq_lib::lemma_multiset_commutative(seq![s[i]], tail);
            assert(seq![s[i]] =~= Seq::empty().push(s[i]));
        }
        assert forall|a: int, b: int| 0 <= a < b < order.len() implies !goes_before(
            #[trigger] order[b],
            #[trigger] order[a],
        ) by {
            if a > 0 {
                assert(order[a] == tail[a - 1] && order[b] == tail[b - 1]);
            } else {
                let x = tail[b - 1];
                assert(order[b] == x);
                assert(tail.to_multiset().contains(x));
                assert(rest.to_multiset().contains(x));
                assert(rest.contains(x));
                let k = choose|k: int| 0 <= k < rest.len() && rest[k] == x;
                let m = if k < i { k } else { k + 1 };
                assert(s[m] == x);
                assert(!goes_before(s[m], s[i]));
            }
        }
    }
}

// ---------------------------------------------------------------------------
// Statistics
// ---------------------------------------------------------------------------

/// What was done, and how long it took.
#[derive(Clone, Copy, Debug, PartialEq, Eq, Structural)]
pub struct BatchStats {
    pub operations_queued: u64,
    pub operations_executed: u64,
    pub batches_flushed: u64,
    pub bytes_sent: u64,
    pub bytes_received: u64,
    pub batch_execution_time_ns: u64,
    pub total_latency_ns: u64,
    pub receive_buffers_queued: u64,
    pub receive_buffers_processed: u64,
    pub receive_batches_flushed: u64,
    pub receive_execution_time_ns: u64,
}

impl BatchStats {
    /// Nothing was done.
    pub open spec fn none() -> BatchStats {
        BatchStats {
            operations_queued: 0,
            operations_executed: 0,
            batches_flushed: 0,
            bytes_sent: 0,
            bytes_received: 0,
            batch_execution_time_ns: 0,
            total_latency_ns: 0,
            receive_buffers_queued: 0,
            receive_buffers_processed: 0,
            receive_batches_flushed: 0,
            receive_execution_time_ns: 0,
        }
    }

    /// One batch more of so many operations, that took so long.
    pub open spec fn with_batch(self, operations: u64, nanos: u64) -> BatchStats {
        BatchStats {
            batches_flushed: wrapped_sum(self.batches_flushed, 1),
            operations_executed: wrapped_sum(self.operations_executed, operations),
            batch_execution_time_ns: wrapped_sum(self.batch_execution_time_ns, nanos),
            ..self
        }
    }

    /// So many bytes more sent, after so much waiting.
    pub open spec fn with_sent(self, bytes: u64, latency: u64) -> BatchStats {
        BatchStats {
            bytes_sent: wrapped_sum(self.bytes_sent, bytes),
            total_latency_ns: wrapped_sum(self.total_latency_ns, latency),
            ..self
        }
    }

    /// One batch more of so many buffers with so many bytes, that took so long.
    pub open spec fn with_receive(self, buffers: u64, bytes: u64, nanos: u64) -> BatchStats {
        BatchStats {
            receive_batches_flushed: wrapped_sum(self.receive_batches_flushed, 1),
            receive_buffers_processed: wrapped_sum(self.receive_buffers_processed, buffers),
            bytes_received: wrapped_sum(self.bytes_received, bytes),
            receive_execution_time_ns: wrapped_sum(self.receive_execution_time_ns, nanos),
            ..self
        }
    }

    /// Operations executed per operation queued.
    pub open spec fn batching_efficiency_spec(self) -> Ratio {
        Ratio::of_spec(self.operations_executed as int, self.operations_queued as int)
    }

    /// Operations executed per operation queued.
    pub fn batching_efficiency(&self) -> (r: Ratio)
        ensures
            r == self.batching_efficiency_spec(),
            r == Ratio::of_spec(self.operations_executed as int, self.operations_queued as int),
    {
        Ratio::of(self.operations_executed as u128, self.operations_queued as u128)
    }

    /// Operations per batch.
    pub open spec fn avg_batch_size_spec(self) -> Ratio {
        Ratio::of_spec(self.operations_executed as int, self.batches_flushed as int)
    }

    /// Operations per batch.
    pub fn avg_batch_size(&self) -> (r: Ratio)
        ensures
            r == self.avg_batch_size_spec(),
            r == Ratio::of_spec(self.operations_executed as int, self.batches_flushed as int),
    {
        Ratio::of(self.operations_executed as u128, self.batches_flushed as u128)
    }

    /// Nanoseconds waited per operation.
    pub open spec fn avg_operation_latency_ns_spec(self) -> Ratio {
        Ratio::of_spec(self.total_latency_ns as int, self.operations_executed as int)
    }

    /// Nanoseconds waited per operation.
    pub fn avg_operation_latency_ns(&self) -> (r: Ratio)
        ensures
            r == self.avg_operation_latency_ns_spec(),
            r == Ratio::of_spec(self.total_latency_ns as int, self.operations_executed as int),
    {
        Ratio::of(self.total_latency_ns as u128, self.operations_executed as u128)
    }

    /// Bytes sent and received per second over a span.
    pub open spec fn throughput_bps_spec(self, duration: Duration) -> Ratio {
        Ratio::of_spec((self.bytes_sent + self.bytes_received) * 1_000_000_000, duration.nanos as int)
    }

    /// Bytes sent and received per second over a span.
    pub fn throughput_bps(&self, duration: Duration) -> (r: Ratio)
        ensures
            r == self.throughput_bps_spec(duration),
            r == Ratio::of_spec(
                (self.bytes_sent + self.bytes_received) * 1_000_000_000,
                duration.nanos as int,
            ),
    {
        let bytes: u128 = self.bytes_sent as u128 + self.bytes_received as u128;
        Ratio::of(bytes * 1_000_000_000, duration.nanos)
    }
}

impl Default for BatchStats {
    fn default() -> (s: Self)
        ensures
            s == BatchStats::none(),
    {
        BatchStats {
            operations_queued: 0,
            operations_executed: 0,
            batches_flushed: 0,
            bytes_sent: 0,
            bytes_received: 0,
            batch_execution_time_ns: 0,
            total_latency_ns: 0,
            receive_buffers_queued: 0,
            receive_buffers_processed: 0,
            receive_batches_flushed: 0,
            receive_execution_time_ns: 0,
        }
    }
}

// ---------------------------------------------------------------------------
// Sending
// ---------------------------------------------------------------------------

/// Something to send.
#[derive(Debug)]
pub struct SendOperation {
    pub data: Vec<u8>,
    /// The address in text form.
    pub addr: String,
    pub priority: Priority,
    /// Under which the operation is completed.
    pub ticket: u64,
    pub queued_at: Instant,
}

impl HasPriority for SendOperation {
    open spec fn priority_spec(&self) -> Priority {
        self.priority
    }

    fn priority(&self) -> (p: Priority) {
        self.priority
    }
}

/// The completion of something sent.
#[derive(Clone, Copy, Debug, PartialEq, Eq, Structural)]
pub struct SendCompletion {
    pub ticket: u64,
    pub bytes: usize,
}

/// The operations of some items.
pub open spec fn operations_of(s: Seq<PriorityItem<SendOperation>>) -> Seq<SendOperation> {
    s.map_values(|p: PriorityItem<SendOperation>| p.item)
}

/// The completions of some operations, in their order.
pub open spec fn completions_of(ops: Seq<SendOperation>) -> Seq<SendCompletion> {
    ops.map_values(
        |op: SendOperation| SendCompletion { ticket: op.ticket, bytes: op.data@.len() as usize },
    )
}

/// How long an operation waited, the low 64 bits of its nanoseconds.
pub open spec fn waited(op: SendOperation, now: Instant) -> u64 {
    (now.since_spec(op.queued_at).nanos as int % 0x1_0000_0000_0000_0000) as u64
}

/// What sending some operations counts.
pub open spec fn sent_stats(stats: BatchStats, ops: Seq<SendOperation>, now: Instant) -> BatchStats
    decreases ops.len(),
{
    if ops.len() == 0 {
        stats
    } else {
        sent_stats(stats, ops.drop_last(), now).with_sent(
            ops.last().data@.len() as u64,
            waited(ops.last(), now),
        )
    }
}

/// The batch size after a batch of so many operations that took so long: larger
/// with more than one operation per microsecond, smaller with less than half of
/// one, within bounds.
pub open spec fn adapted(config: BatchConfig, current: int, batch_size: int, micros: int) -> int {
    if batch_size > micros && current < config.max_batch_size {
        let more = current * 110 / 100;
        if more <= config.max_batch_size {
            more
        } else {
            config.max_batch_size as int
        }
    } else if 2 * batch_size < micros && current > config.min_batch_size {
        let less = current * 90 / 100;
        if less >= config.min_batch_size {
            less
        } else {
            config.min_batch_size as int
        }
    } else {
        current
    }
}

/// Operations waiting to be sent together.
#[derive(Debug)]
pub struct SenderQueue {
    pub pending_operations: PriorityQueue<SendOperation>,
    pub config: BatchConfig,
    pub priority: Priority,
    pub last_flush: Instant,
    pub adaptive_batch_size: usize,
}

impl SenderQueue {
    pub open spec fn wf(&self) -> bool {
        self.config.wf() && self.adaptive_batch_size * 110 <= usize::MAX
    }

    /// Nothing is waiting.
    pub fn new(config: BatchConfig, priority: Priority, now: Instant) -> (q: Self)
        requires
            config.wf(),
        ensures
            q.wf(),
            q.pending_operations.items@.len() == 0,
            q.config == config,
            q.priority == priority,
            q.last_flush == now,
            q.adaptive_batch_size == config.initial_size(),
    {
        let adaptive_batch_size: usize = if config.adaptive_sizing && config.min_batch_size
            <= config.max_batch_size {
            (config.min_batch_size + config.max_batch_size) / 2
        } else {
            config.max_batch_size
        };
        SenderQueue {
            pending_operations: PriorityQueue::new(),
            config,
            priority,
            last_flush: now,
            adaptive_batch_size,
        }
    }

    /// Queues something to send.
    pub fn queue_send(
        &mut self,
        stats: &mut BatchStats,
        data: Vec<u8>,
        addr: String,
        priority: Priority,
        ticket: u64,
        now: Instant,
    )
        requires
            old(self).wf(),
        ensures
            final(self).wf(),
            final(self).config == old(self).config,
            final(self).priority == old(self).priority,
            final(self).last_flush == old(self).last_flush,
            final(self).adaptive_batch_size == old(self).adaptive_batch_size,
            final(self).pending_operations.items@ == old(self).pending_operations.items@.push(
                PriorityItem {
                    priority,
                    queued_at: now,
                    item: SendOperation { data, addr, priority, ticket, queued_at: now },
                },
            ),
            *final(stats) == (BatchStats {
                operations_queued: wrapped_sum(old(stats).operations_queued, 1),
                ..*old(stats)
            }),
    {
        self.pending_operations.push(
            SendOperation { data, addr, priority, ticket, queued_at: now },
            now,
        );
        stats.operations_queued = add_wrapping(stats.operations_queued, 1);
    }

    /// The queue is due: a batch is full, something has waited too long, or
    /// something critical waits.
    pub open spec fn due(&self, now: Instant) -> bool {
        let waiting = self.pending_operations.items@.len();
        ||| waiting >= self.adaptive_batch_size
        ||| waiting > 0 && now.since_spec(self.last_flush).nanos >= self.config.batch_timeout.nanos
        ||| waiting > 0 && self.priority == Priority::Critical
    }

    /// Whether the queue is due.
    pub fn should_flush(&self, now: Instant) -> (b: bool)
        ensures
            b == self.due(now),
    {
        let waiting: usize = self.pending_operations.len();
        if waiting >= self.adaptive_batch_size {
            return true;
        }
        if waiting > 0 && now.since(self.last_flush).nanos >= self.config.batch_timeout.nanos {
            return true;
        }
        if self.priority == Priority::Critical && waiting > 0 {
            return true;
        }
        false
    }

    /// Takes everything that waits, in the order in which it goes.
    pub fn take_batch(&mut self) -> (ops: Vec<SendOperation>)
        requires
            old(self).wf(),
        ensures
            final(self).wf(),
            final(self).config == old(self).config,
            final(self).priority == old(self).priority,
            final(self).last_flush == old(self).last_flush,
            final(self).adaptive_batch_size == old(self).adaptive_batch_size,
            final(self).pending_operations.items@.len() == 0,
            ops@ == operations_of(in_order(old(self).pending_operations.items@)),
    {
        let mut ops: Vec<SendOperation> = Vec::new();
        let ghost order = in_order(self.pending_operations.items@);
        let ghost mut taken: int = 0;
        assert(order.subrange(0, order.len() as int) =~= order);
        while self.pending_operations.len() > 0
            invariant
                self.wf(),
                self.config == old(self).config,
                self.priority == old(self).priority,
                self.last_flush == old(self).last_flush,
                self.adaptive_batch_size == old(self).adaptive_batch_size,
                0 <= taken <= order.len(),
                in_order(self.pending_operations.items@) == order.subrange(
                    taken,
                    order.len() as int,
                ),
                ops@ == operations_of(order.subrange(0, taken)),
            decreases self.pending_operations.items@.len(),
        {
            let ghost before = in_order(self.pending_operations.items@);
            if let Some(op) = self.pending_operations.pop() {
                proof {
                    assert(before[0] == order[taken]);
                    assert(before.subrange(1, before.len() as int) =~= order.subrange(
                        taken + 1,
                        order.len() as int,
                    ));
                    assert(order.subrange(0, taken + 1) =~= order.subrange(0, taken).push(
                        order[taken],
                    ));
                    taken = taken + 1;
                }
                ops.push(op);
                assert(ops@ =~= operations_of(order.subrange(0, taken)));
            }
        }
        proof {
            assert(in_order(self.pending_operations.items@).len() == 0);
            assert(taken == order.len());
            assert(order.subrange(0, taken) =~= order);
        }
        ops
    }

    /// Completes operations, each with the number of its bytes.
    pub fn execute_batch_send(ops: &Vec<SendOperation>, stats: &mut BatchStats, now: Instant) -> (done:
        Vec<SendCompletion>)
        ensures
            done@ == completions_of(ops@),
            *final(stats) == sent_stats(*old(stats), ops@, now),
    {
        let mut done: Vec<SendCompletion> = Vec::new();
        let mut i: usize = 0;
        assert(ops@.subrange(0, 0) =~= Seq::<SendOperation>::empty());
        while i < ops.len()
            invariant
                i <= ops@.len(),
                done@ == completions_of(ops@.subrange(0, i as int)),
                *stats == sent_stats(*old(stats), ops@.subrange(0, i as int), now),
            decreases ops@.len() - i,
        {
            let op = &ops[i];
            let bytes: usize = op.data.len();
            done.push(SendCompletion { ticket: op.ticket, bytes });
            let latency: u64 = (now.since(op.queued_at).nanos % 0x1_0000_0000_0000_0000) as u64;
            stats.total_latency_ns = add_wrapping(stats.total_latency_ns, latency);
            stats.bytes_sent = add_wrapping(stats.bytes_sent, bytes as u64);
            i += 1;
            proof {
                let p = ops@.subrange(0, i as int);
                assert(p.drop_last() =~= ops@.subrange(0, i - 1));
                assert(p.last() == ops@[i - 1]);
                assert(done@ =~= completions_of(p));
            }
        }
        assert(ops@.subrange(0, i as int) =~= ops@);
        done
    }

    /// Notes that a batch was executed, and adapts the batch size.
    pub fn finish_flush(
        &mut self,
        stats: &mut BatchStats,
        batch_size: usize,
        elapsed_ns: u64,
        now: Instant,
    )
        requires
            old(self).wf(),
        ensures
            final(self).wf(),
            final(self).config == old(self).config,
            final(self).priority == old(self).priority,
            final(self).pending_operations == old(self).pending_operations,
            final(self).last_flush == now,
            final(self).adaptive_batch_size == (if old(self).config.adaptive_sizing {
                adapted(
                    old(self).config,
                    old(self).adaptive_batch_size as int,
                    batch_size as int,
                    elapsed_ns as int / 1_000,
                )
            } else {
                old(self).adaptive_batch_size as int
            }),
            *final(stats) == old(stats).with_batch(batch_size as u64, elapsed_ns),
    {
        stats.batches_flushed = add_wrapping(stats.batches_flushed, 1);
        stats.operations_executed = add_wrapping(stats.operations_executed, batch_size as u64);
        stats.batch_execution_time_ns = add_wrapping(stats.batch_execution_time_ns, elapsed_ns);
        if self.config.adaptive_sizing {
            self.update_adaptive_batch_size(batch_size, Duration::from_nanos(elapsed_ns));
        }
        self.last_flush = now;
    }

    /// Sends everything that waits, and adapts the batch size by how long that
    /// took.
    pub fn flush(&mut self, stats: &mut BatchStats, now: Instant) -> (done: Vec<SendCompletion>)
        requires
            old(self).wf(),
        ensures
            final(self).wf(),
            final(self).config == old(self).config,
            final(self).priority == old(self).priority,
            final(self).pending_operations.items@.len() == 0,
            old(self).pending_operations.items@.len() == 0 ==> {
                &&& *final(self) == *old(self)
                &&& *final(stats) == *old(stats)
                &&& done@.len() == 0
            },
            old(self).pending_operations.items@.len() > 0 ==> {
                let ops = operations_of(in_order(old(self).pending_operations.items@));
                &&& done@ == completions_of(ops)
                &&& final(self).last_flush == now
                &&& exists|nanos: u64|
                    {
                        &&& *final(stats) == #[trigger] sent_stats(
                            *old(stats),
                            ops,
                            now,
                        ).with_batch(ops.len() as u64, nanos)
                        &&& final(self).adaptive_batch_size == (if old(self).config.adaptive_sizing {
                            adapted(
                                old(self).config,
                                old(self).adaptive_batch_size as int,
                                ops.len() as int,
                                nanos as int / 1_000,
                            )
                        } else {
                            old(self).adaptive_batch_size as int
                        })
                    }
            },
    {
        if self.pending_operations.is_empty() {
            return Vec::new();
        }
        let ops = self.take_batch();
        let watch = Stopwatch::start();
        let done = Self::execute_batch_send(&ops, stats, now);
        let nanos: u64 = watch.elapsed_nanos();
        self.finish_flush(stats, ops.len(), nanos, now);
        assert(*stats == sent_stats(*old(stats), ops@, now).with_batch(ops@.len() as u64, nanos));
        done
    }

    /// Adapts the batch size after a batch of so many operations that took so
    /// long.
    pub fn update_adaptive_batch_size(&mut self, batch_size: usize, execution_time: Duration)
        requires
            old(self).wf(),
        ensures
            final(self).wf(),
            final(self).config == old(self).config,
            final(self).priority == old(self).priority,
            final(self).last_flush == old(self).last_flush,
            final(self).pending_operations == old(self).pending_operations,
            final(self).adaptive_batch_size == adapted(
                old(self).config,
                old(self).adaptive_batch_size as int,
                batch_size as int,
                execution_time.nanos as int / 1_000,
            ),
    {
        let current: usize = self.adaptive_batch_size;
        let micros: u128 = execution_time.as_micros();
        if batch_size as u128 > micros && current < self.config.max_batch_size {
            let more: usize = current * 110 / 100;
            self.adaptive_batch_size = if more <= self.config.max_batch_size {
                more
            } else {
                self.config.max_batch_size
            };
        } else if 2 * (batch_size as u128) < micros && current > self.config.min_batch_size {
            let less: usize = current * 90 / 100;
            self.adaptive_batch_size = if less >= self.config.min_batch_size {
                less
            } else {
                self.config.min_batch_size
            };
        }
    }
}

/// A batch size within bounds stays within bounds.
pub proof fn adapted_stays_in_bounds(config: BatchConfig, current: int, batch_size: int, micros: int)
    requires
        config.min_batch_size <= current <= config.max_batch_size,
        batch_size >= 0,
        micros >= 0,
    ensures
        config.min_batch_size <= adapted(config, current, batch_size, micros)
            <= config.max_batch_size,
{
}

/// High throughput never shrinks a batch, low throughput never grows one.
pub proof fn adapted_follows_throughput(
    config: BatchConfig,
    current: int,
    batch_size: int,
    micros: int,
)
    requires
        config.min_batch_size <= current <= config.max_batch_size,
        batch_size >= 0,
        micros >= 0,
    ensures
        batch_size > micros ==> adapted(config, current, batch_size, micros) >= current,
        2 * batch_size < micros ==> adapted(config, current, batch_size, micros) <= current,
        micros <= 2 * batch_size <= 2 * micros ==> adapted(config, current, batch_size, micros)
            == current,
{
}

// ---------------------------------------------------------------------------
// Receiving
// ---------------------------------------------------------------------------

/// Room for something to receive.
#[derive(Clone, Copy, Debug, PartialEq, Eq, Structural)]
pub struct ReceiveBuffer {
    pub capacity: usize,
    /// Under which the receipt is completed.
    pub ticket: u64,
}

/// The completion of a receipt.
#[derive(Debug)]
pub struct ReceiveCompletion {
    pub ticket: u64,
    pub data: Vec<u8>,
    /// The sender's address in text form.
    pub addr: String,
}

/// The bytes that some buffers hold.
pub open spec fn total_capacity(buffers: Seq<ReceiveBuffer>) -> nat
    decreases buffers.len(),
{
    if buffers.len() == 0 {
        0
    } else {
        total_capacity(buffers.drop_last()) + buffers.last().capacity as nat
    }
}

proof fn lemma_capacity_prefix(buffers: Seq<ReceiveBuffer>, n: int)
    requires
        0 <= n <= buffers.len(),
    ensures
        total_capacity(buffers.subrange(0, n)) <= total_capacity(buffers),
    decreases buffers.len() - n,
{
    if n < buffers.len() {
        lemma_capacity_prefix(buffers, n + 1);
        assert(buffers.subrange(0, n + 1).drop_last() =~= buffers.subrange(0, n));
    } else {
        assert(buffers.subrange(0, n) =~= buffers);
    }
}

/// A receipt fills its buffer with zeros from a fixed address.
pub open spec fn completes(c: ReceiveCompletion, b: ReceiveBuffer) -> bool {
    &&& c.ticket == b.ticket
    &&& c.data@ == Seq::new(b.capacity as nat, |i: int| 0u8)
    &&& c.addr@ == "127.0.0.1:8080"@
}

/// Room waiting for something to receive.
#[derive(Debug)]
pub struct ReceiverQueue {
    pub pending_buffers: Vec<ReceiveBuffer>,
    pub config: BatchConfig,
    pub last_flush: Instant,
}

impl ReceiverQueue {
    /// Nothing is waiting.
    pub fn new(config: BatchConfig, now: Instant) -> (q: Self)
        ensures
            q.pending_buffers@.len() == 0,
            q.config == config,
            q.last_flush == now,
    {
        ReceiverQueue { pending_buffers: Vec::new(), config, last_flush: now }
    }

    /// Queues room for something to receive.
    pub fn queue_receive(&mut self, stats: &mut BatchStats, buffer: ReceiveBuffer)
        ensures
            final(self).pending_buffers@ == old(self).pending_buffers@.push(buffer),
            final(self).config == old(self).config,
            final(self).last_flush == old(self).last_flush,
            *final(stats) == (BatchStats {
                receive_buffers_queued: wrapped_sum(old(stats).receive_buffers_queued, 1),
                ..*old(stats)
            }),
    {
        self.pending_buffers.push(buffer);
        stats.receive_buffers_queued = add_wrapping(stats.receive_buffers_queued, 1);
    }

    /// The queue is due: a batch is full, or something has waited too long.
    pub open spec fn due(&self, now: Instant) -> bool {
        let waiting = self.pending_buffers@.len();
        ||| waiting >= self.config.max_batch_size
        ||| waiting > 0 && now.since_spec(self.last_flush).nanos >= self.config.batch_timeout.nanos
    }

    /// Whether the queue is due.
    pub fn should_flush(&self, now: Instant) -> (b: bool)
        ensures
            b == self.due(now),
    {
        let waiting: usize = self.pending_buffers.len();
        if waiting >= self.config.max_batch_size {
            return true;
        }
        waiting > 0 && now.since(self.last_flush).nanos >= self.config.batch_timeout.nanos
    }

    /// Completes the receipts of some buffers.
    pub fn execute_batch_receive(buffers: &Vec<ReceiveBuffer>, stats: &mut BatchStats) -> (done: Vec<
        ReceiveCompletion,
    >)
        requires
            total_capacity(buffers@) <= usize::MAX,
        ensures
            done@.len() == buffers@.len(),
            forall|i: int|
                0 <= i < done@.len() ==> completes(#[trigger] done@[i], buffers@[i]),
            *final(stats) == (BatchStats {
                bytes_received: wrapped_sum(
                    old(stats).bytes_received,
                    total_capacity(buffers@) as u64,
                ),
                ..*old(stats)
            }),
    {
        let mut done: Vec<ReceiveCompletion> = Vec::new();
        let mut total: usize = 0;
        let mut i: usize = 0;
        assert(buffers@.subrange(0, 0) =~= Seq::<ReceiveBuffer>::empty());
        while i < buffers.len()
            invariant
                i <= buffers@.len(),
                total_capacity(buffers@) <= usize::MAX,
                total == total_capacity(buffers@.subrange(0, i as int)),
                done@.len() == i,
                forall|j: int| 0 <= j < i ==> completes(#[trigger] done@[j], buffers@[j]),
            decreases buffers@.len() - i,
        {
            let b: ReceiveBuffer = buffers[i];
            proof {
                let p = buffers@.subrange(0, i + 1);
                assert(p.drop_last() =~= buffers@.subrange(0, i as int));
                assert(p.last() == b);
                lemma_capacity_prefix(buffers@, i + 1);
            }
            total = total + b.capacity;
            let mut data: Vec<u8> = Vec::new();
            let mut k: usize = 0;
            while k < b.capacity
                invariant
                    k <= b.capacity,
                    data@ == Seq::new(k as nat, |i: int| 0u8),
                decreases b.capacity - k,
            {
                data.push(0);
                k += 1;
                assert(data@ =~= Seq::new(k as nat, |i: int| 0u8));
            }
            done.push(
                ReceiveCompletion { ticket: b.ticket, data, addr: "127.0.0.1:8080".to_owned() },
            );
            i += 1;
        }
        assert(buffers@.subrange(0, i as int) =~= buffers@);
        stats.bytes_received = add_wrapping(stats.bytes_received, total as u64);
        done
    }

    /// Completes everything that waits.
    pub fn flush(&mut self, stats: &mut BatchStats, now: Instant) -> (done: Vec<ReceiveCompletion>)
        requires
            total_capacity(old(self).pending_buffers@) <= usize::MAX,
        ensures
            final(self).config == old(self).config,
            final(self).pending_buffers@.len() == 0,
            done@.len() == old(self).pending_buffers@.len(),
            forall|i: int|
                0 <= i < done@.len() ==> completes(
                    #[trigger] done@[i],
                    old(self).pending_buffers@[i],
                ),
            old(self).pending_buffers@.len() == 0 ==> *final(self) == *old(self) && *final(stats)
                == *old(stats),
            old(self).pending_buffers@.len() > 0 ==> {
                &&& final(self).last_flush == now
                &&& exists|nanos: u64|
                    *final(stats) == #[trigger] old(stats).with_receive(
                        old(self).pending_buffers@.len() as u64,
                        total_capacity(old(self).pending_buffers@) as u64,
                        nanos,
                    )
            },
    {
        if self.pending_buffers.len() == 0 {
            return Vec::new();
        }
        let mut buffers: Vec<ReceiveBuffer> = Vec::new();
        buffers.append(&mut self.pending_buffers);
        assert(buffers@ =~= old(self).pending_buffers@);
        let watch = Stopwatch::start();
        let done = Self::execute_batch_receive(&buffers, stats);
        let nanos: u64 = watch.elapsed_nanos();
        stats.receive_batches_flushed = add_wrapping(stats.receive_batches_flushed, 1);
        stats.receive_buffers_processed =
        add_wrapping(stats.receive_buffers_processed, buffers.len() as u64);
        stats.receive_execution_time_ns = add_wrapping(stats.receive_execution_time_ns, nanos);
        self.last_flush = now;
        assert(*stats == old(stats).with_receive(
            buffers@.len() as u64,
            total_capacity(buffers@) as u64,
            nanos,
        ));
        done
    }
}

// ---------------------------------------------------------------------------
// The manager
// ---------------------------------------------------------------------------

/// The queues of a node.
#[derive(Debug)]
pub struct BatchManager {
    pub sender_queues: Vec<SenderQueue>,
    pub receiver_queues: Vec<ReceiverQueue>,
    pub config: BatchConfig,
    pub stats: BatchStats,
}

/// What a flush of all queues completes.
#[derive(Debug)]
pub struct FlushOutcome {
    pub sent: Vec<SendCompletion>,
    pub received: Vec<ReceiveCompletion>,
}

/// Half of the time that an operation waits at most: how often queues are looked
/// at.
pub open spec fn flush_interval_nanos(config: BatchConfig) -> u128 {
    (config.batch_timeout.nanos / 2) as u128
}

impl BatchManager {
    pub open spec fn wf(&self) -> bool {
        &&& self.config.wf()
        &&& forall|i: int|
            0 <= i < self.sender_queues@.len() ==> (#[trigger] self.sender_queues@[i]).wf()
        &&& forall|i: int|
            0 <= i < self.receiver_queues@.len() ==> total_capacity(
                (#[trigger] self.receiver_queues@[i]).pending_buffers@,
            ) <= usize::MAX
    }

    /// A manager without queues, for batches of at most so many operations.
    pub fn new(batch_size: usize) -> (m: Self)
        requires
            batch_size * 110 <= usize::MAX,
        ensures
            m.wf(),
            m.sender_queues@.len() == 0,
            m.receiver_queues@.len() == 0,
            m.stats == BatchStats::none(),
            m.config == (BatchConfig {
                max_batch_size: batch_size,
                batch_timeout: Duration { nanos: 10_000_000 },
                priority_levels: 3,
                adaptive_sizing: true,
                min_batch_size: 4,
                coalescing_window: Duration { nanos: 500_000 },
            }),
    {
        let config = BatchConfig {
            max_batch_size: batch_size,
            batch_timeout: Duration::from_millis(10),
            priority_levels: 3,
            adaptive_sizing: true,
            min_batch_size: 4,
            coalescing_window: Duration::from_micros(500),
        };
        BatchManager {
            sender_queues: Vec::new(),
            receiver_queues: Vec::new(),
            config,
            stats: BatchStats::default(),
        }
    }

    /// How often queues are looked at.
    pub fn flush_interval(&self) -> (d: Duration)
        ensures
            d.nanos == flush_interval_nanos(self.config),
    {
        Duration { nanos: self.config.batch_timeout.nanos / 2 }
    }

    /// Adds a queue for sending, and tells its place.
    pub fn create_sender_queue(&mut self, priority: Priority, now: Instant) -> (index: usize)
        requires
            old(self).wf(),
        ensures
            final(self).wf(),
            index == old(self).sender_queues@.len(),
            final(self).sender_queues@.len() == index + 1,
            final(self).sender_queues@.subrange(0, index as int) == old(self).sender_queues@,
            final(self).sender_queues@[index as int].priority == priority,
            final(self).sender_queues@[index as int].config == old(self).config,
            final(self).sender_queues@[index as int].pending_operations.items@.len() == 0,
            final(self).sender_queues@[index as int].last_flush == now,
            final(self).sender_queues@[index as int].adaptive_batch_size == old(self).config.initial_size(),
            final(self).receiver_queues == old(self).receiver_queues,
            final(self).config == old(self).config,
            final(self).stats == old(self).stats,
    {
        let index: usize = self.sender_queues.len();
        self.sender_queues.push(SenderQueue::new(self.config, priority, now));
        assert(self.sender_queues@.subrange(0, index as int) =~= old(self).sender_queues@);
        index
    }

    /// Adds a queue for receiving, and tells its place.
    pub fn create_receiver_queue(&mut self, now: Instant) -> (index: usize)
        requires
            old(self).wf(),
        ensures
            final(self).wf(),
            index == old(self).receiver_queues@.len(),
            final(self).receiver_queues@.len() == index + 1,
            final(self).receiver_queues@.subrange(0, index as int) == old(self).receiver_queues@,
            final(self).receiver_queues@[index as int].config == old(self).config,
            final(self).receiver_queues@[index as int].pending_buffers@.len() == 0,
            final(self).receiver_queues@[index as int].last_flush == now,
            final(self).sender_queues == old(self).sender_queues,
            final(self).config == old(self).config,
            final(self).stats == old(self).stats,
    {
        let index: usize = self.receiver_queues.len();
        self.receiver_queues.push(ReceiverQueue::new(self.config, now));
        assert(self.receiver_queues@.subrange(0, index as int) =~= old(self).receiver_queues@);
        index
    }

    /// Flushes the queues for sending of one priority that are due.
    fn flush_senders(&mut self, level: u8, now: Instant, sent: &mut Vec<SendCompletion>) -> (times:
        Ghost<Seq<u64>>)
        requires
            old(self).wf(),
        ensures
            times@.len() == old(self).sender_queues@.len(),
            final(self).stats == counted_by_level(
                old(self).stats,
                old(self).sender_queues@,
                level as nat,
                now,
                times@,
                old(self).sender_queues@.len(),
            ),
            final(self).wf(),
            final(self).config == old(self).config,
            final(self).receiver_queues == old(self).receiver_queues,
            final(self).sender_queues@.len() == old(self).sender_queues@.len(),
            forall|i: int|
                0 <= i < old(self).sender_queues@.len() ==> flushed_sender(
                    old(self).sender_queues@[i],
                    #[trigger] final(self).sender_queues@[i],
                    old(self).sender_queues@[i].priority.level_spec() == level && old(self).sender_queues@[i].due(now),
                    now,
                    times@[i],
                ),
            final(sent)@ == old(sent)@ + sent_by_level(
                old(self).sender_queues@,
                level as nat,
                now,
                old(self).sender_queues@.len(),
            ),
            executed_more(
                old(self).stats,
                final(self).stats,
                (final(sent)@.len() - old(sent)@.len()) as nat,
            ),
    {
        let mut i: usize = 0;
        let ghost before = self.sender_queues@;
        let ghost start = sent@;
        let ghost stats0 = self.stats;
        let ghost mut times: Seq<u64> = Seq::empty();
        proof {
            counting_is_additive(stats0.operations_executed, 0, 0);
        }
        assert(start =~= start + sent_by_level(before, level as nat, now, 0));
        while i < self.sender_queues.len()
            invariant
                self.wf(),
                self.config == old(self).config,
                self.receiver_queues == old(self).receiver_queues,
                before == old(self).sender_queues@,
                i <= self.sender_queues@.len(),
                self.sender_queues@.len() == before.len(),
                forall|j: int|
                    0 <= j < i ==> flushed_sender(
                        before[j],
                        #[trigger] self.sender_queues@[j],
                        before[j].priority.level_spec() == level && before[j].due(now),
                        now,
                        times[j],
                    ),
                times.len() == i,
                self.stats == counted_by_level(stats0, before, level as nat, now, times, i as nat),
                forall|j: int| i <= j < before.len() ==> #[trigger] self.sender_queues@[j] == before[j],
                sent@ == start + sent_by_level(before, level as nat, now, i as nat),
                start == old(sent)@,
                stats0 == old(self).stats,
                executed_more(stats0, self.stats, (sent@.len() - start.len()) as nat),
            decreases self.sender_queues@.len() - i,
        {
            assert(self.sender_queues@[i as int] == before[i as int]);
            let ghost mut taken: u64 = 0;
            if self.sender_queues[i].priority.level() == level
                && self.sender_queues[i].should_flush(now) {
                let ghost stats1 = self.stats;
                let q = &mut self.sender_queues[i];
                let mut done = q.flush(&mut self.stats, now);
                proof {
                    let ops = operations_of(in_order(before[i as int].pending_operations.items@));
                    assert(done@.len() == done.len());
                    assert(counted(done@.len()) == done@.len());
                    lemma_sent_keeps_executed(stats1, ops, now);
                    counting_is_additive(
                        stats0.operations_executed,
                        (sent@.len() - start.len()) as nat,
                        done@.len(),
                    );
                    let b = before[i as int];
                    assert(done@ =~= completions_of(
                        operations_of(in_order(b.pending_operations.items@)),
                    ));
                    order_is_by_urgency(b.pending_operations.items@);
                    if b.pending_operations.items@.len() > 0 {
                        taken = choose|nanos: u64|
                            {
                                &&& self.stats == #[trigger] sent_stats(
                                    stats1,
                                    ops,
                                    now,
                                ).with_batch(ops.len() as u64, nanos)
                                &&& flushed_sender(b, self.sender_queues@[i as int], true, now, nanos)
                            };
                    }
                }
                let ghost d = done@;
                let ghost s0 = sent@;
                sent.append(&mut done);
                assert(sent@ =~= s0 + d);
            }
            proof {
                let longer = times.push(taken);
                lemma_counted_times(stats0, before, level as nat, now, times, longer, i as nat);
                times = longer;
            }
            i += 1;
            assert(sent@ =~= start + sent_by_level(before, level as nat, now, i as nat));
        }
        Ghost(times)
    }

    /// The queues that were due were flushed, and that was counted, each batch with
    /// the time given for its queue.
    pub open spec fn flushed(
        before: Self,
        after: Self,
        now: Instant,
        sending: Seq<u64>,
        receiving: Seq<u64>,
    ) -> bool {
        let senders = before.sender_queues@;
        let receivers = before.receiver_queues@;
        &&& sending.len() == senders.len()
        &&& receiving.len() == receivers.len()
        &&& forall|i: int|
            0 <= i < senders.len() ==> flushed_sender(
                senders[i],
                #[trigger] after.sender_queues@[i],
                senders[i].due(now),
                now,
                sending[i],
            )
        &&& after.stats == counted_by_receivers(
            counted_by_senders(before.stats, senders, now, sending),
            receivers,
            now,
            receiving,
            receivers.len(),
        )
    }

    /// Flushes the queues that are due: those for sending by their priority, then
    /// those for receiving.
    pub fn flush_all_queues(&mut self, now: Instant) -> (out: FlushOutcome)
        requires
            old(self).wf(),
        ensures
            final(self).wf(),
            final(self).config == old(self).config,
            final(self).sender_queues@.len() == old(self).sender_queues@.len(),
            final(self).receiver_queues@.len() == old(self).receiver_queues@.len(),
            exists|sending: Seq<u64>, receiving: Seq<u64>| #[trigger]
                Self::flushed(*old(self), *final(self), now, sending, receiving),
            forall|i: int|
                0 <= i < old(self).receiver_queues@.len() ==> flushed_receiver(
                    old(self).receiver_queues@[i],
                    #[trigger] final(self).receiver_queues@[i],
                    old(self).receiver_queues@[i].due(now),
                    now,
                ),
            out.sent@ == sent_by_all(old(self).sender_queues@, now),
            ({
                let due = buffers_due(
                    old(self).receiver_queues@,
                    now,
                    old(self).receiver_queues@.len(),
                );
                &&& out.received@.len() == due.len()
                &&& forall|i: int|
                    0 <= i < due.len() ==> completes(#[trigger] out.received@[i], due[i])
            }),
            final(self).stats.operations_queued == old(self).stats.operations_queued,
            final(self).stats.operations_executed == wrapped_sum(
                old(self).stats.operations_executed,
                counted(out.sent@.len()),
            ),
            final(self).stats.receive_buffers_queued == old(self).stats.receive_buffers_queued,
            final(self).stats.receive_buffers_processed == wrapped_sum(
                old(self).stats.receive_buffers_processed,
                counted(out.received@.len()),
            ),
    {
        let mut sent: Vec<SendCompletion> = Vec::new();
        let ghost s0 = self.stats;
        let ghost x0 = self.stats.operations_executed;
        let ghost q0 = self.sender_queues@;
        let Ghost(t0) = self.flush_senders(0, now, &mut sent);
        let ghost s1 = self.stats;
        let ghost q1 = self.sender_queues@;
        let ghost n1 = sent@.len();
        let Ghost(t1) = self.flush_senders(1, now, &mut sent);
        let ghost s2 = self.stats;
        let ghost q2 = self.sender_queues@;
        let ghost n2 = sent@.len();
        let Ghost(t2) = self.flush_senders(2, now, &mut sent);
        let ghost s3 = self.stats;
        let ghost q3 = self.sender_queues@;
        let ghost n3 = sent@.len();
        let Ghost(t3) = self.flush_senders(3, now, &mut sent);
        let ghost times = Seq::new(
            q0.len(),
            |i: int|
                {
                    let l = q0[i].priority.level_spec();
                    if l == 0 {
                        t0[i]
                    } else if l == 1 {
                        t1[i]
                    } else if l == 2 {
                        t2[i]
                    } else {
                        t3[i]
                    }
                },
        );
        proof {
            let n4 = sent@.len();
            counting_is_additive(x0, n1, (n2 - n1) as nat);
            counting_is_additive(x0, n2, (n3 - n2) as nat);
            counting_is_additive(x0, n3, (n4 - n3) as nat);
            let n = q0.len();
            lemma_level_unaffected(q0, q1, 0, 1, s1, now, t1, t0, n);
            lemma_level_unaffected(q0, q1, 0, 2, s2, now, t2, t0, n);
            lemma_level_unaffected(q0, q1, 0, 3, s3, now, t3, t0, n);
            lemma_level_unaffected(q1, q2, 1, 2, s2, now, t2, t1, n);
            lemma_level_unaffected(q1, q2, 1, 3, s3, now, t3, t1, n);
            lemma_level_unaffected(q2, q3, 2, 3, s3, now, t3, t2, n);
            lemma_counted_times(s0, q0, 0, now, t0, times, n);
            lemma_counted_times(s1, q0, 1, now, t1, times, n);
            lemma_counted_times(s2, q0, 2, now, t2, times, n);
            lemma_counted_times(s3, q0, 3, now, t3, times, n);
            assert(sent@ =~= sent_by_all(q0, now));
            assert forall|i: int| 0 <= i < q0.len() implies flushed_sender(
                q0[i],
                #[trigger] self.sender_queues@[i],
                q0[i].due(now),
                now,
                times[i],
            ) by {
                let l = q0[i].priority.level_spec();
                assert(flushed_sender(q0[i], q1[i], l == 0 && q0[i].due(now), now, t0[i]));
                assert(flushed_sender(
                    q1[i],
                    q2[i],
                    q1[i].priority.level_spec() == 1 && q1[i].due(now),
                    now,
                    t1[i],
                ));
                assert(flushed_sender(
                    q2[i],
                    q3[i],
                    q2[i].priority.level_spec() == 2 && q2[i].due(now),
                    now,
                    t2[i],
                ));
            }
        }
        let mut received: Vec<ReceiveCompletion> = Vec::new();
        let ghost before = self.receiver_queues@;
        let ghost senders = self.sender_queues@;
        let ghost after_sending = self.stats;
        let ghost mut receiving: Seq<u64> = Seq::empty();
        proof {
            counting_is_additive(after_sending.receive_buffers_processed, 0, 0);
        }
        let mut i: usize = 0;
        while i < self.receiver_queues.len()
            invariant
                self.wf(),
                self.config == old(self).config,
                self.sender_queues@ == senders,
                before == old(self).receiver_queues@,
                i <= self.receiver_queues@.len(),
                self.receiver_queues@.len() == before.len(),
                forall|j: int|
                    0 <= j < i ==> flushed_receiver(
                        before[j],
                        #[trigger] self.receiver_queues@[j],
                        before[j].due(now),
                        now,
                    ),
                receiving.len() == i,
                self.stats == counted_by_receivers(
                    after_sending,
                    before,
                    now,
                    receiving,
                    i as nat,
                ),
                forall|j: int|
                    i <= j < before.len() ==> #[trigger] self.receiver_queues@[j] == before[j],
                received@.len() == buffers_due(before, now, i as nat).len(),
                forall|j: int|
                    0 <= j < received@.len() ==> completes(
                        #[trigger] received@[j],
                        buffers_due(before, now, i as nat)[j],
                    ),
                self.stats.operations_queued == after_sending.operations_queued,
                self.stats.operations_executed == after_sending.operations_executed,
                self.stats.receive_buffers_queued == after_sending.receive_buffers_queued,
                self.stats.receive_buffers_processed == wrapped_sum(
                    after_sending.receive_buffers_processed,
                    counted(received@.len()),
                ),
            decreases self.receiver_queues@.len() - i,
        {
            assert(self.receiver_queues@[i as int] == before[i as int]);
            let ghost mut taken: u64 = 0;
            if self.receiver_queues[i].should_flush(now) {
                let ghost stats1 = self.stats;
                let q = &mut self.receiver_queues[i];
                let mut done = q.flush(&mut self.stats, now);
                let ghost d = done@;
                let ghost r0 = received@;
                proof {
                    assert(done@.len() == done.len());
                    assert(counted(d.len()) == d.len());
                    counting_is_additive(
                        after_sending.receive_buffers_processed,
                        r0.len(),
                        d.len(),
                    );
                }
                received.append(&mut done);
                proof {
                    let q0 = before[i as int].pending_buffers@;
                    if q0.len() > 0 {
                        taken = choose|nanos: u64|
                            self.stats == #[trigger] stats1.with_receive(
                                q0.len() as u64,
                                total_capacity(q0) as u64,
                                nanos,
                            );
                    }
                    let b0 = buffers_due(before, now, i as nat);
                    let b1 = buffers_due(before, now, (i + 1) as nat);
                    assert(b1 == b0 + before[i as int].pending_buffers@);
                    assert forall|j: int| 0 <= j < received@.len() implies completes(
                        #[trigger] received@[j],
                        b1[j],
                    ) by {
                        if j < r0.len() {
                            assert(received@[j] == r0[j]);
                        } else {
                            assert(received@[j] == d[j - r0.len()]);
                            assert(b1[j] == before[i as int].pending_buffers@[j - r0.len()]);
                        }
                    }
                }
            }
            proof {
                let longer = receiving.push(taken);
                lemma_received_times(after_sending, before, now, receiving, longer, i as nat);
                receiving = longer;
            }
            i += 1;
        }
        assert(Self::flushed(*old(self), *self, now, times, receiving));
        FlushOutcome { sent, received }
    }

    /// What was done so far.
    pub fn get_stats(&self) -> (s: BatchStats)
        ensures
            s == self.stats,
    {
        self.stats
    }
}

/// So many operations more were executed, and nothing else was queued or received.
pub open spec fn executed_more(before: BatchStats, after: BatchStats, count: nat) -> bool {
    &&& after.operations_executed == wrapped_sum(before.operations_executed, counted(count))
    &&& after.operations_queued == before.operations_queued
    &&& after.receive_buffers_queued == before.receive_buffers_queued
    &&& after.receive_buffers_processed == before.receive_buffers_processed
    &&& after.receive_batches_flushed == before.receive_batches_flushed
    &&& after.bytes_received == before.bytes_received
}

proof fn lemma_sent_keeps_executed(stats: BatchStats, ops: Seq<SendOperation>, now: Instant)
    ensures
        executed_more(stats, sent_stats(stats, ops, now), 0),
    decreases ops.len(),
{
    counting_is_additive(stats.operations_executed, 0, 0);
    if ops.len() > 0 {
        lemma_sent_keeps_executed(stats, ops.drop_last(), now);
    }
}

/// The buffers of the first so many queues that are due.
pub open spec fn buffers_due(queues: Seq<ReceiverQueue>, now: Instant, count: nat) -> Seq<
    ReceiveBuffer,
>
    decreases count,
{
    if count == 0 {
        Seq::empty()
    } else {
        let q = queues[count - 1];
        let before = buffers_due(queues, now, (count - 1) as nat);
        if q.due(now) {
            before + q.pending_buffers@
        } else {
            before
        }
    }
}

/// A queue for sending after a flush at a moment, where it was flushed and
/// something waited; the batch took so long.
pub open spec fn flushed_sender(
    before: SenderQueue,
    after: SenderQueue,
    flushed: bool,
    now: Instant,
    nanos: u64,
) -> bool {
    let waiting = before.pending_operations.items@.len();
    if flushed && waiting > 0 {
        &&& after.pending_operations.items@.len() == 0
        &&& after.priority == before.priority
        &&& after.config == before.config
        &&& after.last_flush == now
        &&& after.adaptive_batch_size == (if before.config.adaptive_sizing {
            adapted(
                before.config,
                before.adaptive_batch_size as int,
                waiting as int,
                nanos as int / 1_000,
            )
        } else {
            before.adaptive_batch_size as int
        })
    } else {
        after == before
    }
}

/// A queue for receiving after a flush at a moment, where it was flushed and
/// something waited.
pub open spec fn flushed_receiver(
    before: ReceiverQueue,
    after: ReceiverQueue,
    flushed: bool,
    now: Instant,
) -> bool {
    if flushed && before.pending_buffers@.len() > 0 {
        &&& after.pending_buffers@.len() == 0
        &&& after.config == before.config
        &&& after.last_flush == now
    } else {
        after == before
    }
}

/// What the first so many queues of one priority count when those that are due
/// are flushed, each in the time given for it.
pub open spec fn counted_by_level(
    stats: BatchStats,
    queues: Seq<SenderQueue>,
    level: nat,
    now: Instant,
    times: Seq<u64>,
    count: nat,
) -> BatchStats
    decreases count,
{
    if count == 0 {
        stats
    } else {
        let q = queues[count - 1];
        let before = counted_by_level(stats, queues, level, now, times, (count - 1) as nat);
        let ops = operations_of(in_order(q.pending_operations.items@));
        if q.priority.level_spec() == level && q.due(now) && ops.len() > 0 {
            sent_stats(before, ops, now).with_batch(ops.len() as u64, times[count - 1])
        } else {
            before
        }
    }
}

/// What all queues for sending count, the most urgent ones first.
pub open spec fn counted_by_senders(
    stats: BatchStats,
    queues: Seq<SenderQueue>,
    now: Instant,
    times: Seq<u64>,
) -> BatchStats {
    let n = queues.len();
    let first = counted_by_level(stats, queues, 0, now, times, n);
    let second = counted_by_level(first, queues, 1, now, times, n);
    let third = counted_by_level(second, queues, 2, now, times, n);
    counted_by_level(third, queues, 3, now, times, n)
}

/// What the first so many queues for receiving count when those that are due are
/// flushed, each in the time given for it.
pub open spec fn counted_by_receivers(
    stats: BatchStats,
    queues: Seq<ReceiverQueue>,
    now: Instant,
    times: Seq<u64>,
    count: nat,
) -> BatchStats
    decreases count,
{
    if count == 0 {
        stats
    } else {
        let q = queues[count - 1];
        let before = counted_by_receivers(stats, queues, now, times, (count - 1) as nat);
        if q.due(now) && q.pending_buffers@.len() > 0 {
            before.with_receive(
                q.pending_buffers@.len() as u64,
                total_capacity(q.pending_buffers@) as u64,
                times[count - 1],
            )
        } else {
            before
        }
    }
}

proof fn lemma_counted_times(
    stats: BatchStats,
    queues: Seq<SenderQueue>,
    level: nat,
    now: Instant,
    a: Seq<u64>,
    b: Seq<u64>,
    count: nat,
)
    requires
        count <= queues.len(),
        forall|i: int|
            0 <= i < count && (#[trigger] queues[i]).priority.level_spec() == level ==> a[i] == b[i],
    ensures
        counted_by_level(stats, queues, level, now, a, count) == counted_by_level(
            stats,
            queues,
            level,
            now,
            b,
            count,
        ),
    decreases count,
{
    if count > 0 {
        lemma_counted_times(stats, queues, level, now, a, b, (count - 1) as nat);
        assert(queues[count - 1].priority.level_spec() == level ==> a[count - 1] == b[count - 1]);
    }
}

proof fn lemma_received_times(
    stats: BatchStats,
    queues: Seq<ReceiverQueue>,
    now: Instant,
    a: Seq<u64>,
    b: Seq<u64>,
    count: nat,
)
    requires
        count <= queues.len(),
        forall|i: int| 0 <= i < count ==> a[i] == b[i],
    ensures
        counted_by_receivers(stats, queues, now, a, count) == counted_by_receivers(
            stats,
            queues,
            now,
            b,
            count,
        ),
    decreases count,
{
    if count > 0 {
        lemma_received_times(stats, queues, now, a, b, (count - 1) as nat);
    }
}

/// What the first so many queues of one priority send that are due.
pub open spec fn sent_by_level(
    queues: Seq<SenderQueue>,
    level: nat,
    now: Instant,
    count: nat,
) -> Seq<SendCompletion>
    decreases count,
{
    if count == 0 {
        Seq::empty()
    } else {
        let q = queues[count - 1];
        let before = sent_by_level(queues, level, now, (count - 1) as nat);
        if q.priority.level_spec() == level && q.due(now) {
            before + completions_of(operations_of(in_order(q.pending_operations.items@)))
        } else {
            before
        }
    }
}

/// What all queues send that are due, the most urgent ones first.
pub open spec fn sent_by_all(queues: Seq<SenderQueue>, now: Instant) -> Seq<SendCompletion> {
    sent_by_level(queues, 0, now, queues.len()) + sent_by_level(queues, 1, now, queues.len())
        + sent_by_level(queues, 2, now, queues.len()) + sent_by_level(queues, 3, now, queues.len())
}

proof fn lemma_level_unaffected(
    a: Seq<SenderQueue>,
    b: Seq<SenderQueue>,
    flushed: nat,
    level: nat,
    stats: BatchStats,
    now: Instant,
    times: Seq<u64>,
    taken: Seq<u64>,
    count: nat,
)
    requires
        flushed != level,
        a.len() == b.len(),
        count <= a.len(),
        forall|i: int|
            0 <= i < a.len() ==> flushed_sender(
                a[i],
                #[trigger] b[i],
                a[i].priority.level_spec() == flushed && a[i].due(now),
                now,
                taken[i],
            ),
    ensures
        sent_by_level(a, level, now, count) == sent_by_level(b, level, now, count),
        counted_by_level(stats, a, level, now, times, count) == counted_by_level(
            stats,
            b,
            level,
            now,
            times,
            count,
        ),
    decreases count,
{
    if count > 0 {
        lemma_level_unaffected(
            a,
            b,
            flushed,
            level,
            stats,
            now,
            times,
            taken,
            (count - 1) as nat,
        );
        let i = count - 1;
        assert(flushed_sender(
            a[i],
            b[i],
            a[i].priority.level_spec() == flushed && a[i].due(now),
            now,
            taken[i],
        ));
    }
}

// ---------------------------------------------------------------------------
// What urgency means
// ---------------------------------------------------------------------------

/// What comes out of a queue first is as urgent as anything that waits: nothing else
/// comes out while something critical waits, only that and high priority while
/// something of high priority waits, and nothing of low priority while something of
/// normal priority waits. Among equals it was queued first.
pub proof fn urgent_items_go_first<T>(s: Seq<PriorityItem<T>>, i: int, j: int)
    requires
        is_first(s, i),
        0 <= j < s.len(),
    ensures
        s[j].priority is Critical ==> s[i].priority is Critical,
        s[j].priority is High ==> s[i].priority is Critical || s[i].priority is High,
        s[j].priority is Normal ==> !(s[i].priority is Low),
        s[j].priority == s[i].priority ==> s[i].queued_at.nanos <= s[j].queued_at.nanos,
        s[j].priority == s[i].priority && s[j].queued_at == s[i].queued_at ==> i <= j,
{
    assert(!goes_before(s[j], s[i]));
    if j < i {
        assert(goes_before(s[i], s[j]));
    }
}

/// Everything that a queue holds comes out once, the critical items before those of
/// high priority, these before those of normal priority, these before those of low
/// priority, whenever they were queued; equally urgent ones by when they were queued.
pub proof fn items_come_out_by_urgency<T>(s: Seq<PriorityItem<T>>, a: int, b: int)
    requires
        0 <= a < b < s.len(),
    ensures
        in_order(s).len() == s.len(),
        in_order(s).to_multiset() == s.to_multiset(),
        in_order(s)[b].priority is Critical ==> in_order(s)[a].priority is Critical,
        in_order(s)[b].priority is High ==> in_order(s)[a].priority is Critical
            || in_order(s)[a].priority is High,
        in_order(s)[b].priority is Normal ==> !(in_order(s)[a].priority is Low),
        in_order(s)[a].priority == in_order(s)[b].priority ==> in_order(s)[a].queued_at.nanos
            <= in_order(s)[b].queued_at.nanos,
{
    order_is_by_urgency(s);
    assert(!goes_before(in_order(s)[b], in_order(s)[a]));
}

/// The sent completions of one due queue stand together among those of its priority.
proof fn lemma_block_of_queue(queues: Seq<SenderQueue>, level: nat, now: Instant, count: nat, i: int)
    -> (r: (Seq<SendCompletion>, Seq<SendCompletion>))
    requires
        0 <= i < count <= queues.len(),
        queues[i].priority.level_spec() == level,
        queues[i].due(now),
    ensures
        sent_by_level(queues, level, now, count) == r.0 + completions_of(
            operations_of(in_order(queues[i].pending_operations.items@)),
        ) + r.1,
    decreases count,
{
    let block = completions_of(operations_of(in_order(queues[i].pending_operations.items@)));
    let before = sent_by_level(queues, level, now, (count - 1) as nat);
    if i == count - 1 {
        let r = (before, Seq::<SendCompletion>::empty());
        assert(sent_by_level(queues, level, now, count) =~= r.0 + block + r.1);
        r
    } else {
        let p = lemma_block_of_queue(queues, level, now, (count - 1) as nat, i);
        let q = queues[count - 1];
        if q.priority.level_spec() == level && q.due(now) {
            let more = completions_of(operations_of(in_order(q.pending_operations.items@)));
            let r = (p.0, p.1 + more);
            assert(sent_by_level(queues, level, now, count) =~= r.0 + block + r.1);
            r
        } else {
            p
        }
    }
}

/// The completions of a queue stand before those of another.
pub open spec fn sent_before(
    sent: Seq<SendCompletion>,
    first: Seq<SendCompletion>,
    second: Seq<SendCompletion>,
) -> bool {
    exists|x: Seq<SendCompletion>, y: Seq<SendCompletion>, z: Seq<SendCompletion>|
        sent == #[trigger] (x + first + y + second + z)
}

proof fn lemma_blocks_in_order(
    front: Seq<SendCompletion>,
    before_a: Seq<SendCompletion>,
    a: Seq<SendCompletion>,
    after_a: Seq<SendCompletion>,
    mid: Seq<SendCompletion>,
    before_b: Seq<SendCompletion>,
    b: Seq<SendCompletion>,
    after_b: Seq<SendCompletion>,
    back: Seq<SendCompletion>,
)
    ensures
        sent_before(
            front + (before_a + a + after_a) + mid + (before_b + b + after_b) + back,
            a,
            b,
        ),
{
    assert(front + (before_a + a + after_a) + mid + (before_b + b + after_b) + back =~= (front
        + before_a) + a + (after_a + mid + before_b) + b + (after_b + back));
}

/// Where two queues are due, the more urgent one is sent as a whole before anything
/// of the other: critical before high, high before normal, normal before low.
#[verifier::rlimit(60)]
#[verifier::spinoff_prover]
pub proof fn urgent_queues_are_sent_first(queues: Seq<SenderQueue>, now: Instant, i: int, j: int)
    requires
        0 <= i < queues.len(),
        0 <= j < queues.len(),
        queues[i].due(now),
        queues[j].due(now),
        queues[i].priority is Critical && !(queues[j].priority is Critical)
            || queues[i].priority is High && (queues[j].priority is Normal
            || queues[j].priority is Low) || queues[i].priority is Normal
            && queues[j].priority is Low,
    ensures
        sent_before(
            sent_by_all(queues, now),
            completions_of(operations_of(in_order(queues[i].pending_operations.items@))),
            completions_of(operations_of(in_order(queues[j].pending_operations.items@))),
        ),
{
    let n = queues.len();
    let a = completions_of(operations_of(in_order(queues[i].pending_operations.items@)));
    let b = completions_of(operations_of(in_order(queues[j].pending_operations.items@)));
    let p = lemma_block_of_queue(queues, queues[i].priority.level_spec(), now, n, i);
    let q = lemma_block_of_queue(queues, queues[j].priority.level_spec(), now, n, j);
    let none = Seq::<SendCompletion>::empty();
    let critical = sent_by_level(queues, 0, now, n);
    let high = sent_by_level(queues, 1, now, n);
    let normal = sent_by_level(queues, 2, now, n);
    let low = sent_by_level(queues, 3, now, n);
    let first = p.0 + a + p.1;
    let second = q.0 + b + q.1;
    let (front, mid, back) = if queues[i].priority is Critical {
        if queues[j].priority is High {
            (none, none, normal + low)
        } else if queues[j].priority is Normal {
            (none, high, low)
        } else {
            (none, high + normal, none)
        }
    } else if queues[i].priority is High {
        if queues[j].priority is Normal {
            (critical, none, low)
        } else {
            (critical, normal, none)
        }
    } else {
        (critical + high, none, none)
    };
    assert(sent_by_all(queues, now) =~= front + first + mid + second + back);
    lemma_blocks_in_order(front, p.0, a, p.1, mid, q.0, b, q.1, back);
}

/// A queue that holds less than a batch, that is not critical and was flushed within
/// the time that operations wait at most, is not due; with something waiting, any of
/// the three makes it due. An empty queue is due only where batches are empty.
pub proof fn queues_are_due_in_time(q: SenderQueue, now: Instant)
    ensures
        q.pending_operations.items@.len() < q.adaptive_batch_size && !(q.priority is Critical)
            && now.since_spec(q.last_flush).nanos < q.config.batch_timeout.nanos ==> !q.due(now),
        q.pending_operations.items@.len() > 0 && q.priority is Critical ==> q.due(now),
        q.pending_operations.items@.len() > 0 && now.nanos >= q.last_flush.nanos
            + q.config.batch_timeout.nanos ==> q.due(now),
        q.pending_operations.items@.len() >= q.adaptive_batch_size ==> q.due(now),
        q.pending_operations.items@.len() == 0 && q.adaptive_batch_size > 0 ==> !q.due(now),
{
}

/// The same for queues that receive, which hold whole batches and are never critical.
pub proof fn receivers_are_due_in_time(q: ReceiverQueue, now: Instant)
    ensures
        q.pending_buffers@.len() < q.config.max_batch_size && now.since_spec(q.last_flush).nanos
            < q.config.batch_timeout.nanos ==> !q.due(now),
        q.pending_buffers@.len() > 0 && now.nanos >= q.last_flush.nanos
            + q.config.batch_timeout.nanos ==> q.due(now),
        q.pending_buffers@.len() >= q.config.max_batch_size ==> q.due(now),
        q.pending_buffers@.len() == 0 && q.config.max_batch_size > 0 ==> !q.due(now),
{
}

/// A queue that is due stays due while nothing is done, and waiting longer or holding
/// more never makes it less due.
pub proof fn due_queues_stay_due(q: SenderQueue, more: SenderQueue, now: Instant, later: Instant)
    requires
        now.nanos <= later.nanos,
        q.due(now),
        more.config == q.config,
        more.priority == q.priority,
        more.last_flush == q.last_flush,
        more.adaptive_batch_size == q.adaptive_batch_size,
        more.pending_operations.items@.len() >= q.pending_operations.items@.len(),
    ensures
        more.due(later),
{
}

/// Each operation is completed under its own ticket with the number of its bytes, in
/// the order of the operations.
pub proof fn operations_are_completed_in_order(ops: Seq<SendOperation>, i: int)
    requires
        0 <= i < ops.len(),
    ensures
        completions_of(ops).len() == ops.len(),
        completions_of(ops)[i].ticket == ops[i].ticket,
        completions_of(ops)[i].bytes == ops[i].data@.len() as usize,
{
}

/// One operation more that is sent adds its bytes to the bytes and the time for which
/// it waited to the waiting time, and to nothing else.
pub proof fn sending_counts_bytes_and_waiting(
    stats: BatchStats,
    ops: Seq<SendOperation>,
    op: SendOperation,
    now: Instant,
)
    ensures
        ({
            let before = sent_stats(stats, ops, now);
            let after = sent_stats(stats, ops.push(op), now);
            &&& after.bytes_sent == wrapped_sum(before.bytes_sent, op.data@.len() as u64)
            &&& op.queued_at.nanos <= now.nanos < op.queued_at.nanos + 0x1_0000_0000_0000_0000
                ==> after.total_latency_ns == wrapped_sum(
                before.total_latency_ns,
                (now.nanos - op.queued_at.nanos) as u64,
            )
            &&& op.queued_at.nanos >= now.nanos ==> after.total_latency_ns
                == before.total_latency_ns
            &&& after.operations_queued == before.operations_queued
            &&& after.operations_executed == before.operations_executed
            &&& after.batches_flushed == before.batches_flushed
            &&& after.bytes_received == before.bytes_received
            &&& after.batch_execution_time_ns == before.batch_execution_time_ns
            &&& after.receive_buffers_queued == before.receive_buffers_queued
            &&& after.receive_buffers_processed == before.receive_buffers_processed
            &&& after.receive_batches_flushed == before.receive_batches_flushed
            &&& after.receive_execution_time_ns == before.receive_execution_time_ns
        }),
        sent_stats(stats, Seq::empty(), now) == stats,
{
    assert(ops.push(op).drop_last() =~= ops);
}

/// A batch adds one to the batches, its operations to the operations and its time to
/// the time; a receipt the same, to what concerns receipts. What was queued, sent or
/// waited is not touched.
pub proof fn batches_are_counted(stats: BatchStats, n: u64, bytes: u64, nanos: u64)
    ensures
        ({
            let s = stats.with_batch(n, nanos);
            &&& s.batches_flushed == wrapped_sum(stats.batches_flushed, 1)
            &&& s.operations_executed == wrapped_sum(stats.operations_executed, n)
            &&& s.batch_execution_time_ns == wrapped_sum(stats.batch_execution_time_ns, nanos)
            &&& s.operations_queued == stats.operations_queued
            &&& s.bytes_sent == stats.bytes_sent
            &&& s.bytes_received == stats.bytes_received
            &&& s.total_latency_ns == stats.total_latency_ns
            &&& s.receive_batches_flushed == stats.receive_batches_flushed
            &&& s.receive_buffers_processed == stats.receive_buffers_processed
            &&& s.receive_execution_time_ns == stats.receive_execution_time_ns
        }),
        ({
            let s = stats.with_receive(n, bytes, nanos);
            &&& s.receive_batches_flushed == wrapped_sum(stats.receive_batches_flushed, 1)
            &&& s.receive_buffers_processed == wrapped_sum(stats.receive_buffers_processed, n)
            &&& s.bytes_received == wrapped_sum(stats.bytes_received, bytes)
            &&& s.receive_execution_time_ns == wrapped_sum(stats.receive_execution_time_ns, nanos)
            &&& s.operations_executed == stats.operations_executed
            &&& s.batches_flushed == stats.batches_flushed
            &&& s.bytes_sent == stats.bytes_sent
            &&& s.batch_execution_time_ns == stats.batch_execution_time_ns
        }),
{
}

/// With more than one operation per microsecond a batch grows by a tenth, rounded
/// down, and with less than half of one it shrinks by a tenth, as far as the bounds
/// allow.
pub proof fn batches_adapt_by_a_tenth(
    config: BatchConfig,
    current: int,
    batch_size: int,
    micros: int,
)
    requires
        config.min_batch_size <= current <= config.max_batch_size,
        batch_size >= 0,
        micros >= 0,
    ensures
        ({
            let next = adapted(config, current, batch_size, micros);
            &&& batch_size > micros && current + current / 10 <= config.max_batch_size ==> next
                == current + current / 10
            &&& batch_size > micros && current + current / 10 > config.max_batch_size ==> next
                == config.max_batch_size
            &&& 2 * batch_size < micros && 10 * config.min_batch_size <= 9 * current - 10
                ==> next < current || current == 0
            &&& 2 * batch_size < micros && 9 * current >= 10 * config.min_batch_size && current
                > config.min_batch_size ==> 10 * next <= 9 * current < 10 * (next + 1)
            &&& 2 * batch_size < micros && 9 * current < 10 * config.min_batch_size ==> next
                == config.min_batch_size
        }),
{
}

/// A queue starts halfway between its bounds where batches adapt, and with the largest
/// batch otherwise; queues are looked at twice in the time that operations wait.
pub proof fn queues_start_halfway(config: BatchConfig)
    ensures
        config.adaptive_sizing && config.min_batch_size <= config.max_batch_size ==> {
            let below = config.initial_size() - config.min_batch_size;
            let above = config.max_batch_size - config.initial_size();
            0 <= below <= above <= below + 1
        },
        !config.adaptive_sizing ==> config.initial_size() == config.max_batch_size,
        2 * flush_interval_nanos(config) <= config.batch_timeout.nanos < 2 * flush_interval_nanos(
            config,
        ) + 2,
{
}

/// The receiving queues that are due hand over all their buffers, one queue after the
/// other, and no other buffer.
pub proof fn due_buffers_are_those_of_due_queues(
    queues: Seq<ReceiverQueue>,
    q: ReceiverQueue,
    now: Instant,
)
    ensures
        q.due(now) ==> buffers_due(queues.push(q), now, queues.len() + 1) == buffers_due(
            queues.push(q),
            now,
            queues.len(),
        ) + q.pending_buffers@,
        !q.due(now) ==> buffers_due(queues.push(q), now, queues.len() + 1) == buffers_due(
            queues.push(q),
            now,
            queues.len(),
        ),
        buffers_due(queues, now, 0).len() == 0,
{
    assert(queues.push(q)[queues.len() as int] == q);
}

/// The bytes that buffers hold are those of each of them.
pub proof fn capacities_add_up(buffers: Seq<ReceiveBuffer>, b: ReceiveBuffer)
    ensures
        total_capacity(buffers.push(b)) == total_capacity(buffers) + b.capacity,
        total_capacity(Seq::empty()) == 0,
{
    assert(buffers.push(b).drop_last() =~= buffers);
}

/// Operations are told per operation queued and per batch, waiting per operation, and
/// bytes both ways per second; where nothing was counted, as zero.
pub proof fn rates_are_told_per_unit(s: BatchStats, span: Duration, secs: u64)
    requires
        secs > 0,
    ensures
        s.operations_queued > 0 ==> s.batching_efficiency_spec().is(s.operations_executed as int, s.operations_queued as int),
        s.operations_queued == 0 ==> s.batching_efficiency_spec().is(0, 1),
        s.batches_flushed > 0 ==> s.avg_batch_size_spec().is(s.operations_executed as int, s.batches_flushed as int),
        s.batches_flushed == 0 ==> s.avg_batch_size_spec().is(0, 1),
        s.operations_executed > 0 ==> s.avg_operation_latency_ns_spec().is(s.total_latency_ns as int, s.operations_executed as int),
        s.operations_executed == 0 ==> s.avg_operation_latency_ns_spec().is(0, 1),
        span.nanos == secs * 1_000_000_000 ==> s.throughput_bps_spec(span).is(s.bytes_sent + s.bytes_received, secs as int),
        span.nanos == 0 ==> s.throughput_bps_spec(span).is(0, 1),
{
    assert((s.bytes_sent + s.bytes_received) * 1_000_000_000 * secs == (s.bytes_sent + s.bytes_received) * (secs * 1_000_000_000)) by (nonlinear_arith);
}

/// A flush at a moment empties the queues for sending that are due, and leaves every
/// other as it is; a queue from which something went was last flushed then.
pub proof fn due_queues_are_emptied(
    before: BatchManager,
    after: BatchManager,
    now: Instant,
    sending: Seq<u64>,
    receiving: Seq<u64>,
    i: int,
)
    requires
        BatchManager::flushed(before, after, now, sending, receiving),
        0 <= i < before.sender_queues@.len(),
    ensures
        before.sender_queues@[i].due(now) ==> after.sender_queues@[i].pending_operations.items@.len()
            == 0,
        !before.sender_queues@[i].due(now) ==> after.sender_queues@[i] == before.sender_queues@[i],
        before.sender_queues@[i].due(now)
            && before.sender_queues@[i].pending_operations.items@.len() > 0
            ==> after.sender_queues@[i].last_flush == now,
        before.sender_queues@[i].pending_operations.items@.len() == 0 ==> after.sender_queues@[i]
            == before.sender_queues@[i],
        after.sender_queues@[i].priority == before.sender_queues@[i].priority,
        !before.sender_queues@[i].config.adaptive_sizing
            ==> after.sender_queues@[i].adaptive_batch_size
            == before.sender_queues@[i].adaptive_batch_size,
{
    assert(flushed_sender(
        before.sender_queues@[i],
        after.sender_queues@[i],
        before.sender_queues@[i].due(now),
        now,
        sending[i],
    ));
}

/// A queue for receiving that is flushed has no room waiting any more; one that is not
/// stays as it is.
pub proof fn flushed_receivers_are_empty(
    before: ReceiverQueue,
    after: ReceiverQueue,
    was_flushed: bool,
    now: Instant,
)
    requires
        flushed_receiver(before, after, was_flushed, now),
    ensures
        was_flushed ==> after.pending_buffers@.len() == 0,
        !was_flushed ==> after == before,
        was_flushed && before.pending_buffers@.len() > 0 ==> after.last_flush == now,
        before.pending_buffers@.len() == 0 ==> after == before,
        after.config == before.config,
{
}

/// A receipt is for the buffer with its ticket and fills all of it, with zeros.
pub proof fn receipts_fill_their_buffers(c: ReceiveCompletion, b: ReceiveBuffer, i: int)
    requires
        completes(c, b),
    ensures
        c.ticket == b.ticket,
        c.data@.len() == b.capacity,
        0 <= i < b.capacity ==> c.data@[i] == 0,
        c.addr@ == "127.0.0.1:8080"@,
{
}

/// What counts executed operations leaves the count of those that were queued and of
/// what was received, and counts on where it left off.
pub proof fn executed_operations_add_up(
    a: BatchStats,
    b: BatchStats,
    c: BatchStats,
    n: nat,
    m: nat,
)
    requires
        executed_more(a, b, n),
        executed_more(b, c, m),
    ensures
        executed_more(a, c, n + m),
        a.operations_executed + n + m <= u64::MAX ==> c.operations_executed
            == a.operations_executed + n + m,
        c.operations_queued == a.operations_queued,
        c.bytes_received == a.bytes_received,
{
    counting_is_additive(a.operations_executed, n, m);
}

/// Nothing counts before anything is done.
pub proof fn counters_start_at_zero()
    ensures
        BatchStats::none().operations_queued == 0,
        BatchStats::none().operations_executed == 0,
        BatchStats::none().batches_flushed == 0,
        BatchStats::none().bytes_sent == 0,
        BatchStats::none().bytes_received == 0,
        BatchStats::none().batch_execution_time_ns == 0,
        BatchStats::none().total_latency_ns == 0,
        BatchStats::none().receive_buffers_queued == 0,
        BatchStats::none().receive_buffers_processed == 0,
        BatchStats::none().receive_batches_flushed == 0,
        BatchStats::none().receive_execution_time_ns == 0,
{
}

} // verus!
