//! Operations for an io_uring: how they are queued, numbered and handed over, and
//! what their completions count. The ring itself is the caller's.
use crate::counters::{add_wrapping, wrapped_sum};
use crate::ratio::Ratio;
use crate::time::{Duration, Instant};
use std::collections::VecDeque;
use vstd::prelude::*;

verus! {

/// Something to send over UDP.
#[derive(Clone, Debug, PartialEq, Eq)]
pub struct UdpSendOp {
    pub data: Vec<u8>,
    /// The address in text form.
    pub addr: String,
}

/// What an operation does.
#[derive(Debug)]
pub enum OperationType {
    SingleSend { data: Vec<u8>, addr: String },
    BatchSend(Vec<UdpSendOp>),
    BatchRecv { buffer_size: usize, count: usize },
}

/// An operation that waits for the ring.
#[derive(Debug)]
pub struct PendingOperation {
    pub id: u64,
    pub op_type: OperationType,
    /// The descriptor of the socket.
    pub socket: i32,
    pub submitted_at: Instant,
}

/// What was done.
#[derive(Clone, Copy, Debug, PartialEq, Eq, Structural)]
pub struct IoUringStats {
    /// Operations that were handed to the ring.
    pub operations_submitted: u64,
    pub operations_completed: u64,
    pub operations_failed: u64,
    pub bytes_transferred: u64,
    /// Whole microseconds from submission to completion, per completion.
    pub avg_completion_latency_us: u64,
}

/// The whole microseconds per completion of a sum of them: none where nothing was
/// completed, and no more than can be told.
pub open spec fn mean_latency_spec(total_us: int, completions: int) -> int {
    if completions == 0 {
        0
    } else if total_us / completions > u64::MAX {
        u64::MAX as int
    } else {
        total_us / completions
    }
}

/// The whole microseconds per completion of a sum of them.
pub fn mean_latency(total_us: u128, completions: u64) -> (mean: u64)
    ensures
        mean == mean_latency_spec(total_us as int, completions as int),
{
    if completions == 0 {
        return 0;
    }
    let mean: u128 = total_us / completions as u128;
    if mean > u64::MAX as u128 {
        u64::MAX
    } else {
        mean as u64
    }
}

impl IoUringStats {
    /// Nothing was done.
    pub open spec fn none() -> IoUringStats {
        IoUringStats {
            operations_submitted: 0,
            operations_completed: 0,
            operations_failed: 0,
            bytes_transferred: 0,
            avg_completion_latency_us: 0,
        }
    }

    /// One completion more: a failure where the result is negative, and so many
    /// bytes otherwise. All completions took so many microseconds together.
    pub open spec fn with_completion(self, result: i32, total_us: u128) -> IoUringStats {
        let completions = wrapped_sum(self.operations_completed, 1);
        let completed = IoUringStats {
            operations_completed: completions,
            avg_completion_latency_us: mean_latency_spec(
                total_us as int,
                completions as int,
            ) as u64,
            ..self
        };
        if result < 0 {
            IoUringStats {
                operations_failed: wrapped_sum(self.operations_failed, 1),
                ..completed
            }
        } else {
            IoUringStats {
                bytes_transferred: wrapped_sum(self.bytes_transferred, result as u64),
                ..completed
            }
        }
    }

    /// Completions per second over a span.
    pub open spec fn ops_per_second_spec(self, duration: Duration) -> Ratio {
        Ratio::of_spec(self.operations_completed * 1_000_000_000, duration.nanos as int)
    }

    /// Completions per second over a span.
    pub fn ops_per_second(&self, duration: Duration) -> (r: Ratio)
        ensures
            r == self.ops_per_second_spec(duration),
            r == Ratio::of_spec(self.operations_completed * 1_000_000_000, duration.nanos as int),
    {
        Ratio::of(self.operations_completed as u128 * 1_000_000_000, duration.nanos)
    }

    /// Bytes per second over a span.
    pub open spec fn throughput_bps_spec(self, duration: Duration) -> Ratio {
        Ratio::of_spec(self.bytes_transferred * 1_000_000_000, duration.nanos as int)
    }

    /// Bytes per second over a span.
    pub fn throughput_bps(&self, duration: Duration) -> (r: Ratio)
        ensures
            r == self.throughput_bps_spec(duration),
            r == Ratio::of_spec(self.bytes_transferred * 1_000_000_000, duration.nanos as int),
    {
        Ratio::of(self.bytes_transferred as u128 * 1_000_000_000, duration.nanos)
    }

    /// Failures per completion and failure.
    pub open spec fn error_rate_spec(self) -> Ratio {
        Ratio::of_spec(self.operations_failed as int, self.operations_completed + self.operations_failed)
    }

    /// Failures per completion and failure.
    pub fn error_rate(&self) -> (r: Ratio)
        ensures
            r == self.error_rate_spec(),
            r == Ratio::of_spec(
                self.operations_failed as int,
                self.operations_completed + self.operations_failed,
            ),
    {
        Ratio::of(
            self.operations_failed as u128,
            self.operations_completed as u128 + self.operations_failed as u128,
        )
    }
}

impl Default for IoUringStats {
    fn default() -> (s: Self)
        ensures
            s == IoUringStats::none(),
    {
        IoUringStats {
            operations_submitted: 0,
            operations_completed: 0,
            operations_failed: 0,
            bytes_transferred: 0,
            avg_completion_latency_us: 0,
        }
    }
}

/// The operations of a ring that wait.
#[derive(Debug)]
pub struct IoUringManager {
    pub queue_depth: u32,
    pub stats: IoUringStats,
    pub operation_queue: VecDeque<PendingOperation>,
    /// The number of the next operation.
    pub next_id: u64,
    /// Microseconds from submission to completion, over all completions.
    pub total_latency_us: u128,
}

/// The number of an item of a batch.
pub open spec fn item_number(id: int, index: int) -> int {
    id * 1000 + index
}

/// The number of an item of a batch, under which the ring reports it.
pub fn batch_user_data(id: u64, index: usize) -> (n: u64)
    requires
        item_number(id as int, index as int) <= u64::MAX,
    ensures
        n == item_number(id as int, index as int),
{
    id * 1000 + index as u64
}

/// Items of batches of up to a thousand have numbers of their own.
pub proof fn item_numbers_differ(id1: int, index1: int, id2: int, index2: int)
    requires
        0 <= index1 < 1000,
        0 <= index2 < 1000,
        item_number(id1, index1) == item_number(id2, index2),
    ensures
        id1 == id2,
        index1 == index2,
{
}

impl IoUringManager {
    /// Nothing waits for a ring of a depth.
    pub fn new(queue_depth: u32) -> (m: Self)
        ensures
            m.queue_depth == queue_depth,
            m.stats == IoUringStats::none(),
            m.operation_queue@.len() == 0,
            m.next_id == 0,
            m.total_latency_us == 0,
    {
        IoUringManager {
            queue_depth,
            stats: IoUringStats::default(),
            operation_queue: VecDeque::new(),
            next_id: 0,
            total_latency_us: 0,
        }
    }

    /// What queueing an operation does: it gets the next number as its own, and is
    /// counted once it goes to the ring.
    pub open spec fn queued(
        before: IoUringManager,
        after: IoUringManager,
        id: u64,
        op_type: OperationType,
        socket: i32,
        now: Instant,
    ) -> bool {
        &&& id == before.next_id
        &&& after.next_id == wrapped_sum(before.next_id, 1)
        &&& after.total_latency_us == before.total_latency_us
        &&& after.queue_depth == before.queue_depth
        &&& after.operation_queue@ == before.operation_queue@.push(
            PendingOperation { id, op_type, socket, submitted_at: now },
        )
        &&& after.stats == before.stats
    }

    fn enqueue(&mut self, op_type: OperationType, socket: i32, now: Instant) -> (id: u64)
        ensures
            Self::queued(*old(self), *final(self), id, op_type, socket, now),
    {
        let id: u64 = self.next_id;
        self.next_id = add_wrapping(id, 1);
        self.operation_queue.push_back(
            PendingOperation { id, op_type, socket, submitted_at: now },
        );
        id
    }

    /// Queues a batch to send.
    pub fn send_batch(&mut self, socket: i32, operations: Vec<UdpSendOp>, now: Instant) -> (id: u64)
        ensures
            Self::queued(
                *old(self),
                *final(self),
                id,
                OperationType::BatchSend(operations),
                socket,
                now,
            ),
    {
        self.enqueue(OperationType::BatchSend(operations), socket, now)
    }

    /// Queues a batch to receive.
    pub fn recv_batch(&mut self, socket: i32, buffer_size: usize, count: usize, now: Instant) -> (id:
        u64)
        ensures
            Self::queued(
                *old(self),
                *final(self),
                id,
                OperationType::BatchRecv { buffer_size, count },
                socket,
                now,
            ),
    {
        self.enqueue(OperationType::BatchRecv { buffer_size, count }, socket, now)
    }

    /// Queues something to send by itself.
    pub fn send_optimized(&mut self, socket: i32, data: Vec<u8>, addr: String, now: Instant) -> (id:
        u64)
        ensures
            Self::queued(
                *old(self),
                *final(self),
                id,
                OperationType::SingleSend { data, addr },
                socket,
                now,
            ),
    {
        self.enqueue(OperationType::SingleSend { data, addr }, socket, now)
    }

    /// How many operations go to the ring: as many as wait, but no more than the
    /// ring has room for.
    pub open spec fn to_submit(&self, in_ring: usize) -> int {
        let room = self.queue_depth - in_ring;
        if self.operation_queue@.len() < room {
            self.operation_queue@.len() as int
        } else {
            room
        }
    }

    /// Takes the operations that go to the ring, in the order in which they were
    /// queued, given how many the ring holds already; they are counted.
    pub fn submit_queued_operations(&mut self, in_ring: usize) -> (ops: Vec<PendingOperation>)
        requires
            in_ring <= old(self).queue_depth,
        ensures
            final(self).queue_depth == old(self).queue_depth,
            final(self).next_id == old(self).next_id,
            final(self).total_latency_us == old(self).total_latency_us,
            ops@ == old(self).operation_queue@.subrange(0, old(self).to_submit(in_ring)),
            final(self).operation_queue@ == old(self).operation_queue@.subrange(
                old(self).to_submit(in_ring),
                old(self).operation_queue@.len() as int,
            ),
            final(self).stats == (IoUringStats {
                operations_submitted: wrapped_sum(
                    old(self).stats.operations_submitted,
                    ops@.len() as u64,
                ),
                ..old(self).stats
            }),
    {
        let room: usize = self.queue_depth as usize - in_ring;
        let waiting: usize = self.operation_queue.len();
        let to_submit: usize = if waiting < room {
            waiting
        } else {
            room
        };
        let mut ops: Vec<PendingOperation> = Vec::new();
        let mut i: usize = 0;
        let ghost all = self.operation_queue@;
        assert(all.subrange(0, all.len() as int) =~= all);
        while i < to_submit
            invariant
                i <= to_submit <= all.len(),
                self.queue_depth == old(self).queue_depth,
                self.next_id == old(self).next_id,
                self.total_latency_us == old(self).total_latency_us,
                self.stats == old(self).stats,
                ops@ == all.subrange(0, i as int),
                self.operation_queue@ == all.subrange(i as int, all.len() as int),
            decreases to_submit - i,
        {
            if let Some(op) = self.operation_queue.pop_front() {
                ops.push(op);
            }
            i += 1;
            assert(ops@ =~= all.subrange(0, i as int));
            assert(self.operation_queue@ =~= all.subrange(i as int, all.len() as int));
        }
        self.stats.operations_submitted =
        add_wrapping(self.stats.operations_submitted, to_submit as u64);
        ops
    }

    /// Counts a completion that the ring reports, of an operation that was submitted
    /// at a moment.
    pub fn record_completion(&mut self, result: i32, submitted_at: Instant, now: Instant)
        ensures
            final(self).queue_depth == old(self).queue_depth,
            final(self).operation_queue == old(self).operation_queue,
            final(self).next_id == old(self).next_id,
            final(self).total_latency_us == old(self).total_latency_us.saturating_add(
                now.since_spec(submitted_at).nanos / 1_000,
            ),
            final(self).stats == old(self).stats.with_completion(
                result,
                final(self).total_latency_us,
            ),
    {
        let latency_us: u128 = now.since(submitted_at).as_micros();
        self.total_latency_us = self.total_latency_us.saturating_add(latency_us);
        self.stats.operations_completed = add_wrapping(self.stats.operations_completed, 1);
        self.stats.avg_completion_latency_us =
        mean_latency(self.total_latency_us, self.stats.operations_completed);
        if result < 0 {
            self.stats.operations_failed = add_wrapping(self.stats.operations_failed, 1);
        } else {
            self.stats.bytes_transferred =
            add_wrapping(self.stats.bytes_transferred, result as u64);
        }
    }

    /// What was done so far.
    pub fn get_stats(&self) -> (s: IoUringStats)
        ensures
            s == self.stats,
    {
        self.stats
    }
}

/// Operations reach the ring in the order in which they were queued, none of them
/// lost or doubled.
pub proof fn submission_keeps_order(queue: Seq<PendingOperation>, n: int)
    requires
        0 <= n <= queue.len(),
    ensures
        queue.subrange(0, n) + queue.subrange(n, queue.len() as int) == queue,
{
    assert(queue.subrange(0, n) + queue.subrange(n, queue.len() as int) =~= queue);
}

/// How a batch is sent.
#[derive(Debug)]
pub enum FlushPlan {
    /// There is nothing to send.
    Nothing,
    /// Through the ring, as one batch.
    Ring(Vec<UdpSendOp>),
    /// Through the socket, one by one.
    OneByOne(Vec<UdpSendOp>),
}

/// A socket that collects what is to be sent.
#[derive(Debug)]
pub struct IoUringSocket {
    /// Whether there is a ring.
    pub has_ring: bool,
    pub enable_batching: bool,
    pub batch_buffer: Vec<UdpSendOp>,
}

impl IoUringSocket {
    /// Nothing is collected yet.
    pub fn new(has_ring: bool) -> (s: Self)
        ensures
            s.has_ring == has_ring,
            s.enable_batching,
            s.batch_buffer@.len() == 0,
    {
        IoUringSocket { has_ring, enable_batching: true, batch_buffer: Vec::new() }
    }

    /// Collects something to send, where batching is enabled.
    pub fn queue_send(&mut self, data: Vec<u8>, addr: String)
        ensures
            final(self).has_ring == old(self).has_ring,
            final(self).enable_batching == old(self).enable_batching,
            old(self).enable_batching ==> final(self).batch_buffer@ == old(self).batch_buffer@.push(UdpSendOp { data, addr }),
            !old(self).enable_batching ==> final(self).batch_buffer == old(self).batch_buffer,
    {
        if self.enable_batching {
            self.batch_buffer.push(UdpSendOp { data, addr });
        }
    }

    /// Takes what was collected, and says how it is sent.
    pub fn flush_batch(&mut self) -> (plan: FlushPlan)
        ensures
            final(self).has_ring == old(self).has_ring,
            final(self).enable_batching == old(self).enable_batching,
            final(self).batch_buffer@.len() == 0,
            match plan {
                FlushPlan::Nothing => old(self).batch_buffer@.len() == 0,
                FlushPlan::Ring(ops) => {
                    &&& old(self).has_ring
                    &&& ops@.len() > 0
                    &&& ops@ == old(self).batch_buffer@
                },
                FlushPlan::OneByOne(ops) => {
                    &&& !old(self).has_ring
                    &&& ops@.len() > 0
                    &&& ops@ == old(self).batch_buffer@
                },
            },
            flushes(old(self).has_ring, old(self).batch_buffer@, plan),
    {
        let mut ops: Vec<UdpSendOp> = Vec::new();
        ops.append(&mut self.batch_buffer);
        assert(ops@ =~= old(self).batch_buffer@);
        if ops.len() == 0 {
            return FlushPlan::Nothing;
        }
        if self.has_ring {
            FlushPlan::Ring(ops)
        } else {
            FlushPlan::OneByOne(ops)
        }
    }
}

/// A completion counts once; a negative result is one failure and no bytes, any other
/// so many bytes and no failure. What was submitted does not change.
pub proof fn completions_are_counted(s: IoUringStats, result: i32, total_us: u128)
    requires
        s.operations_completed < u64::MAX,
        s.operations_failed < u64::MAX,
        s.bytes_transferred + result <= u64::MAX,
    ensures
        s.with_completion(result, total_us).operations_completed == s.operations_completed + 1,
        s.with_completion(result, total_us).operations_submitted == s.operations_submitted,
        s.with_completion(result, total_us).operations_failed == s.operations_failed + if result
            < 0 {
            1int
        } else {
            0
        },
        s.with_completion(result, total_us).bytes_transferred == s.bytes_transferred + if result
            < 0 {
            0int
        } else {
            result as int
        },
        s.with_completion(result, total_us).avg_completion_latency_us == mean_latency_spec(
            total_us as int,
            s.operations_completed + 1,
        ),
{
    let n = s.operations_completed + 1;
    assert(total_us as int / n >= 0) by (nonlinear_arith)
        requires
            n > 0,
    ;
}

/// So many times the mean is no more than the sum, and one microsecond more each is
/// more than it.
pub proof fn mean_latency_is_a_mean(total_us: int, completions: int)
    requires
        0 <= total_us,
        0 < completions,
        total_us / completions <= u64::MAX,
    ensures
        mean_latency_spec(total_us, completions) * completions <= total_us,
        total_us < (mean_latency_spec(total_us, completions) + 1) * completions,
        mean_latency_spec(total_us, 0) == 0,
{
    let q = total_us / completions;
    assert(q * completions <= total_us < (q + 1) * completions) by (nonlinear_arith)
        requires
            q == total_us / completions,
            completions > 0,
    ;
}

/// An operation waits behind those that waited already, which stay as they are, and
/// the next one gets another number.
pub proof fn operations_queue_up(
    a: IoUringManager,
    b: IoUringManager,
    c: IoUringManager,
    id1: u64,
    id2: u64,
    op1: OperationType,
    op2: OperationType,
    socket1: i32,
    socket2: i32,
    now1: Instant,
    now2: Instant,
    i: int,
)
    requires
        IoUringManager::queued(a, b, id1, op1, socket1, now1),
        IoUringManager::queued(b, c, id2, op2, socket2, now2),
        0 <= i < a.operation_queue@.len(),
    ensures
        id1 != id2,
        c.operation_queue@.len() == a.operation_queue@.len() + 2,
        c.operation_queue@[i] == a.operation_queue@[i],
        c.operation_queue@[c.operation_queue@.len() - 2].op_type == op1,
        c.operation_queue@[c.operation_queue@.len() - 2].socket == socket1,
        c.operation_queue@[c.operation_queue@.len() - 2].submitted_at == now1,
        c.operation_queue@[c.operation_queue@.len() - 2].id == id1,
        c.operation_queue@.last().op_type == op2,
        c.operation_queue@.last().socket == socket2,
        c.operation_queue@.last().submitted_at == now2,
        c.operation_queue@.last().id == id2,
        c.stats == a.stats,
{
}

/// The ring never holds more than its depth, and an operation waits on only where the
/// ring is full.
pub proof fn rings_are_filled(m: IoUringManager, in_ring: usize)
    requires
        in_ring <= m.queue_depth,
    ensures
        0 <= m.to_submit(in_ring) <= m.operation_queue@.len(),
        in_ring + m.to_submit(in_ring) <= m.queue_depth,
        m.to_submit(in_ring) < m.operation_queue@.len() ==> in_ring + m.to_submit(in_ring)
            == m.queue_depth,
{
}

/// Completions and bytes are told per second, and failures per completion and failure;
/// where nothing was counted, as zero.
pub proof fn rates_are_told_per_unit(s: IoUringStats, span: Duration, secs: u64)
    requires
        secs > 0,
    ensures
        span.nanos == secs * 1_000_000_000 ==> s.ops_per_second_spec(span).is(s.operations_completed as int, secs as int),
        span.nanos == 0 ==> s.ops_per_second_spec(span).is(0, 1),
        span.nanos == secs * 1_000_000_000 ==> s.throughput_bps_spec(span).is(s.bytes_transferred as int, secs as int),
        span.nanos == 0 ==> s.throughput_bps_spec(span).is(0, 1),
        s.operations_completed + s.operations_failed > 0 ==> s.error_rate_spec().is(s.operations_failed as int, s.operations_completed + s.operations_failed),
        s.operations_completed + s.operations_failed == 0 ==> s.error_rate_spec().is(0, 1),
{
    assert((s.operations_completed) * 1_000_000_000 * secs == (s.operations_completed) * (secs * 1_000_000_000)) by (nonlinear_arith);
    assert((s.bytes_transferred) * 1_000_000_000 * secs == (s.bytes_transferred) * (secs * 1_000_000_000)) by (nonlinear_arith);
}

/// A plan sends what was collected, through the ring where there is one.
pub open spec fn flushes(has_ring: bool, collected: Seq<UdpSendOp>, plan: FlushPlan) -> bool {
    match plan {
        FlushPlan::Nothing => collected.len() == 0,
        FlushPlan::Ring(ops) => has_ring && ops@ == collected && collected.len() > 0,
        FlushPlan::OneByOne(ops) => !has_ring && ops@ == collected && collected.len() > 0,
    }
}

/// Whatever was collected is sent, in its order, and nothing is sent where nothing was;
/// the ring sends it exactly where there is one.
pub proof fn collected_is_sent(has_ring: bool, collected: Seq<UdpSendOp>, plan: FlushPlan)
    requires
        flushes(has_ring, collected, plan),
    ensures
        plan is Nothing <==> collected.len() == 0,
        collected.len() > 0 && has_ring ==> plan is Ring && plan->Ring_0@ == collected,
        collected.len() > 0 && !has_ring ==> plan is OneByOne && plan->OneByOne_0@ == collected,
{
}

/// Nothing counts before anything is done.
pub proof fn counters_start_at_zero()
    ensures
        IoUringStats::none().operations_submitted == 0,
        IoUringStats::none().operations_completed == 0,
        IoUringStats::none().operations_failed == 0,
        IoUringStats::none().bytes_transferred == 0,
        IoUringStats::none().avg_completion_latency_us == 0,
{
}

} // verus!
