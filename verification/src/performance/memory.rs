//! Pools of buffers that are used again, and slices that share memory.
use crate::clock::Stopwatch;
use crate::counters::{add_wrapping, counted, wrapped_sum};
use crate::performance::buffers::{
    buffer_capacity, buffer_clear, buffer_contents, buffer_extend, buffer_freeze, buffer_len,
    buffer_resize, buffer_room, buffer_slice, buffer_slice_mut, buffer_with_capacity, resized, shared_contents,
    shared_len, shared_slice,
};
use crate::ratio::Ratio;
use crate::time::Duration;
use bytes::{Bytes, BytesMut};
use std::collections::VecDeque;
use vstd::arithmetic::power2::{lemma2_to64, lemma_pow2_pos, lemma_pow2_unfold, pow2};
use vstd::prelude::*;

verus! {

// ---------------------------------------------------------------------------
// Buffers
// ---------------------------------------------------------------------------

/// A buffer that may belong to a pool.
pub struct PooledBuffer {
    data: BytesMut,
    pool_index: Option<usize>,
}

impl View for PooledBuffer {
    type V = Seq<u8>;

    closed spec fn view(&self) -> Seq<u8> {
        buffer_contents(self.data)
    }
}

impl PooledBuffer {
    /// The pool that the buffer goes back to.
    pub closed spec fn home(&self) -> Option<usize> {
        self.pool_index
    }

    /// The room that the buffer was made with, in bytes.
    pub closed spec fn room(&self) -> nat {
        buffer_room(self.data)
    }

    /// An empty buffer with room for so many bytes, for a pool.
    pub fn new(size: usize, pool_index: Option<usize>) -> (b: Self)
        requires
            size <= isize::MAX,
        ensures
            b@.len() == 0,
            b.home() == pool_index,
            b.room() == size,
    {
        PooledBuffer { data: buffer_with_capacity(size), pool_index }
    }

    /// How much the buffer can hold; the allocator decides, but it is no less than
    /// what the buffer holds and than the room that it was made with.
    pub fn capacity(&self) -> (n: usize)
        ensures
            n >= self@.len(),
            n >= self.room(),
    {
        buffer_capacity(&self.data)
    }

    /// The number of bytes.
    pub fn len(&self) -> (n: usize)
        ensures
            n == self@.len(),
    {
        buffer_len(&self.data)
    }

    /// Whether there are no bytes.
    pub fn is_empty(&self) -> (b: bool)
        ensures
            b == (self@.len() == 0),
    {
        buffer_len(&self.data) == 0
    }

    /// Forgets the bytes.
    pub fn clear(&mut self)
        ensures
            final(self)@.len() == 0,
            final(self).home() == old(self).home(),
            final(self).room() == old(self).room(),
    {
        buffer_clear(&mut self.data);
    }

    /// Cuts the bytes off at a length, or fills them up to it.
    pub fn resize(&mut self, new_len: usize, value: u8)
        requires
            new_len <= isize::MAX,
        ensures
            final(self)@ == resized(old(self)@, new_len as nat, value),
            final(self).home() == old(self).home(),
            final(self).room() == old(self).room(),
    {
        buffer_resize(&mut self.data, new_len, value);
    }

    /// The bytes, to be changed in place.
    pub fn as_mut(&mut self) -> (s: &mut [u8])
        ensures
            s@ == old(self)@,
            final(self)@ == final(s)@,
            final(self).home() == old(self).home(),
            final(self).room() == old(self).room(),
    {
        buffer_slice_mut(&mut self.data)
    }

    /// The bytes.
    pub fn as_ref(&self) -> (s: &[u8])
        ensures
            s@ == self@,
    {
        buffer_slice(&self.data)
    }

    /// The bytes, to be shared.
    pub fn freeze(self) -> (b: Bytes)
        ensures
            shared_contents(b) == self@,
    {
        buffer_freeze(self.data)
    }

    /// Appends bytes.
    pub fn extend_from_slice(&mut self, data: &[u8])
        requires
            old(self)@.len() + data@.len() <= isize::MAX,
        ensures
            final(self)@ == old(self)@ + data@,
            final(self).home() == old(self).home(),
            final(self).room() == old(self).room(),
    {
        buffer_extend(&mut self.data, data);
    }
}

// ---------------------------------------------------------------------------
// Pools
// ---------------------------------------------------------------------------

/// Buffers of one size that wait to be used again.
pub struct SizePool {
    pub buffer_size: usize,
    pub available_buffers: VecDeque<PooledBuffer>,
    pub capacity: usize,
}

impl SizePool {
    /// No more buffers than allowed, all of them empty; and their bytes can be
    /// counted.
    pub open spec fn wf(&self) -> bool {
        &&& self.available_buffers@.len() <= self.capacity
        &&& forall|i: int|
            0 <= i < self.available_buffers@.len() ==> (
            #[trigger] self.available_buffers@[i])@.len() == 0
        &&& self.capacity * self.buffer_size <= usize::MAX
    }

    /// Every buffer goes back to the pool at an index.
    pub open spec fn belongs_at(&self, index: usize) -> bool {
        forall|i: int|
            0 <= i < self.available_buffers@.len() ==> (
            #[trigger] self.available_buffers@[i]).home() == Some(index)
    }

    /// No buffers yet.
    pub fn new(buffer_size: usize, capacity: usize) -> (p: Self)
        requires
            capacity * buffer_size <= usize::MAX,
        ensures
            p.wf(),
            p.buffer_size == buffer_size,
            p.capacity == capacity,
            p.available_buffers@.len() == 0,
    {
        SizePool { buffer_size, available_buffers: VecDeque::new(), capacity }
    }

    /// Takes the buffer that has waited longest, if there is one.
    pub fn get_buffer(&mut self) -> (r: Option<PooledBuffer>)
        requires
            old(self).wf(),
        ensures
            final(self).wf(),
            final(self).buffer_size == old(self).buffer_size,
            final(self).capacity == old(self).capacity,
            old(self).available_buffers@.len() == 0 ==> r is None && *final(self) == *old(self),
            old(self).available_buffers@.len() > 0 ==> {
                &&& r == Some(old(self).available_buffers@[0])
                &&& r->0@.len() == 0
                &&& final(self).available_buffers@ == old(self).available_buffers@.subrange(
                    1,
                    old(self).available_buffers@.len() as int,
                )
            },
    {
        if self.available_buffers.len() == 0 {
            return None;
        }
        let r = self.available_buffers.pop_front();
        assert forall|i: int| 0 <= i < self.available_buffers@.len() implies (
        #[trigger] self.available_buffers@[i])@.len() == 0 by {
            assert(self.available_buffers@[i] == old(self).available_buffers@[i + 1]);
        }
        r
    }

    /// Empties a buffer and keeps it, where there is room.
    pub fn return_buffer(&mut self, buffer: PooledBuffer)
        requires
            old(self).wf(),
        ensures
            final(self).wf(),
            final(self).buffer_size == old(self).buffer_size,
            final(self).capacity == old(self).capacity,
            old(self).available_buffers@.len() >= old(self).capacity ==> final(self).available_buffers@ == old(self).available_buffers@,
            old(self).available_buffers@.len() < old(self).capacity ==> {
                &&& final(self).available_buffers@.len() == old(self).available_buffers@.len() + 1
                &&& final(self).available_buffers@.drop_last() == old(self).available_buffers@
                &&& final(self).available_buffers@.last()@.len() == 0
                &&& final(self).available_buffers@.last().home() == buffer.home()
                &&& final(self).available_buffers@.last().room() == buffer.room()
            },
    {
        let mut buffer = buffer;
        buffer.clear();
        if self.available_buffers.len() < self.capacity {
            self.available_buffers.push_back(buffer);
            assert(self.available_buffers@.drop_last() =~= old(self).available_buffers@);
        }
    }

    /// How many of some buffers are collected: half of them, rounded up.
    pub open spec fn half(n: nat) -> nat {
        ((n + 1) / 2) as nat
    }

    /// Drops half of the buffers, and tells their bytes.
    pub fn gc(&mut self) -> (freed: usize)
        requires
            old(self).wf(),
        ensures
            final(self).wf(),
            final(self).buffer_size == old(self).buffer_size,
            final(self).capacity == old(self).capacity,
            freed == Self::half(old(self).available_buffers@.len()) * old(self).buffer_size,
            final(self).available_buffers@ == old(self).available_buffers@.subrange(
                0,
                old(self).available_buffers@.len() - Self::half(
                    old(self).available_buffers@.len(),
                ),
            ),
    {
        let available: usize = self.available_buffers.len();
        let to_remove: usize = available / 2 + available % 2;
        proof {
            let c = self.capacity as int;
            let b = self.buffer_size as int;
            let r = to_remove as int;
            assert(r * b <= c * b) by (nonlinear_arith)
                requires
                    0 <= r <= c,
                    b >= 0,
            ;
        }
        let freed: usize = to_remove * self.buffer_size;
        let mut i: usize = 0;
        while i < to_remove
            invariant
                i <= to_remove <= available,
                available == old(self).available_buffers@.len(),
                old(self).wf(),
                self.wf(),
                self.buffer_size == old(self).buffer_size,
                self.capacity == old(self).capacity,
                self.available_buffers@ == old(self).available_buffers@.subrange(
                    0,
                    available - i,
                ),
            decreases to_remove - i,
        {
            self.available_buffers.pop_back();
            i += 1;
            assert(self.available_buffers@ =~= old(self).available_buffers@.subrange(
                0,
                available - i,
            ));
        }
        freed
    }
}

/// How memory is managed.
#[derive(Clone, Copy, Debug, PartialEq, Eq, Structural)]
pub struct MemoryConfig {
    /// Bytes in all pools together.
    pub pool_size: usize,
    pub max_buffer_size: usize,
    pub min_buffer_size: usize,
    pub pool_growth_factor: Ratio,
    pub max_pools: usize,
}

impl MemoryConfig {
    /// The sizes of the pools can be computed.
    pub open spec fn wf(self) -> bool {
        &&& self.min_buffer_size > 0
        &&& self.max_buffer_size * 2 <= usize::MAX
        &&& self.max_buffer_size * self.max_pools <= usize::MAX
    }

    /// The size of the buffers in a pool: doubled from pool to pool.
    pub open spec fn size_at(self, i: nat) -> nat {
        self.min_buffer_size as nat * pow2(i)
    }

    /// How many buffers a pool of a size keeps.
    pub open spec fn capacity_for(self, size: nat) -> nat {
        (self.pool_size as nat / (size * self.max_pools as nat)) as nat
    }
}

/// Pools of buffers, by size.
pub struct BufferPool {
    pub pools: Vec<SizePool>,
    pub config: MemoryConfig,
    /// Bytes handed out.
    pub total_allocated: usize,
    pub total_capacity: usize,
}

/// The sum of two sizes, round the end.
pub open spec fn wrapped_size(a: usize, b: usize) -> usize {
    if a + b > usize::MAX {
        (a + b - usize::MAX - 1) as usize
    } else {
        (a + b) as usize
    }
}

/// The pool for a size: the first whose buffers are large enough.
pub open spec fn pool_for(pools: Seq<SizePool>, size: usize, r: Option<usize>) -> bool {
    match r {
        Some(i) => {
            &&& i < pools.len()
            &&& size <= pools[i as int].buffer_size
            &&& forall|j: int| 0 <= j < i ==> size > (#[trigger] pools[j]).buffer_size
        },
        None => forall|j: int| 0 <= j < pools.len() ==> size > (#[trigger] pools[j]).buffer_size,
    }
}

impl BufferPool {
    /// Each pool keeps its own buffers, and all of them together no more than
    /// allowed.
    pub open spec fn wf(&self) -> bool {
        &&& self.pools@.len() <= self.config.max_pools
        &&& forall|i: int|
            0 <= i < self.pools@.len() ==> {
                &&& (#[trigger] self.pools@[i]).wf()
                &&& self.pools@[i].belongs_at(i as usize)
                &&& self.pools@[i].capacity * self.pools@[i].buffer_size * self.config.max_pools
                    <= self.config.pool_size
            }
    }

    /// Two pools have the same pools but for what they hold.
    pub open spec fn same_shape(&self, other: &BufferPool) -> bool {
        &&& self.config == other.config
        &&& self.total_capacity == other.total_capacity
        &&& self.pools@.len() == other.pools@.len()
        &&& forall|i: int|
            0 <= i < self.pools@.len() ==> {
                &&& (#[trigger] self.pools@[i]).buffer_size == other.pools@[i].buffer_size
                &&& self.pools@[i].capacity == other.pools@[i].capacity
            }
    }

    /// No buffer was handed out, and none waits. There is a pool for each size from
    /// the smallest to the largest, each twice the one before, as many as allowed.
    pub open spec fn fresh(&self, config: MemoryConfig) -> bool {
        &&& self.config == config
        &&& self.total_allocated == 0
        &&& self.total_capacity == config.pool_size
        &&& forall|i: int|
            0 <= i < self.pools@.len() ==> {
                &&& (#[trigger] self.pools@[i]).buffer_size == config.size_at(i as nat)
                &&& self.pools@[i].buffer_size <= config.max_buffer_size
                &&& self.pools@[i].capacity == config.capacity_for(config.size_at(i as nat))
                &&& self.pools@[i].available_buffers@.len() == 0
            }
        &&& self.pools@.len() == config.max_pools || config.size_at(self.pools@.len())
            > config.max_buffer_size
    }

    /// Pools for sizes from the smallest to the largest, each double the one
    /// before, as many as allowed.
    pub fn new(config: &MemoryConfig) -> (p: Self)
        requires
            config.wf(),
        ensures
            p.wf(),
            p.fresh(*config),
    {
        let mut pools: Vec<SizePool> = Vec::new();
        let mut size: usize = config.min_buffer_size;
        proof {
            lemma2_to64();
            assert(config.min_buffer_size as nat * pow2(0) == config.min_buffer_size)
                by (nonlinear_arith)
                requires
                    pow2(0) == 1,
            ;
        }
        while size <= config.max_buffer_size && pools.len() < config.max_pools
            invariant
                config.wf(),
                size > 0,
                size == config.size_at(pools@.len()),
                pools@.len() <= config.max_pools,
                forall|i: int|
                    0 <= i < pools@.len() ==> {
                        &&& (#[trigger] pools@[i]).wf()
                        &&& pools@[i].buffer_size == config.size_at(i as nat)
                        &&& pools@[i].buffer_size <= config.max_buffer_size
                        &&& pools@[i].capacity == config.capacity_for(config.size_at(i as nat))
                        &&& pools@[i].available_buffers@.len() == 0
                        &&& pools@[i].capacity * pools@[i].buffer_size * config.max_pools
                            <= config.pool_size
                    },
            decreases config.max_pools - pools@.len(),
        {
            let ghost n = pools@.len();
            let m: usize = config.max_pools;
            proof {
                let s = size as int;
                let k = m as int;
                let top = config.max_buffer_size as int;
                assert(s * k <= top * k) by (nonlinear_arith)
                    requires
                        0 <= s <= top,
                        k >= 0,
                ;
                assert(s * k > 0) by (nonlinear_arith)
                    requires
                        s > 0,
                        k > 0,
                ;
            }
            let pool_capacity: usize = config.pool_size / (size * m);
            proof {
                let s = size as int;
                let k = m as int;
                let c = pool_capacity as int;
                let total = config.pool_size as int;
                assert(c * (s * k) <= total) by (nonlinear_arith)
                    requires
                        c == total / (s * k),
                        s * k > 0,
                        total >= 0,
                ;
                assert(c * s * k == c * (s * k)) by (nonlinear_arith);
                assert(c * s <= c * s * k) by (nonlinear_arith)
                    requires
                        c >= 0,
                        s > 0,
                        k > 0,
                ;
            }
            pools.push(SizePool::new(size, pool_capacity));
            proof {
                lemma_pow2_unfold((n + 1) as nat);
                assert(config.min_buffer_size as nat * pow2((n + 1) as nat) == 2 * (
                config.min_buffer_size as nat * pow2(n))) by (nonlinear_arith)
                    requires
                        pow2((n + 1) as nat) == 2 * pow2(n),
                ;
            }
            size = size * 2;
        }
        BufferPool {
            pools,
            config: *config,
            total_allocated: 0,
            total_capacity: config.pool_size,
        }
    }

    /// The first pool whose buffers are large enough.
    pub fn find_pool_for_size(&self, size: usize) -> (r: Option<usize>)
        ensures
            pool_for(self.pools@, size, r),
    {
        let mut i: usize = 0;
        while i < self.pools.len()
            invariant
                i <= self.pools@.len(),
                forall|j: int| 0 <= j < i ==> size > (#[trigger] self.pools@[j]).buffer_size,
            decreases self.pools@.len() - i,
        {
            if size <= self.pools[i].buffer_size {
                return Some(i);
            }
            i += 1;
        }
        None
    }

    /// What handing out a buffer does: the pool for the size gives the buffer that
    /// has waited longest there; where none waits, a fresh one is made, which goes
    /// back to the pool if it has exactly its size.
    pub open spec fn handed_out(
        before: BufferPool,
        after: BufferPool,
        size: usize,
        b: PooledBuffer,
    ) -> bool {
        &&& after.same_shape(&before)
        &&& b@.len() == 0
        &&& exists|n: usize|
            n >= b.room() && after.total_allocated == #[trigger] wrapped_size(
                before.total_allocated,
                n,
            )
        &&& exists|r: Option<usize>|
            {
                &&& #[trigger] pool_for(before.pools@, size, r)
                &&& match r {
                    Some(i) => {
                        let waiting = before.pools@[i as int].available_buffers@;
                        &&& waiting.len() > 0 ==> {
                            &&& b == waiting[0]
                            &&& after.pools@ == before.pools@.update(
                                i as int,
                                after.pools@[i as int],
                            )
                            &&& after.pools@[i as int].available_buffers@ == waiting.subrange(
                                1,
                                waiting.len() as int,
                            )
                        }
                        &&& waiting.len() == 0 ==> {
                            &&& after.pools@ == before.pools@
                            &&& b.room() == size
                            &&& b.home() == (if before.pools@[i as int].buffer_size == size {
                                Some(i)
                            } else {
                                None
                            })
                        }
                    },
                    None => {
                        &&& after.pools@ == before.pools@
                        &&& b.room() == size
                        &&& b.home() is None
                    },
                }
            }
    }

    /// No buffer waits.
    pub open spec fn idle(&self) -> bool {
        forall|i: int|
            0 <= i < self.pools@.len() ==> (#[trigger] self.pools@[i]).available_buffers@.len() == 0
    }

    /// Every buffer that waits has the room of its pool's buffers.
    pub open spec fn roomy(&self) -> bool {
        forall|i: int, j: int|
            0 <= i < self.pools@.len() && 0 <= j < self.pools@[i].available_buffers@.len() ==> (
            #[trigger] self.pools@[i].available_buffers@[j]).room() >= self.pools@[i].buffer_size
    }

    /// The buffer has the room of the buffers of the pool that it goes back to.
    pub open spec fn suits(&self, b: PooledBuffer) -> bool {
        b.home() is Some && b.home()->0 < self.pools@.len() ==> b.room()
            >= self.pools@[b.home()->0 as int].buffer_size
    }

    /// Hands out a buffer for so many bytes.
    pub fn get_buffer(&mut self, size: usize) -> (b: PooledBuffer)
        requires
            old(self).wf(),
            size <= isize::MAX,
        ensures
            final(self).wf(),
            Self::handed_out(*old(self), *final(self), size, b),
            old(self).idle() ==> b.room() == size && final(self).idle(),
            old(self).roomy() ==> b.room() >= size && final(self).roomy() && final(self).suits(b),
    {
        let index = self.find_pool_for_size(size);
        let mut home: Option<usize> = None;
        if let Some(i) = index {
            let ghost before = self.pools@;
            assert(before[i as int].wf() && before[i as int].belongs_at(i));
            let p = &mut self.pools[i];
            let exact = p.buffer_size == size;
            let taken = p.get_buffer();
            proof {
                let waiting = before[i as int].available_buffers@;
                let after = self.pools@[i as int];
                assert(after.belongs_at(i)) by {
                    assert forall|j: int| 0 <= j < after.available_buffers@.len() implies (
                    #[trigger] after.available_buffers@[j]).home() == Some(i) by {
                        if waiting.len() > 0 {
                            assert(after.available_buffers@[j] == waiting[j + 1]);
                        } else {
                            assert(after.available_buffers@[j] == waiting[j]);
                        }
                    }
                }
                assert(self.pools@ =~= before.update(i as int, after));
            }
            if let Some(b) = taken {
                let n: usize = b.capacity();
                self.total_allocated = self.total_allocated.wrapping_add(n);
                proof {
                    assert(self.total_allocated == wrapped_size(old(self).total_allocated, n));
                    assert(Self::handed_out(*old(self), *self, size, b));
                    lemma_room_is_kept(*old(self), *self, size, b);
                }
                return b;
            }
            assert(self.pools@ =~= before);
            if exact {
                home = Some(i);
            }
        }
        let b = PooledBuffer::new(size, home);
        let n: usize = b.capacity();
        self.total_allocated = self.total_allocated.wrapping_add(n);
        proof {
            assert(self.total_allocated == wrapped_size(old(self).total_allocated, n));
            assert(pool_for(old(self).pools@, size, index));
            assert(Self::handed_out(*old(self), *self, size, b));
            lemma_room_is_kept(*old(self), *self, size, b);
        }
        b
    }

    /// A buffer was given back: emptied, it waits in the pool it belongs to, behind
    /// those that wait there, where that pool has room for it.
    pub open spec fn given_back(
        before: BufferPool,
        after: BufferPool,
        buffer: PooledBuffer,
    ) -> bool {
        let home = buffer.home();
        &&& after.same_shape(&before)
        &&& exists|n: usize|
            n >= buffer.room() && before.total_allocated == #[trigger] wrapped_size(
                after.total_allocated,
                n,
            )
        &&& forall|i: int|
            0 <= i < before.pools@.len() && home != Some(i as usize)
                ==> #[trigger] after.pools@[i] == before.pools@[i]
        &&& home is Some && home->0 < before.pools@.len() ==> {
            let pool = before.pools@[home->0 as int];
            let waiting = after.pools@[home->0 as int].available_buffers@;
            if pool.available_buffers@.len() < pool.capacity {
                &&& waiting.len() == pool.available_buffers@.len() + 1
                &&& waiting.drop_last() == pool.available_buffers@
                &&& waiting.last()@.len() == 0
                &&& waiting.last().home() == home
                &&& waiting.last().room() == buffer.room()
            } else {
                waiting == pool.available_buffers@
            }
        }
    }

    /// Takes a buffer back: it is emptied and kept in its pool where there is
    /// room, and dropped otherwise.
    pub fn return_buffer(&mut self, buffer: PooledBuffer)
        requires
            old(self).wf(),
        ensures
            final(self).wf(),
            Self::given_back(*old(self), *final(self), buffer),
            old(self).roomy() && old(self).suits(buffer) ==> final(self).roomy(),
    {
        let n: usize = buffer.capacity();
        self.total_allocated = self.total_allocated.wrapping_sub(n);
        assert(old(self).total_allocated == wrapped_size(self.total_allocated, n));
        if let Some(i) = buffer.pool_index {
            if i < self.pools.len() {
                let ghost before = self.pools@;
                assert(before[i as int].wf() && before[i as int].belongs_at(i));
                let p = &mut self.pools[i];
                p.return_buffer(buffer);
                proof {
                    let waiting = before[i as int].available_buffers@;
                    let after = self.pools@[i as int];
                    assert(after.belongs_at(i)) by {
                        assert forall|j: int| 0 <= j < after.available_buffers@.len() implies (
                        #[trigger] after.available_buffers@[j]).home() == Some(i) by {
                            if j < waiting.len() {
                                if waiting.len() < before[i as int].capacity {
                                    assert(after.available_buffers@.drop_last()[j] == waiting[j]);
                                }
                                assert(after.available_buffers@[j] == waiting[j]);
                            }
                        }
                    }
                }
            }
        }
        proof {
            assert(old(self).total_allocated == wrapped_size(self.total_allocated, n));
            assert(self.same_shape(old(self)));
            assert(Self::given_back(*old(self), *self, buffer));
            lemma_return_keeps_room(*old(self), *self, buffer);
        }
    }

    /// The older half of the buffers that waited in each pool, rounded down, is left.
    pub open spec fn collected(before: BufferPool, after: BufferPool) -> bool {
        &&& after.total_allocated == before.total_allocated
        &&& forall|i: int|
            0 <= i < before.pools@.len() ==> {
                let waiting = before.pools@[i].available_buffers@;
                (#[trigger] after.pools@[i]).available_buffers@ == waiting.subrange(
                    0,
                    waiting.len() - SizePool::half(waiting.len()),
                )
            }
    }

    /// The bytes that a collection frees in the first so many pools.
    pub open spec fn collectable(pools: Seq<SizePool>, count: nat) -> nat
        decreases count,
    {
        if count == 0 {
            0
        } else {
            let p = pools[count - 1];
            Self::collectable(pools, (count - 1) as nat) + SizePool::half(
                p.available_buffers@.len(),
            ) * p.buffer_size as nat
        }
    }

    /// Drops half of the buffers that wait in each pool, and tells their bytes.
    pub fn gc(&mut self) -> (freed: usize)
        requires
            old(self).wf(),
        ensures
            final(self).wf(),
            final(self).same_shape(old(self)),
            freed == Self::collectable(old(self).pools@, old(self).pools@.len()),
            Self::collected(*old(self), *final(self)),
            old(self).roomy() ==> final(self).roomy(),
    {
        let mut freed: usize = 0;
        let mut i: usize = 0;
        let ghost before = self.pools@;
        let ghost m = self.config.max_pools as int;
        let ghost total = self.config.pool_size as int;
        assert(0 * m <= 0 * total) by (nonlinear_arith);
        while i < self.pools.len()
            invariant
                self.wf(),
                self.config == old(self).config,
                self.total_capacity == old(self).total_capacity,
                self.total_allocated == old(self).total_allocated,
                before == old(self).pools@,
                m == self.config.max_pools,
                total == self.config.pool_size,
                i <= self.pools@.len(),
                self.pools@.len() == before.len(),
                freed == Self::collectable(before, i as nat),
                freed * m <= i * total,
                forall|j: int|
                    0 <= j < before.len() ==> {
                        &&& (#[trigger] self.pools@[j]).buffer_size == before[j].buffer_size
                        &&& self.pools@[j].capacity == before[j].capacity
                    },
                forall|j: int|
                    0 <= j < i ==> {
                        let waiting = before[j].available_buffers@;
                        (#[trigger] self.pools@[j]).available_buffers@ == waiting.subrange(
                            0,
                            waiting.len() - SizePool::half(waiting.len()),
                        )
                    },
                forall|j: int| i <= j < before.len() ==> #[trigger] self.pools@[j] == before[j],
            decreases self.pools@.len() - i,
        {
            assert(self.pools@[i as int] == before[i as int]);
            let ghost q = before[i as int];
            assert(q.wf() && q.belongs_at(i));
            let p = &mut self.pools[i];
            let here: usize = p.gc();
            proof {
                let after = self.pools@[i as int];
                assert(after.belongs_at(i)) by {
                    assert forall|j: int| 0 <= j < after.available_buffers@.len() implies (
                    #[trigger] after.available_buffers@[j]).home() == Some(i) by {
                        assert(after.available_buffers@[j] == q.available_buffers@[j]);
                    }
                }
                let h = SizePool::half(q.available_buffers@.len()) as int;
                let b = q.buffer_size as int;
                let c = q.capacity as int;
                assert(h * b <= c * b) by (nonlinear_arith)
                    requires
                        0 <= h <= c,
                        b >= 0,
                ;
                assert(h * b * m <= c * b * m) by (nonlinear_arith)
                    requires
                        h * b <= c * b,
                        m >= 0,
                ;
                assert(c * b * m <= total);
                assert((freed + here) * m == freed * m + here * m) by (nonlinear_arith);
                assert(here * m == h * b * m);
                assert((i + 1) * total == i * total + total) by (nonlinear_arith);
                assert((i + 1) * total <= m * total) by (nonlinear_arith)
                    requires
                        i + 1 <= m,
                        total >= 0,
                ;
                let f = freed + here;
                assert(f <= total) by (nonlinear_arith)
                    requires
                        f * m <= m * total,
                        m > 0,
                ;
            }
            freed = freed + here;
            i += 1;
        }
        freed
    }
}

// ---------------------------------------------------------------------------
// Statistics
// ---------------------------------------------------------------------------

/// What was done, and how long it took.
#[derive(Clone, Copy, Debug, PartialEq, Eq, Structural)]
pub struct MemoryStats {
    pub buffer_allocations: u64,
    pub buffer_deallocations: u64,
    pub batch_allocations: u64,
    pub zero_copy_operations: u64,
    pub gc_operations: u64,
    pub bytes_freed: u64,
    pub allocation_time_ns: u64,
    pub deallocation_time_ns: u64,
}

impl MemoryStats {
    /// Nothing was done.
    pub open spec fn none() -> MemoryStats {
        MemoryStats {
            buffer_allocations: 0,
            buffer_deallocations: 0,
            batch_allocations: 0,
            zero_copy_operations: 0,
            gc_operations: 0,
            bytes_freed: 0,
            allocation_time_ns: 0,
            deallocation_time_ns: 0,
        }
    }

    /// So many buffers more handed out, which took so long.
    pub open spec fn with_allocations(self, count: nat, nanos: u64) -> MemoryStats {
        MemoryStats {
            buffer_allocations: wrapped_sum(self.buffer_allocations, counted(count)),
            allocation_time_ns: wrapped_sum(self.allocation_time_ns, nanos),
            ..self
        }
    }

    /// One buffer more taken back, which took so long.
    pub open spec fn with_deallocation(self, nanos: u64) -> MemoryStats {
        MemoryStats {
            buffer_deallocations: wrapped_sum(self.buffer_deallocations, 1),
            deallocation_time_ns: wrapped_sum(self.deallocation_time_ns, nanos),
            ..self
        }
    }

    /// Buffers handed out per second over a span.
    pub open spec fn allocation_rate_spec(self, duration: Duration) -> Ratio {
        Ratio::of_spec(self.buffer_allocations * 1_000_000_000, duration.nanos as int)
    }

    /// Buffers handed out per second over a span.
    pub fn allocation_rate(&self, duration: Duration) -> (r: Ratio)
        ensures
            r == self.allocation_rate_spec(duration),
            r == Ratio::of_spec(self.buffer_allocations * 1_000_000_000, duration.nanos as int),
    {
        Ratio::of(self.buffer_allocations as u128 * 1_000_000_000, duration.nanos)
    }

    /// Nanoseconds per buffer handed out.
    pub open spec fn avg_allocation_latency_ns_spec(self) -> Ratio {
        Ratio::of_spec(self.allocation_time_ns as int, self.buffer_allocations as int)
    }

    /// Nanoseconds per buffer handed out.
    pub fn avg_allocation_latency_ns(&self) -> (r: Ratio)
        ensures
            r == self.avg_allocation_latency_ns_spec(),
            r == Ratio::of_spec(self.allocation_time_ns as int, self.buffer_allocations as int),
    {
        Ratio::of(self.allocation_time_ns as u128, self.buffer_allocations as u128)
    }

    /// Buffers taken back per buffer handed out.
    pub open spec fn memory_efficiency_spec(self) -> Ratio {
        Ratio::of_spec(self.buffer_deallocations as int, self.buffer_allocations as int)
    }

    /// Buffers taken back per buffer handed out.
    pub fn memory_efficiency(&self) -> (r: Ratio)
        ensures
            r == self.memory_efficiency_spec(),
            r == Ratio::of_spec(self.buffer_deallocations as int, self.buffer_allocations as int),
    {
        Ratio::of(self.buffer_deallocations as u128, self.buffer_allocations as u128)
    }
}

impl Default for MemoryStats {
    fn default() -> (s: Self)
        ensures
            s == MemoryStats::none(),
    {
        MemoryStats {
            buffer_allocations: 0,
            buffer_deallocations: 0,
            batch_allocations: 0,
            zero_copy_operations: 0,
            gc_operations: 0,
            bytes_freed: 0,
            allocation_time_ns: 0,
            deallocation_time_ns: 0,
        }
    }
}

// ---------------------------------------------------------------------------
// The manager
// ---------------------------------------------------------------------------

/// What can go wrong.
#[derive(Clone, Copy, Debug, PartialEq, Eq, Structural)]
pub enum MemoryError {
    /// A slice reaches beyond its data.
    SliceOutOfBounds,
}

impl MemoryError {
    /// What the error says.
    pub fn message(&self) -> (s: &'static str)
        ensures
            s@ == "Slice bounds exceed data length"@,
    {
        "Slice bounds exceed data length"
    }
}

/// Buffers were handed out one after the other, each by the pool as the one before
/// left it.
pub open spec fn handed_out_in_turn(
    pools: Seq<BufferPool>,
    sizes: Seq<usize>,
    buffers: Seq<PooledBuffer>,
) -> bool {
    &&& pools.len() == sizes.len() + 1
    &&& buffers.len() == sizes.len()
    &&& forall|i: int|
        0 <= i < sizes.len() ==> BufferPool::handed_out(
            #[trigger] pools[i],
            pools[i + 1],
            sizes[i],
            buffers[i],
        )
}

/// The memory of a node.
pub struct MemoryManager {
    pub buffer_pool: BufferPool,
    pub stats: MemoryStats,
    pub config: MemoryConfig,
}

impl MemoryManager {
    pub open spec fn wf(&self) -> bool {
        self.buffer_pool.wf()
    }

    /// Pools of buffers from one to sixty-four KiB, with so many bytes together.
    pub fn new(pool_size: usize) -> (m: Self)
        ensures
            m.wf(),
            m.stats == MemoryStats::none(),
            m.config == (MemoryConfig {
                pool_size,
                max_buffer_size: 65536,
                min_buffer_size: 1024,
                pool_growth_factor: Ratio { numer: 3, denom: 2 },
                max_pools: 16,
            }),
            m.buffer_pool.fresh(m.config),
            m.buffer_pool.pools@.len() == 7,
            m.buffer_pool.idle(),
            m.buffer_pool.roomy(),
    {
        let config = MemoryConfig {
            pool_size,
            max_buffer_size: 65536,
            min_buffer_size: 1024,
            pool_growth_factor: Ratio { numer: 3, denom: 2 },
            max_pools: 16,
        };
        let buffer_pool = BufferPool::new(&config);
        proof {
            let n = buffer_pool.pools@.len();
            lemma2_to64();
            if n > 7 {
                assert(buffer_pool.pools@[7].buffer_size == config.size_at(7));
            } else if n < 7 {
                assert(n == 0 || n == 1 || n == 2 || n == 3 || n == 4 || n == 5 || n == 6);
            }
        }
        MemoryManager { buffer_pool, stats: MemoryStats::default(), config }
    }

    /// Hands out an empty buffer for so many bytes.
    pub fn get_buffer(&mut self, size: usize) -> (b: PooledBuffer)
        requires
            old(self).wf(),
            size <= isize::MAX,
        ensures
            final(self).wf(),
            final(self).config == old(self).config,
            BufferPool::handed_out(old(self).buffer_pool, final(self).buffer_pool, size, b),
            old(self).buffer_pool.idle() ==> b.room() == size && final(self).buffer_pool.idle(),
            old(self).buffer_pool.roomy() ==> b.room() >= size && final(self).buffer_pool.roomy()
                && final(self).buffer_pool.suits(b),
            exists|nanos: u64|
                final(self).stats == #[trigger] old(self).stats.with_allocations(1, nanos),
    {
        let watch = Stopwatch::start();
        let b = self.buffer_pool.get_buffer(size);
        let nanos: u64 = watch.elapsed_nanos();
        let ghost before = self.stats;
        self.stats.buffer_allocations = add_wrapping(self.stats.buffer_allocations, 1);
        self.stats.allocation_time_ns = add_wrapping(self.stats.allocation_time_ns, nanos);
        assert(self.stats == before.with_allocations(1, nanos));
        b
    }

    /// Takes a buffer back.
    pub fn return_buffer(&mut self, buffer: PooledBuffer)
        requires
            old(self).wf(),
        ensures
            final(self).wf(),
            final(self).config == old(self).config,
            BufferPool::given_back(old(self).buffer_pool, final(self).buffer_pool, buffer),
            old(self).buffer_pool.roomy() && old(self).buffer_pool.suits(buffer)
                ==> final(self).buffer_pool.roomy(),
            exists|nanos: u64|
                final(self).stats == #[trigger] old(self).stats.with_deallocation(nanos),
    {
        let watch = Stopwatch::start();
        self.buffer_pool.return_buffer(buffer);
        let nanos: u64 = watch.elapsed_nanos();
        let ghost before = self.stats;
        self.stats.buffer_deallocations = add_wrapping(self.stats.buffer_deallocations, 1);
        self.stats.deallocation_time_ns = add_wrapping(self.stats.deallocation_time_ns, nanos);
        assert(self.stats == before.with_deallocation(nanos));
    }

    /// A part of shared bytes, without copying them; an error where it reaches
    /// beyond them.
    pub fn zero_copy_slice(&mut self, data: &Bytes, offset: usize, length: usize) -> (r: Result<
        Bytes,
        MemoryError,
    >)
        requires
            old(self).wf(),
            offset + length <= usize::MAX,
        ensures
            final(self).wf(),
            final(self).config == old(self).config,
            final(self).buffer_pool == old(self).buffer_pool,
            r is Ok <==> offset + length <= shared_contents(*data).len(),
            r is Err ==> r->Err_0 == MemoryError::SliceOutOfBounds && final(self).stats == old(self).stats,
            r is Ok ==> {
                &&& shared_contents(r->Ok_0) == shared_contents(*data).subrange(
                    offset as int,
                    offset + length,
                )
                &&& final(self).stats == (MemoryStats {
                    zero_copy_operations: wrapped_sum(old(self).stats.zero_copy_operations, 1),
                    ..old(self).stats
                })
            },
    {
        if offset + length > shared_len(data) {
            return Err(MemoryError::SliceOutOfBounds);
        }
        let slice = shared_slice(data, offset, offset + length);
        self.stats.zero_copy_operations = add_wrapping(self.stats.zero_copy_operations, 1);
        Ok(slice)
    }

    /// Hands out an empty buffer for each of some sizes.
    pub fn allocate_batch(&mut self, sizes: &[usize]) -> (buffers: Vec<PooledBuffer>)
        requires
            old(self).wf(),
            forall|i: int| 0 <= i < sizes@.len() ==> #[trigger] sizes@[i] <= isize::MAX,
        ensures
            final(self).wf(),
            final(self).config == old(self).config,
            final(self).buffer_pool.same_shape(&old(self).buffer_pool),
            buffers@.len() == sizes@.len(),
            exists|pools: Seq<BufferPool>| #[trigger]
                handed_out_in_turn(pools, sizes@, buffers@) && pools[0] == old(self).buffer_pool
                    && pools.last() == final(self).buffer_pool,
            old(self).buffer_pool.idle() ==> final(self).buffer_pool.idle() && forall|i: int|
                0 <= i < sizes@.len() ==> (#[trigger] buffers@[i]).room() == sizes@[i],
            old(self).buffer_pool.roomy() ==> final(self).buffer_pool.roomy() && forall|i: int|
                0 <= i < sizes@.len() ==> (#[trigger] buffers@[i]).room() >= sizes@[i],
            exists|nanos: u64|
                final(self).stats == (MemoryStats {
                    batch_allocations: wrapped_sum(old(self).stats.batch_allocations, 1),
                    ..#[trigger] old(self).stats.with_allocations(sizes@.len(), nanos)
                }),
    {
        let watch = Stopwatch::start();
        let mut buffers: Vec<PooledBuffer> = Vec::new();
        let mut i: usize = 0;
        let ghost mut pools = seq![self.buffer_pool];
        assert(sizes@.subrange(0, 0) =~= Seq::<usize>::empty());
        while i < sizes.len()
            invariant
                self.wf(),
                self.config == old(self).config,
                self.stats == old(self).stats,
                self.buffer_pool.same_shape(&old(self).buffer_pool),
                i <= sizes@.len(),
                forall|j: int| 0 <= j < sizes@.len() ==> #[trigger] sizes@[j] <= isize::MAX,
                buffers@.len() == i,
                handed_out_in_turn(pools, sizes@.subrange(0, i as int), buffers@),
                pools[0] == old(self).buffer_pool,
                pools.last() == self.buffer_pool,
                old(self).buffer_pool.idle() ==> self.buffer_pool.idle() && forall|j: int|
                    0 <= j < i ==> (#[trigger] buffers@[j]).room() == sizes@[j],
                old(self).buffer_pool.roomy() ==> self.buffer_pool.roomy() && forall|j: int|
                    0 <= j < i ==> (#[trigger] buffers@[j]).room() >= sizes@[j],
            decreases sizes@.len() - i,
        {
            assert(sizes@[i as int] <= isize::MAX);
            let ghost taken = buffers@;
            let ghost states = pools;
            let b = self.buffer_pool.get_buffer(sizes[i]);
            buffers.push(b);
            i += 1;
            proof {
                pools = pools.push(self.buffer_pool);
                let asked = sizes@.subrange(0, i as int);
                let before = sizes@.subrange(0, i - 1);
                assert forall|j: int| 0 <= j < asked.len() implies BufferPool::handed_out(
                    #[trigger] pools[j],
                    pools[j + 1],
                    asked[j],
                    buffers@[j],
                ) by {
                    if j < i - 1 {
                        assert(BufferPool::handed_out(
                            states[j],
                            states[j + 1],
                            before[j],
                            taken[j],
                        ));
                    }
                }
            }
        }
        assert(sizes@.subrange(0, i as int) =~= sizes@);
        let nanos: u64 = watch.elapsed_nanos();
        let ghost before = self.stats;
        self.stats.buffer_allocations =
        add_wrapping(self.stats.buffer_allocations, sizes.len() as u64);
        self.stats.batch_allocations = add_wrapping(self.stats.batch_allocations, 1);
        self.stats.allocation_time_ns = add_wrapping(self.stats.allocation_time_ns, nanos);
        assert(self.stats == (MemoryStats {
            batch_allocations: wrapped_sum(before.batch_allocations, 1),
            ..before.with_allocations(sizes@.len(), nanos)
        }));
        buffers
    }

    /// What was done so far.
    pub fn get_stats(&self) -> (s: MemoryStats)
        ensures
            s == self.stats,
    {
        self.stats
    }

    /// Drops half of the buffers that wait in each pool, and tells their bytes.
    pub fn gc(&mut self) -> (freed: usize)
        requires
            old(self).wf(),
        ensures
            final(self).wf(),
            final(self).config == old(self).config,
            final(self).buffer_pool.same_shape(&old(self).buffer_pool),
            freed == BufferPool::collectable(
                old(self).buffer_pool.pools@,
                old(self).buffer_pool.pools@.len(),
            ),
            BufferPool::collected(old(self).buffer_pool, final(self).buffer_pool),
            old(self).buffer_pool.roomy() ==> final(self).buffer_pool.roomy(),
            final(self).stats == (MemoryStats {
                gc_operations: wrapped_sum(old(self).stats.gc_operations, 1),
                bytes_freed: wrapped_sum(old(self).stats.bytes_freed, freed as u64),
                ..old(self).stats
            }),
    {
        let freed: usize = self.buffer_pool.gc();
        self.stats.gc_operations = add_wrapping(self.stats.gc_operations, 1);
        self.stats.bytes_freed = add_wrapping(self.stats.bytes_freed, freed as u64);
        freed
    }
}

/// A collection frees something wherever a buffer waits.
pub proof fn gc_frees_something(pools: Seq<SizePool>, i: int)
    requires
        0 <= i < pools.len(),
        pools[i].available_buffers@.len() > 0,
        pools[i].buffer_size > 0,
    ensures
        BufferPool::collectable(pools, pools.len()) > 0,
{
    lemma_collectable_positive(pools, i, pools.len());
}

proof fn lemma_collectable_positive(pools: Seq<SizePool>, i: int, count: nat)
    requires
        0 <= i < count <= pools.len(),
        pools[i].available_buffers@.len() > 0,
        pools[i].buffer_size > 0,
    ensures
        BufferPool::collectable(pools, count) > 0,
    decreases count,
{
    let p = pools[count - 1];
    let h = SizePool::half(p.available_buffers@.len()) as int;
    let b = p.buffer_size as int;
    assert(h * b >= 0) by (nonlinear_arith)
        requires
            h >= 0,
            b >= 0,
    ;
    if i == count - 1 {
        assert(h * b > 0) by (nonlinear_arith)
            requires
                h > 0,
                b > 0,
        ;
    } else {
        lemma_collectable_positive(pools, i, (count - 1) as nat);
    }
}

/// The pool for a size is the same before and after, where the pools have the same
/// shape.
proof fn lemma_same_pool(a: BufferPool, b: BufferPool, size: usize, i: usize, r: Option<usize>)
    requires
        b.same_shape(&a),
        pool_for(a.pools@, size, Some(i)),
        pool_for(b.pools@, size, r),
    ensures
        r == Some(i),
{
    assert(b.pools@[i as int].buffer_size == a.pools@[i as int].buffer_size);
    assert(r is Some);
    let k = r->0;
    assert(b.pools@[k as int].buffer_size == a.pools@[k as int].buffer_size);
    if k < i {
        assert(size > a.pools@[k as int].buffer_size);
    } else if i < k {
        assert(size > b.pools@[i as int].buffer_size);
    }
}

proof fn lemma_room_is_kept(before: BufferPool, after: BufferPool, size: usize, b: PooledBuffer)
    requires
        before.wf(),
        BufferPool::handed_out(before, after, size, b),
    ensures
        before.idle() ==> b.room() == size && after.idle(),
        before.roomy() ==> b.room() >= size && after.roomy() && after.suits(b),
{
    assert forall|r: Option<usize>| #[trigger] pool_for(before.pools@, size, r) && r is Some implies {
        let i = r->0 as int;
        let waiting = before.pools@[i].available_buffers@;
        &&& waiting.len() > 0 ==> waiting[0].home() == Some(r->0)
        &&& after.pools@[i].buffer_size == before.pools@[i].buffer_size
    } by {
        let i = r->0 as int;
        assert(before.pools@[i].belongs_at(i as usize));
        assert(after.pools@[i].buffer_size == before.pools@[i].buffer_size);
    }
    if before.roomy() {
        assert forall|i: int, j: int|
            0 <= i < after.pools@.len() && 0 <= j < after.pools@[i].available_buffers@.len() implies (
        #[trigger] after.pools@[i].available_buffers@[j]).room()
            >= after.pools@[i].buffer_size by {
            assert(after.pools@[i].buffer_size == before.pools@[i].buffer_size);
            let old_waiting = before.pools@[i].available_buffers@;
            let new_waiting = after.pools@[i].available_buffers@;
            if new_waiting == old_waiting {
                assert(old_waiting[j].room() >= before.pools@[i].buffer_size);
            } else {
                assert(new_waiting == old_waiting.subrange(1, old_waiting.len() as int));
                assert(old_waiting[j + 1].room() >= before.pools@[i].buffer_size);
            }
        }
    }
}

proof fn lemma_return_keeps_room(before: BufferPool, after: BufferPool, buffer: PooledBuffer)
    requires
        before.wf(),
        BufferPool::given_back(before, after, buffer),
    ensures
        before.roomy() && before.suits(buffer) ==> after.roomy(),
{
    if before.roomy() && before.suits(buffer) {
        assert forall|i: int, j: int|
            0 <= i < after.pools@.len() && 0 <= j < after.pools@[i].available_buffers@.len() implies (
        #[trigger] after.pools@[i].available_buffers@[j]).room()
            >= after.pools@[i].buffer_size by {
            assert(after.pools@[i].buffer_size == before.pools@[i].buffer_size);
            let old_waiting = before.pools@[i].available_buffers@;
            let new_waiting = after.pools@[i].available_buffers@;
            if buffer.home() != Some(i as usize) {
                assert(after.pools@[i] == before.pools@[i]);
                assert(old_waiting[j].room() >= before.pools@[i].buffer_size);
            } else if j < old_waiting.len() {
                if old_waiting.len() < before.pools@[i].capacity {
                    assert(new_waiting.drop_last()[j] == old_waiting[j]);
                }
                assert(old_waiting[j].room() >= before.pools@[i].buffer_size);
            } else {
                assert(new_waiting[j] == new_waiting.last());
            }
        }
    }
}

/// A buffer that was given back to a pool with room where none waited is the next
/// one that the pool hands out, empty and with the room that it had.
pub proof fn buffer_is_reused(
    before: BufferPool,
    between: BufferPool,
    after: BufferPool,
    home: usize,
    size: usize,
    given: PooledBuffer,
    b: PooledBuffer,
)
    requires
        home < before.pools@.len(),
        before.pools@[home as int].available_buffers@.len() == 0,
        before.pools@[home as int].capacity > 0,
        pool_for(before.pools@, size, Some(home)),
        given.home() == Some(home),
        BufferPool::given_back(before, between, given),
        BufferPool::handed_out(between, after, size, b),
    ensures
        b == between.pools@[home as int].available_buffers@[0],
        b.home() == Some(home),
        b.room() == given.room(),
        b@.len() == 0,
        after.pools@[home as int].available_buffers@.len() == 0,
{
    assert forall|r: Option<usize>| #[trigger] pool_for(between.pools@, size, r) implies r == Some(
        home,
    ) by {
        lemma_same_pool(before, between, size, home, r);
    }
}

/// The sizes of pools grow.
pub proof fn sizes_double(config: MemoryConfig, i: nat)
    requires
        config.wf(),
    ensures
        config.size_at(i + 1) == 2 * config.size_at(i),
        config.size_at(i) > 0,
{
    lemma_pow2_unfold(i + 1);
    lemma_pow2_pos(i);
    let m = config.min_buffer_size as int;
    let p = pow2(i) as int;
    assert(m * (2 * p) == 2 * (m * p)) by (nonlinear_arith);
    assert(m * p > 0) by (nonlinear_arith)
        requires
            m > 0,
            p > 0,
    ;
}

/// The first pool has the smallest size and each pool twice the size before it; none is
/// larger than allowed, and together they keep no more bytes than configured, nor
/// could each keep one buffer more.
pub proof fn pools_are_laid_out(p: BufferPool, config: MemoryConfig, i: int)
    requires
        config.wf(),
        config.max_pools > 0,
        p.fresh(config),
        0 <= i < p.pools@.len(),
    ensures
        p.pools@[0].buffer_size == config.min_buffer_size,
        i + 1 < p.pools@.len() ==> p.pools@[i + 1].buffer_size == 2 * p.pools@[i].buffer_size,
        p.pools@[i].buffer_size <= config.max_buffer_size,
        p.pools@[i].capacity * (p.pools@[i].buffer_size * config.max_pools) <= config.pool_size,
        config.pool_size < (p.pools@[i].capacity + 1) * (p.pools@[i].buffer_size
            * config.max_pools),
        p.pools@.len() < config.max_pools ==> 2 * p.pools@.last().buffer_size
            > config.max_buffer_size,
        p.pools@[i].available_buffers@.len() == 0,
        p.total_allocated == 0,
        p.total_capacity == config.pool_size,
{
    let m = config.min_buffer_size as int;
    lemma2_to64();
    assert(p.pools@[0].buffer_size == config.size_at(0));
    assert(m * 1 == m);
    if i + 1 < p.pools@.len() {
        sizes_double(config, i as nat);
        assert(p.pools@[i + 1].buffer_size == config.size_at((i + 1) as nat));
    }
    sizes_double(config, i as nat);
    sizes_double(config, (p.pools@.len() - 1) as nat);
    let last = p.pools@.len() - 1;
    assert(p.pools@[last].buffer_size == config.size_at(last as nat));
    let share = (config.size_at(i as nat) * config.max_pools as nat) as int;
    let total = config.pool_size as int;
    assert(share > 0) by (nonlinear_arith)
        requires
            share == config.size_at(i as nat) * config.max_pools as nat,
            config.size_at(i as nat) > 0,
            config.max_pools > 0,
    ;
    let c = total / share;
    assert(c * share <= total < (c + 1) * share) by (nonlinear_arith)
        requires
            c == total / share,
            share > 0,
    ;
    assert(p.pools@[i].capacity == c);
}

/// There is one pool for a size: its buffers are large enough, and those of the pools
/// before it are not. A larger size has no earlier pool; a size beyond all pools has
/// none.
pub proof fn pools_fit(
    pools: Seq<SizePool>,
    size: usize,
    larger: usize,
    r: Option<usize>,
    s: Option<usize>,
    i: int,
)
    requires
        size <= larger,
        pool_for(pools, size, r),
        pool_for(pools, larger, s),
        0 <= i < pools.len(),
    ensures
        size == larger ==> r == s,
        size <= pools[i].buffer_size ==> r is Some && r->0 <= i,
        r is Some && i < r->0 ==> pools[i].buffer_size < size,
        r is Some ==> size <= pools[r->0 as int].buffer_size,
        r is None ==> s is None,
        s is Some ==> r->0 <= s->0,
{
}

/// A waiting buffer of the pool for a size is handed out, the one that waited longest,
/// and the others stay in their order. Where none waits, the buffer is made for just
/// the size, and is the pool's only where it has the size of the pool's buffers.
pub proof fn waiting_buffers_are_used(
    before: BufferPool,
    after: BufferPool,
    size: usize,
    b: PooledBuffer,
    pool: Option<usize>,
)
    requires
        BufferPool::handed_out(before, after, size, b),
        pool_for(before.pools@, size, pool),
    ensures
        b@.len() == 0,
        pool is None ==> b.home() is None && b.room() == size && after.pools@ == before.pools@,
        pool is Some ==> {
            let waiting = before.pools@[pool->0 as int].available_buffers@;
            let left = after.pools@[pool->0 as int].available_buffers@;
            &&& waiting.len() > 0 ==> seq![b] + left == waiting
            &&& waiting.len() == 0 ==> {
                &&& left.len() == 0
                &&& b.room() == size
                &&& b.home() == Some(pool->0) <==> before.pools@[pool->0 as int].buffer_size
                    == size
                &&& b.home() is Some ==> b.home() == Some(pool->0)
            }
        },
        forall|i: int|
            0 <= i < before.pools@.len() && pool != Some(i as usize)
                ==> #[trigger] after.pools@[i].available_buffers@
                == before.pools@[i].available_buffers@,
{
    assert forall|r: Option<usize>| #[trigger] pool_for(before.pools@, size, r) implies r == pool by {
        if before.pools@.len() > 0 {
            pools_fit(before.pools@, size, size, r, pool, 0);
        }
    }
    if pool is Some {
        let waiting = before.pools@[pool->0 as int].available_buffers@;
        let left = after.pools@[pool->0 as int].available_buffers@;
        if waiting.len() > 0 {
            assert(seq![b] + left =~= waiting);
        }
    }
}

/// What is given back waits behind the others of its pool, unless the pool is full; a
/// buffer of no pool is gone.
pub proof fn buffers_wait_in_their_pool(
    before: BufferPool,
    after: BufferPool,
    buffer: PooledBuffer,
    i: int,
    j: int,
)
    requires
        BufferPool::given_back(before, after, buffer),
        0 <= i < before.pools@.len() <= usize::MAX,
        0 <= j < before.pools@[i].available_buffers@.len(),
    ensures
        after.pools@[i].available_buffers@[j] == before.pools@[i].available_buffers@[j],
        buffer.home() is None ==> after.pools@[i] == before.pools@[i],
        after.pools@[i].available_buffers@.len() == before.pools@[i].available_buffers@.len() + if
            buffer.home() == Some(i as usize) && before.pools@[i].available_buffers@.len()
            < before.pools@[i].capacity {
            1int
        } else {
            0
        },
{
    if buffer.home() == Some(i as usize) {
        let waiting = after.pools@[i].available_buffers@;
        if before.pools@[i].available_buffers@.len() < before.pools@[i].capacity {
            assert(waiting.drop_last()[j] == waiting[j]);
        }
    }
}

/// The bytes of the buffers that wait in the first so many pools.
pub open spec fn waiting_bytes(pools: Seq<SizePool>, count: nat) -> nat
    decreases count,
{
    if count == 0 {
        0
    } else {
        waiting_bytes(pools, (count - 1) as nat) + pools[count - 1].available_buffers@.len()
            * pools[count - 1].buffer_size as nat
    }
}

/// A collection frees the bytes that wait no more: at least half of those that waited,
/// and all of a single buffer. What stays are the buffers that waited longest.
pub proof fn collections_free_half(before: BufferPool, after: BufferPool, i: int)
    requires
        after.same_shape(&before),
        BufferPool::collected(before, after),
        0 <= i < before.pools@.len(),
    ensures
        waiting_bytes(before.pools@, before.pools@.len()) == waiting_bytes(
            after.pools@,
            after.pools@.len(),
        ) + BufferPool::collectable(before.pools@, before.pools@.len()),
        2 * BufferPool::collectable(before.pools@, before.pools@.len()) >= waiting_bytes(
            before.pools@,
            before.pools@.len(),
        ),
        after.pools@[i].available_buffers@.is_prefix_of(before.pools@[i].available_buffers@),
        before.pools@[i].available_buffers@.len() <= 2 * after.pools@[i].available_buffers@.len()
            + 1,
        2 * after.pools@[i].available_buffers@.len() <= before.pools@[i].available_buffers@.len(),
        before.pools@[i].available_buffers@.len() == 1
            ==> after.pools@[i].available_buffers@.len() == 0,
        after.total_allocated == before.total_allocated,
{
    lemma_freed_bytes(before, after, before.pools@.len());
    let waiting = before.pools@[i].available_buffers@;
    assert(after.pools@[i].available_buffers@ == waiting.subrange(
        0,
        waiting.len() - SizePool::half(waiting.len()),
    ));
}

proof fn lemma_freed_bytes(before: BufferPool, after: BufferPool, count: nat)
    requires
        after.same_shape(&before),
        BufferPool::collected(before, after),
        count <= before.pools@.len(),
    ensures
        waiting_bytes(before.pools@, count) == waiting_bytes(after.pools@, count)
            + BufferPool::collectable(before.pools@, count),
        2 * BufferPool::collectable(before.pools@, count) >= waiting_bytes(before.pools@, count),
    decreases count,
{
    if count > 0 {
        lemma_freed_bytes(before, after, (count - 1) as nat);
        let p = before.pools@[count - 1];
        let q = after.pools@[count - 1];
        let waiting = p.available_buffers@;
        let n = waiting.len() as int;
        let h = SizePool::half(waiting.len()) as int;
        let left = q.available_buffers@.len() as int;
        let size = p.buffer_size as int;
        assert(left == n - h && q.buffer_size == size);
        assert(n * size == left * size + h * size) by (nonlinear_arith)
            requires
                left == n - h,
        ;
        assert(2 * (h * size) >= n * size) by (nonlinear_arith)
            requires
                2 * h >= n,
                size >= 0,
        ;
    }
}

/// A batch of buffers is handed out as one buffer after the other: the first by the
/// pool as it was, and the rest as a batch by the pool that this leaves.
pub proof fn batches_are_handed_out_one_by_one(
    pools: Seq<BufferPool>,
    sizes: Seq<usize>,
    buffers: Seq<PooledBuffer>,
)
    requires
        handed_out_in_turn(pools, sizes, buffers),
        sizes.len() > 0,
    ensures
        buffers.len() == sizes.len(),
        BufferPool::handed_out(pools[0], pools[1], sizes[0], buffers[0]),
        handed_out_in_turn(
            pools.subrange(1, pools.len() as int),
            sizes.subrange(1, sizes.len() as int),
            buffers.subrange(1, buffers.len() as int),
        ),
{
    let p = pools.subrange(1, pools.len() as int);
    let s = sizes.subrange(1, sizes.len() as int);
    let b = buffers.subrange(1, buffers.len() as int);
    assert forall|i: int| 0 <= i < s.len() implies BufferPool::handed_out(
        #[trigger] p[i],
        p[i + 1],
        s[i],
        b[i],
    ) by {
        assert(BufferPool::handed_out(pools[i + 1], pools[i + 2], sizes[i + 1], buffers[i + 1]));
    }
}

/// Handing out and taking back count apart, and each counts its own time; neither
/// touches what slices and collections count.
pub proof fn memory_work_is_counted_by_kind(s: MemoryStats, count: nat, nanos: u64)
    requires
        s.buffer_allocations + count <= u64::MAX,
        s.buffer_deallocations < u64::MAX,
        s.allocation_time_ns + nanos <= u64::MAX,
        s.deallocation_time_ns + nanos <= u64::MAX,
    ensures
        s.with_allocations(count, nanos).buffer_allocations == s.buffer_allocations + count,
        s.with_allocations(count, nanos).allocation_time_ns == s.allocation_time_ns + nanos,
        s.with_allocations(count, nanos).buffer_deallocations == s.buffer_deallocations,
        s.with_allocations(count, nanos).deallocation_time_ns == s.deallocation_time_ns,
        s.with_deallocation(nanos).buffer_deallocations == s.buffer_deallocations + 1,
        s.with_deallocation(nanos).deallocation_time_ns == s.deallocation_time_ns + nanos,
        s.with_deallocation(nanos).buffer_allocations == s.buffer_allocations,
        s.with_deallocation(nanos).allocation_time_ns == s.allocation_time_ns,
        forall|t: MemoryStats|
            t == s.with_allocations(count, nanos) || t == s.with_deallocation(nanos) ==> {
                &&& #[trigger] t.batch_allocations == s.batch_allocations
                &&& t.zero_copy_operations == s.zero_copy_operations
                &&& t.gc_operations == s.gc_operations
                &&& t.bytes_freed == s.bytes_freed
            },
{
}

/// Sizes that fit add up; beyond the end the sum begins again at zero.
pub proof fn sizes_go_round(a: usize, b: usize)
    ensures
        a + b <= usize::MAX ==> wrapped_size(a, b) == a + b,
        a + b > usize::MAX ==> wrapped_size(a, b) < a && wrapped_size(a, b) < b,
        wrapped_size(usize::MAX, 1) == 0,
{
}

/// Buffers are told per second, and time and buffers taken back per buffer handed out;
/// where nothing was counted, as zero.
pub proof fn rates_are_told_per_unit(s: MemoryStats, span: Duration, secs: u64)
    requires
        secs > 0,
    ensures
        span.nanos == secs * 1_000_000_000 ==> s.allocation_rate_spec(span).is(s.buffer_allocations as int, secs as int),
        span.nanos == 0 ==> s.allocation_rate_spec(span).is(0, 1),
        s.buffer_allocations > 0 ==> s.avg_allocation_latency_ns_spec().is(s.allocation_time_ns as int, s.buffer_allocations as int),
        s.buffer_allocations == 0 ==> s.avg_allocation_latency_ns_spec().is(0, 1),
        s.buffer_allocations > 0 ==> s.memory_efficiency_spec().is(s.buffer_deallocations as int, s.buffer_allocations as int),
        s.buffer_allocations == 0 ==> s.memory_efficiency_spec().is(0, 1),
{
    assert((s.buffer_allocations) * 1_000_000_000 * secs == (s.buffer_allocations) * (secs * 1_000_000_000)) by (nonlinear_arith);
}

/// Nothing counts before anything is done.
pub proof fn counters_start_at_zero()
    ensures
        MemoryStats::none().buffer_allocations == 0,
        MemoryStats::none().buffer_deallocations == 0,
        MemoryStats::none().batch_allocations == 0,
        MemoryStats::none().zero_copy_operations == 0,
        MemoryStats::none().gc_operations == 0,
        MemoryStats::none().bytes_freed == 0,
        MemoryStats::none().allocation_time_ns == 0,
        MemoryStats::none().deallocation_time_ns == 0,
{
}

} // verus!
