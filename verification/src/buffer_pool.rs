//! Buffer pool: pre-allocated, reusable byte buffers with a cap on how many
//! exist at once.
//!
//! A buffer is checked out with `acquire` and goes back with `release`;
//! returned buffers are reset to the pool's buffer size, filled with zeros,
//! and queued for reuse in the order they came back.

use vstd::prelude::*;
use std::collections::VecDeque;

verus! {

/// Default buffer size, sized for jumbo frames.
pub const DEFAULT_BUFFER_SIZE: usize = 9000;

/// Default initial buffer count.
pub const DEFAULT_INITIAL_BUFFERS: usize = 64;

/// Default maximum buffer count.
pub const DEFAULT_MAX_BUFFERS: usize = 256;

/// `n` zero bytes.
pub open spec fn zero_bytes(n: nat) -> Seq<u8> {
    Seq::new(n, |i: int| 0u8)
}

/// A checked-out buffer.
pub struct BufferHandle {
    buffer: Vec<u8>,
    index: usize,
}

impl BufferHandle {
    /// The buffer's bytes.
    pub closed spec fn bytes(&self) -> Seq<u8> {
        self.buffer@
    }

    /// The pool slot the buffer belongs to.
    pub closed spec fn slot(&self) -> usize {
        self.index
    }

    /// Get a mutable reference to the buffer.
    pub fn as_mut(&mut self) -> (r: &mut Vec<u8>)
        ensures
            r@ == old(self).bytes(),
            final(self).bytes() == final(r)@,
            final(self).slot() == old(self).slot(),
    {
        &mut self.buffer
    }

    /// Get an immutable reference to the buffer.
    pub fn as_ref(&self) -> (r: &Vec<u8>)
        ensures
            r@ == self.bytes(),
    {
        &self.buffer
    }

    /// Get the buffer size.
    pub fn len(&self) -> (r: usize)
        ensures
            r == self.bytes().len(),
    {
        self.buffer.len()
    }

    /// Check if buffer is empty.
    pub fn is_empty(&self) -> (r: bool)
        ensures
            r == (self.bytes().len() == 0),
    {
        self.buffer.len() == 0
    }

    /// Clear the buffer contents.
    pub fn clear(&mut self)
        ensures
            final(self).bytes() == Seq::<u8>::empty(),
            final(self).slot() == old(self).slot(),
    {
        self.buffer.clear();
    }

    /// Resize the buffer, filling new bytes with `value`.
    pub fn resize(&mut self, new_len: usize, value: u8)
        ensures
            final(self).slot() == old(self).slot(),
            final(self).bytes() == (if new_len <= old(self).bytes().len() {
                old(self).bytes().take(new_len as int)
            } else {
                old(self).bytes() + Seq::new((new_len - old(self).bytes().len()) as nat, |i: int| value)
            }),
    {
        let ghost before = self.buffer@;
        if new_len <= self.buffer.len() {
            self.buffer.truncate(new_len);
        } else {
            while self.buffer.len() < new_len
                invariant
                    before.len() <= self.buffer@.len() <= new_len,
                    self.index == old(self).index,
                    self.buffer@ == before + Seq::new((self.buffer@.len() - before.len()) as nat, |i: int| value),
                decreases new_len - self.buffer@.len(),
            {
                self.buffer.push(value);
                assert(self.buffer@ =~= before + Seq::new((self.buffer@.len() - before.len()) as nat, |i: int| value));
            }
        }
    }
}

/// Buffer pool statistics.
#[derive(Debug, Clone, Copy, PartialEq, Eq, Structural)]
pub struct PoolStats {
    /// Total buffers allocated
    pub total_allocated: usize,
    /// Currently in use
    pub in_use: usize,
    /// Total acquisitions
    pub total_acquisitions: u64,
    /// Total releases
    pub total_releases: u64,
    /// Failed acquisitions (pool exhausted)
    pub failed_acquisitions: u64,
}

impl PoolStats {
    /// All counters at zero.
    pub fn default() -> (s: Self)
        ensures
            s == (PoolStats { total_allocated: 0, in_use: 0, total_acquisitions: 0, total_releases: 0, failed_acquisitions: 0 }),
    {
        PoolStats { total_allocated: 0, in_use: 0, total_acquisitions: 0, total_releases: 0, failed_acquisitions: 0 }
    }
}

/// Why a buffer could not be handed out.
#[derive(Debug, Clone, Copy, PartialEq, Eq, Structural)]
pub enum PoolError {
    /// Every buffer is checked out and the pool is at its maximum size.
    Exhausted,
}

/// Pool state.
struct BufferPoolInner {
    /// All allocated buffers; a checked-out buffer's slot is empty.
    buffers: Vec<Option<Vec<u8>>>,
    /// Indices of available buffers, in the order they will be handed out
    available: VecDeque<usize>,
    /// Size of each buffer
    buffer_size: usize,
    /// Maximum number of buffers
    max_buffers: usize,
    /// Statistics
    stats: PoolStats,
}

impl BufferPoolInner {
    /// The pool's bookkeeping agrees with itself: the queue lists exactly
    /// the filled slots, each once; every queued buffer is a zeroed buffer
    /// of the pool's size; the allocated count is the number of slots and
    /// the in-use count the number of empty ones.
    spec fn wf(&self) -> bool {
        &&& self.stats.total_allocated == self.buffers@.len()
        &&& self.stats.in_use + self.available@.len() == self.buffers@.len()
        &&& forall|k: int| 0 <= k < self.available@.len() ==> (#[trigger] self.available@[k]) < self.buffers@.len()
        &&& forall|k1: int, k2: int|
            0 <= k1 < k2 < self.available@.len() ==> self.available@[k1] != self.available@[k2]
        &&& forall|i: int|
            0 <= i < self.buffers@.len() ==> ((#[trigger] self.buffers@[i]) is Some <==> self.available@.contains(i as usize))
        &&& forall|i: int|
            0 <= i < self.buffers@.len() && self.buffers@[i] is Some ==> (#[trigger] self.buffers@[i])->0@ == zero_bytes(
                self.buffer_size as nat,
            )
    }

    fn new(buffer_size: usize, initial_count: usize, max_buffers: usize) -> (p: Self)
        ensures
            p.wf(),
            p.buffer_size == buffer_size,
            p.max_buffers == max_buffers,
            p.buffers@.len() == initial_count,
            p.available@ == Seq::new(initial_count as nat, |i: int| i as usize),
            p.stats == (PoolStats {
                total_allocated: initial_count,
                in_use: 0,
                total_acquisitions: 0,
                total_releases: 0,
                failed_acquisitions: 0,
            }),
    {
        let mut buffers: Vec<Option<Vec<u8>>> = Vec::with_capacity(initial_count);
        let mut available: VecDeque<usize> = VecDeque::with_capacity(initial_count);
        let mut i: usize = 0;
        while i < initial_count
            invariant
                i <= initial_count,
                buffers@.len() == i,
                available@ == Seq::new(i as nat, |k: int| k as usize),
                forall|k: int| 0 <= k < i ==> (#[trigger] buffers@[k]) is Some && buffers@[k]->0@ == zero_bytes(buffer_size as nat),
            decreases initial_count - i,
        {
            buffers.push(Some(zeroed(buffer_size)));
            available.push_back(i);
            i = i + 1;
            assert(available@ =~= Seq::new(i as nat, |k: int| k as usize));
        }
        let p = BufferPoolInner {
            buffers,
            available,
            buffer_size,
            max_buffers,
            stats: PoolStats {
                total_allocated: initial_count,
                in_use: 0,
                total_acquisitions: 0,
                total_releases: 0,
                failed_acquisitions: 0,
            },
        };
        assert forall|i: int| 0 <= i < p.buffers@.len() implies ((#[trigger] p.buffers@[i]) is Some <==> p.available@.contains(i as usize)) by {
            assert(p.available@[i] == i as usize);
        }
        p
    }
}

/// What the pool's bookkeeping says: how many buffers exist, which are
/// queued for reuse (in order), the statistics, and the size and cap.
pub struct PoolModel {
    pub slots: nat,
    pub available: Seq<usize>,
    pub stats: PoolStats,
    pub buffer_size: usize,
    pub max_buffers: usize,
}

/// The counters an acquisition or release must be able to advance.
pub open spec fn counters_ok(m: PoolModel) -> bool {
    &&& m.stats.total_acquisitions < u64::MAX
    &&& m.stats.total_releases < u64::MAX
    &&& m.stats.failed_acquisitions < u64::MAX
}

/// An acquisition: the front of the reuse queue if there is one; else a new
/// buffer while the pool is under its cap (its slot is the next index);
/// else nothing, counted as a failure.
pub open spec fn acquire_spec(m: PoolModel) -> (PoolModel, Option<usize>) {
    let st = PoolStats { total_acquisitions: (m.stats.total_acquisitions + 1) as u64, ..m.stats };
    if m.available.len() > 0 {
        (
            PoolModel {
                available: m.available.drop_first(),
                stats: PoolStats { in_use: (st.in_use + 1) as usize, ..st },
                ..m
            },
            Some(m.available[0]),
        )
    } else if m.slots < m.max_buffers {
        (
            PoolModel {
                slots: m.slots + 1,
                stats: PoolStats {
                    total_allocated: (st.total_allocated + 1) as usize,
                    in_use: (st.in_use + 1) as usize,
                    ..st
                },
                ..m
            },
            Some(m.slots as usize),
        )
    } else {
        (
            PoolModel {
                stats: PoolStats { failed_acquisitions: (st.failed_acquisitions + 1) as u64, ..st },
                ..m
            },
            None,
        )
    }
}

/// A release of the buffer of `slot`: counted, the in-use count drops, and
/// the slot joins the back of the reuse queue.
pub open spec fn release_spec(m: PoolModel, slot: usize) -> PoolModel {
    PoolModel {
        available: m.available.push(slot),
        stats: PoolStats {
            total_releases: (m.stats.total_releases + 1) as u64,
            in_use: if m.stats.in_use > 0 { (m.stats.in_use - 1) as usize } else { 0 },
            ..m.stats
        },
        ..m
    }
}

/// Acquiring a buffer and releasing it again leaves the pool with the same
/// buffers, the same number in use and the same number queued; the slot
/// goes to the back of the queue. A buffer taken from the queue and given
/// back is the one the next acquisitions reach once the queue ahead of it
/// is used up, and no new buffer is allocated for it.
pub proof fn lemma_acquire_release_balance(m: PoolModel)
    requires
        acquire_spec(m).1 is Some,
        counters_ok(m),
        m.slots <= usize::MAX,
        m.stats.total_allocated == m.slots,
        m.stats.in_use + m.available.len() == m.slots,
    ensures
        ({
            let (m1, slot) = acquire_spec(m);
            let m2 = release_spec(m1, slot->0);
            &&& m2.stats.in_use == m.stats.in_use
            &&& m2.stats.total_allocated == m2.slots
            &&& m2.stats.total_acquisitions == m.stats.total_acquisitions + 1
            &&& m2.stats.total_releases == m.stats.total_releases + 1
            &&& m.available.len() > 0 ==> {
                &&& m2.slots == m.slots
                &&& m2.available == m.available.drop_first().push(m.available[0])
            }
            &&& m.available.len() == 0 ==> {
                &&& m2.slots == m.slots + 1
                &&& m2.available == seq![m.slots as usize]
            }
        }),
{
    if m.available.len() == 0 {
        assert(m.available.push(m.slots as usize) =~= seq![m.slots as usize]);
    }
}

/// After the pool runs out of buffers at its cap, every further acquisition
/// fails until a buffer is released.
pub proof fn lemma_exhausted_pool_fails(m: PoolModel)
    requires
        counters_ok(m),
        m.available.len() == 0,
        m.slots >= m.max_buffers,
    ensures
        acquire_spec(m).1 is None,
        acquire_spec(m).0.stats.failed_acquisitions == m.stats.failed_acquisitions + 1,
        acquire_spec(m).0.available.len() == 0,
        acquire_spec(m).0.slots == m.slots,
{
}

/// A new pool of `n` zeroed buffers of `buffer_size` bytes, queued in index
/// order, growing to at most `max_buffers`.
pub open spec fn fresh_pool(buffer_size: usize, n: usize, max_buffers: usize) -> PoolModel {
    PoolModel {
        slots: n as nat,
        available: Seq::new(n as nat, |i: int| i as usize),
        stats: PoolStats {
            total_allocated: n,
            in_use: 0,
            total_acquisitions: 0,
            total_releases: 0,
            failed_acquisitions: 0,
        },
        buffer_size,
        max_buffers,
    }
}

/// The pool after a run of calls: each `None` an acquisition, each
/// `Some(slot)` the release of the buffer of that slot.
pub open spec fn run_ops(m: PoolModel, ops: Seq<Option<usize>>) -> PoolModel
    decreases ops.len(),
{
    if ops.len() == 0 {
        m
    } else {
        let prev = run_ops(m, ops.drop_last());
        match ops.last() {
            None => acquire_spec(prev).0,
            Some(slot) => release_spec(prev, slot),
        }
    }
}

/// A run that the pool's calls accept: no counter overflows, and every
/// release gives back a buffer that is checked out at that point.
pub open spec fn run_valid(m: PoolModel, ops: Seq<Option<usize>>) -> bool
    decreases ops.len(),
{
    if ops.len() == 0 {
        true
    } else {
        let prev = run_ops(m, ops.drop_last());
        &&& run_valid(m, ops.drop_last())
        &&& counters_ok(prev)
        &&& match ops.last() {
            None => true,
            Some(slot) => slot < prev.slots && !prev.available.contains(slot),
        }
    }
}

/// The larger of two counts.
pub open spec fn larger(a: usize, b: usize) -> usize {
    if a >= b {
        a
    } else {
        b
    }
}

/// What every run from a new pool of `n` buffers keeps.
spec fn run_inv(m: PoolModel, n: usize, max_buffers: usize) -> bool {
    &&& m.max_buffers == max_buffers
    &&& m.stats.total_allocated == m.slots
    &&& m.stats.in_use + m.available.len() == m.slots
    &&& m.stats.in_use + m.stats.total_releases + m.stats.failed_acquisitions == m.stats.total_acquisitions
    &&& m.slots <= larger(n, max_buffers)
    &&& forall|k1: int, k2: int| 0 <= k1 < k2 < m.available.len() ==> m.available[k1] != m.available[k2]
    &&& forall|k: int| 0 <= k < m.available.len() ==> #[trigger] m.available[k] < m.slots
}

proof fn lemma_run_inv(buffer_size: usize, n: usize, max_buffers: usize, ops: Seq<Option<usize>>)
    requires
        run_valid(fresh_pool(buffer_size, n, max_buffers), ops),
    ensures
        run_inv(run_ops(fresh_pool(buffer_size, n, max_buffers), ops), n, max_buffers),
    decreases ops.len(),
{
    let m0 = fresh_pool(buffer_size, n, max_buffers);
    if ops.len() > 0 {
        let init = ops.drop_last();
        lemma_run_inv(buffer_size, n, max_buffers, init);
        let prev = run_ops(m0, init);
        match ops.last() {
            None => {
                let next = acquire_spec(prev).0;
                if prev.available.len() > 0 {
                    assert forall|k: int| 0 <= k < next.available.len() implies #[trigger] next.available[k] < next.slots by {
                        assert(next.available[k] == prev.available[k + 1]);
                    }
                    assert forall|k1: int, k2: int| 0 <= k1 < k2 < next.available.len() implies next.available[k1] != next.available[k2] by {
                        assert(next.available[k1] == prev.available[k1 + 1]);
                        assert(next.available[k2] == prev.available[k2 + 1]);
                    }
                }
            },
            Some(slot) => {
                lemma_missing_value(prev.available, prev.slots, slot);
                let next = release_spec(prev, slot);
                assert forall|k1: int, k2: int| 0 <= k1 < k2 < next.available.len() implies next.available[k1] != next.available[k2] by {
                    if k2 == prev.available.len() {
                        assert(prev.available.contains(next.available[k1]) ==> next.available[k1] != slot);
                        assert(next.available[k1] == prev.available[k1]);
                    }
                }
            },
        }
    } else {
        assert forall|k: int| 0 <= k < m0.available.len() implies #[trigger] m0.available[k] < m0.slots by {}
    }
}

/// Over any run of acquisitions and releases on a new pool of `n` buffers,
/// each release giving back a buffer that is out: the buffers in use are
/// the acquisitions that succeeded less the releases, the buffers in use
/// and those queued for reuse make up every allocated buffer, and the pool
/// never holds more buffers than its initial count or its cap, whichever is
/// larger.
pub proof fn lemma_pool_counters(buffer_size: usize, n: usize, max_buffers: usize, ops: Seq<Option<usize>>)
    requires
        run_valid(fresh_pool(buffer_size, n, max_buffers), ops),
    ensures
        ({
            let m = run_ops(fresh_pool(buffer_size, n, max_buffers), ops);
            &&& m.stats.in_use == m.stats.total_acquisitions - m.stats.failed_acquisitions - m.stats.total_releases
            &&& m.stats.in_use + m.available.len() == m.stats.total_allocated
            &&& m.stats.in_use <= m.stats.total_allocated
            &&& m.stats.total_allocated == m.slots
            &&& m.stats.total_allocated <= larger(n, max_buffers)
        }),
{
    lemma_run_inv(buffer_size, n, max_buffers, ops);
}

/// Closes the gap left by value `x`: values above it move down by one.
spec fn squeeze(s: Seq<usize>, x: usize) -> Seq<usize> {
    s.map_values(|v: usize| if v > x { (v - 1) as usize } else { v })
}

proof fn lemma_squeeze(s: Seq<usize>, x: usize, m: nat)
    requires
        forall|k1: int, k2: int| 0 <= k1 < k2 < s.len() ==> s[k1] != s[k2],
        forall|k: int| 0 <= k < s.len() ==> #[trigger] s[k] < m && s[k] != x,
        x < m,
    ensures
        squeeze(s, x).len() == s.len(),
        forall|k1: int, k2: int| 0 <= k1 < k2 < s.len() ==> squeeze(s, x)[k1] != squeeze(s, x)[k2],
        forall|k: int| 0 <= k < s.len() ==> #[trigger] squeeze(s, x)[k] < m - 1,
{
    let t = squeeze(s, x);
    assert forall|k1: int, k2: int| 0 <= k1 < k2 < s.len() implies t[k1] != t[k2] by {
        assert(s[k1] != s[k2]);
        assert(s[k1] != x && s[k2] != x);
    }
    assert forall|k: int| 0 <= k < s.len() implies #[trigger] t[k] < m - 1 by {
        assert(s[k] < m && s[k] != x);
    }
}

/// A duplicate-free list of numbers below `m` has at most `m` entries.
proof fn lemma_unique_bounded(s: Seq<usize>, m: nat)
    requires
        forall|k1: int, k2: int| 0 <= k1 < k2 < s.len() ==> s[k1] != s[k2],
        forall|k: int| 0 <= k < s.len() ==> #[trigger] s[k] < m,
    ensures
        s.len() <= m,
    decreases s.len(),
{
    if s.len() > 0 {
        let last = s.last();
        let rest = s.drop_last();
        assert forall|k: int| 0 <= k < rest.len() implies #[trigger] rest[k] < m && rest[k] != last by {
            assert(rest[k] == s[k]);
            assert(s[k] != s[s.len() - 1]);
        }
        lemma_squeeze(rest, last, m);
        lemma_unique_bounded(squeeze(rest, last), (m - 1) as nat);
    }
}

/// A duplicate-free list of numbers below `n` that misses one of them has
/// fewer than `n` entries.
proof fn lemma_missing_value(s: Seq<usize>, n: nat, x: usize)
    requires
        forall|k1: int, k2: int| 0 <= k1 < k2 < s.len() ==> s[k1] != s[k2],
        forall|k: int| 0 <= k < s.len() ==> #[trigger] s[k] < n,
        x < n,
        !s.contains(x),
    ensures
        s.len() < n,
{
    assert forall|k: int| 0 <= k < s.len() implies #[trigger] s[k] < n && s[k] != x by {
        if s[k] == x {
            assert(s.contains(x));
        }
    }
    lemma_squeeze(s, x, n);
    lemma_unique_bounded(squeeze(s, x), (n - 1) as nat);
}

/// Thread-unaware buffer pool.
pub struct BufferPool {
    inner: BufferPoolInner,
}

impl BufferPool {
    /// The pool's bookkeeping is consistent (see the pool state's
    /// well-formedness): every constructor establishes it and every
    /// operation keeps it.
    pub closed spec fn wf(&self) -> bool {
        self.inner.wf()
    }

    /// The pool's bookkeeping.
    pub closed spec fn model(&self) -> PoolModel {
        PoolModel {
            slots: self.inner.buffers@.len(),
            available: self.inner.available@,
            stats: self.inner.stats,
            buffer_size: self.inner.buffer_size,
            max_buffers: self.inner.max_buffers,
        }
    }

    /// A pool with default settings: 9000-byte buffers, 64 ready, at most 256.
    pub fn new() -> (p: Self)
        ensures
            p.wf(),
            p.model().slots == DEFAULT_INITIAL_BUFFERS,
            p.model().available == Seq::new(DEFAULT_INITIAL_BUFFERS as nat, |i: int| i as usize),
            p.model().buffer_size == DEFAULT_BUFFER_SIZE,
            p.model().max_buffers == DEFAULT_MAX_BUFFERS,
            p.model().stats == (PoolStats {
                total_allocated: DEFAULT_INITIAL_BUFFERS,
                in_use: 0,
                total_acquisitions: 0,
                total_releases: 0,
                failed_acquisitions: 0,
            }),
    {
        Self::with_config(DEFAULT_BUFFER_SIZE, DEFAULT_INITIAL_BUFFERS, DEFAULT_MAX_BUFFERS)
    }

    /// A pool with `initial_count` zeroed buffers of `buffer_size` bytes,
    /// queued in index order, growing to at most `max_buffers`.
    pub fn with_config(buffer_size: usize, initial_count: usize, max_buffers: usize) -> (p: Self)
        ensures
            p.wf(),
            p.model() == fresh_pool(buffer_size, initial_count, max_buffers),
            p.model().slots == initial_count,
            p.model().available == Seq::new(initial_count as nat, |i: int| i as usize),
            p.model().buffer_size == buffer_size,
            p.model().max_buffers == max_buffers,
            p.model().stats == (PoolStats {
                total_allocated: initial_count,
                in_use: 0,
                total_acquisitions: 0,
                total_releases: 0,
                failed_acquisitions: 0,
            }),
    {
        let inner = BufferPoolInner::new(buffer_size, initial_count, max_buffers);
        BufferPool { inner }
    }

    /// Acquire a buffer from the pool: a zeroed buffer of the pool's size,
    /// chosen as `acquire_spec` says.
    pub fn acquire(&mut self) -> (r: Result<BufferHandle, PoolError>)
        requires
            old(self).wf(),
            counters_ok(old(self).model()),
        ensures
            final(self).wf(),
            final(self).model() == acquire_spec(old(self).model()).0,
            match acquire_spec(old(self).model()).1 {
                Some(slot) => r matches Ok(h) && h.slot() == slot && h.bytes() == zero_bytes(
                    old(self).model().buffer_size as nat,
                ),
                None => r == Err::<BufferHandle, PoolError>(PoolError::Exhausted),
            },
    {
        let ghost m = self.model();
        self.inner.stats.total_acquisitions = self.inner.stats.total_acquisitions + 1;
        if self.inner.available.len() > 0 {
            let idx = match self.inner.available.pop_front() {
                Some(i) => i,
                None => 0,
            };
            assert(m.available.contains(idx));
            assert(self.inner.buffers@[idx as int] is Some);
            let slot = self.inner.buffers[idx].take();
            let buffer = match slot {
                Some(b) => b,
                None => Vec::new(),
            };
            self.inner.stats.in_use = self.inner.stats.in_use + 1;
            proof {
                assert(self.inner.available@ =~= m.available.drop_first());
                assert forall|i: int| 0 <= i < self.inner.buffers@.len() implies ((#[trigger] self.inner.buffers@[i]) is Some <==> self.inner.available@.contains(i as usize)) by {
                    if i == idx {
                        if self.inner.available@.contains(idx) {
                            let k = choose|k: int| 0 <= k < self.inner.available@.len() && self.inner.available@[k] == idx;
                            assert(m.available[k + 1] == idx);
                        }
                    } else {
                        if m.available.contains(i as usize) {
                            let k = choose|k: int| 0 <= k < m.available.len() && m.available[k] == i as usize;
                            assert(k != 0);
                            assert(self.inner.available@[k - 1] == i as usize);
                        }
                    }
                }
            }
            return Ok(BufferHandle { buffer, index: idx });
        }
        if self.inner.buffers.len() < self.inner.max_buffers {
            let idx = self.inner.buffers.len();
            let buffer = zeroed(self.inner.buffer_size);
            self.inner.buffers.push(None);
            self.inner.stats.total_allocated = self.inner.stats.total_allocated + 1;
            self.inner.stats.in_use = self.inner.stats.in_use + 1;
            proof {
                assert forall|i: int| 0 <= i < self.inner.buffers@.len() implies ((#[trigger] self.inner.buffers@[i]) is Some <==> self.inner.available@.contains(i as usize)) by {
                    if i < m.slots {
                        assert(self.inner.buffers@[i] == old(self).inner.buffers@[i]);
                    }
                }
            }
            return Ok(BufferHandle { buffer, index: idx });
        }
        self.inner.stats.failed_acquisitions = self.inner.stats.failed_acquisitions + 1;
        Err(PoolError::Exhausted)
    }

    /// Give a checked-out buffer back: it is reset to the pool's buffer
    /// size, zeroed, and queued for reuse as `release_spec` says.
    pub fn release(&mut self, handle: BufferHandle)
        requires
            old(self).wf(),
            counters_ok(old(self).model()),
            handle.slot() < old(self).model().slots,
            !old(self).model().available.contains(handle.slot()),
        ensures
            final(self).wf(),
            final(self).model() == release_spec(old(self).model(), handle.slot()),
    {
        let ghost m = self.model();
        let BufferHandle { buffer, index } = handle;
        let mut buffer = buffer;
        self.inner.stats.total_releases = self.inner.stats.total_releases + 1;
        self.inner.stats.in_use = if self.inner.stats.in_use > 0 { self.inner.stats.in_use - 1 } else { 0 };
        buffer.clear();
        let size = self.inner.buffer_size;
        while buffer.len() < size
            invariant
                buffer@.len() <= size,
                buffer@ == zero_bytes(buffer@.len()),
            decreases size - buffer@.len(),
        {
            buffer.push(0u8);
            assert(buffer@ =~= zero_bytes(buffer@.len()));
        }
        if index < self.inner.buffers.len() {
            self.inner.buffers.set(index, Some(buffer));
            self.inner.available.push_back(index);
        }
        proof {
            assert(old(self).inner.buffers@[index as int] is None);
            lemma_missing_value(m.available, m.slots, index);
            assert forall|i: int| 0 <= i < self.inner.buffers@.len() implies ((#[trigger] self.inner.buffers@[i]) is Some <==> self.inner.available@.contains(i as usize)) by {
                if i != index {
                    assert(self.inner.buffers@[i] == old(self).inner.buffers@[i]);
                    if self.inner.available@.contains(i as usize) {
                        let k = choose|k: int| 0 <= k < self.inner.available@.len() && self.inner.available@[k] == i as usize;
                        assert(m.available[k] == i as usize);
                    }
                    if m.available.contains(i as usize) {
                        let k = choose|k: int| 0 <= k < m.available.len() && m.available[k] == i as usize;
                        assert(self.inner.available@[k] == i as usize);
                    }
                } else {
                    assert(self.inner.available@[m.available.len() as int] == index);
                }
            }
        }
    }

    /// Get pool statistics.
    pub fn stats(&self) -> (s: PoolStats)
        requires
            self.wf(),
        ensures
            s == self.model().stats,
            s.total_allocated == self.model().slots,
            s.in_use + self.model().available.len() == s.total_allocated,
    {
        self.inner.stats
    }

    /// Get the buffer size.
    pub fn buffer_size(&self) -> (r: usize)
        ensures
            r == self.model().buffer_size,
    {
        self.inner.buffer_size
    }
}

/// `n` zero bytes.
fn zeroed(n: usize) -> (v: Vec<u8>)
    ensures
        v@ == zero_bytes(n as nat),
{
    let mut v: Vec<u8> = Vec::new();
    while v.len() < n
        invariant
            v@.len() <= n,
            v@ == zero_bytes(v@.len()),
        decreases n - v@.len(),
    {
        v.push(0u8);
        assert(v@ =~= zero_bytes(v@.len()));
    }
    v
}

} // verus!
