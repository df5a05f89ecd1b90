//! An elastic pool that recycles buffers of one configured capacity.
//!
//! The pool never blocks and never runs dry: where no idle buffer is left it
//! makes a new one. It never shrinks either, and it takes back any buffer as
//! it comes, whatever its length or capacity.

use crate::mbuf::max_capacity;
use crate::mbuf::MBuf;
use crate::mbuf::MBufView;
use vstd::prelude::*;

verus! {

/// What a pool is, mathematically: its idle buffers, the last of them the
/// next to leave; the number of buffers handed out and not yet taken back;
/// and the capacity at which it makes buffers.
pub struct PoolState {
    pub free: Seq<MBuf>,
    pub allocated: nat,
    pub capacity: nat,
}

impl PoolState {
    /// The count of outstanding buffers after one more is handed out. The
    /// counter is a machine word and wraps.
    pub open spec fn count_up(count: nat) -> nat {
        if count >= usize::MAX {
            0
        } else {
            count + 1
        }
    }

    /// The count of outstanding buffers after one is taken back. The counter
    /// is a machine word and wraps.
    pub open spec fn count_down(count: nat) -> nat {
        if count == 0 {
            usize::MAX as nat
        } else {
            (count - 1) as nat
        }
    }

    /// The pool after it has handed out one buffer.
    pub open spec fn acquire(self) -> PoolState {
        PoolState {
            free: if self.free.len() > 0 {
                self.free.drop_last()
            } else {
                self.free
            },
            allocated: Self::count_up(self.allocated),
            capacity: self.capacity,
        }
    }

    /// The pool after it has taken `buf` back.
    pub open spec fn free(self, buf: MBuf) -> PoolState {
        PoolState {
            free: self.free.push(buf),
            allocated: Self::count_down(self.allocated),
            capacity: self.capacity,
        }
    }

    /// The pool after it has handed out `n` buffers in a row.
    pub open spec fn acquire_many(self, n: nat) -> PoolState
        decreases n,
    {
        if n == 0 {
            self
        } else {
            self.acquire().acquire_many((n - 1) as nat)
        }
    }

    /// The pool after it has taken back the buffers of `bufs`, first to last.
    pub open spec fn free_many(self, bufs: Seq<MBuf>) -> PoolState
        decreases bufs.len(),
    {
        if bufs.len() == 0 {
            self
        } else {
            self.free(bufs.first()).free_many(bufs.drop_first())
        }
    }

    /// Handing out `n` buffers in a row takes them from the idle ones as far
    /// as these go, and counts every one of them.
    pub proof fn lemma_acquire_many(self, n: nat)
        requires
            self.allocated + n <= usize::MAX,
        ensures
            self.acquire_many(n).allocated == self.allocated + n,
            self.acquire_many(n).free.len() == if n <= self.free.len() {
                self.free.len() - n
            } else {
                0
            },
            self.acquire_many(n).capacity == self.capacity,
        decreases n,
    {
        if n > 0 {
            self.acquire().lemma_acquire_many((n - 1) as nat);
        }
    }

    /// Taking back buffers adds each of them to the idle ones, and counts
    /// each of them off.
    pub proof fn lemma_free_many(self, bufs: Seq<MBuf>)
        requires
            bufs.len() <= self.allocated,
        ensures
            self.free_many(bufs).allocated == self.allocated - bufs.len(),
            self.free_many(bufs).free.len() == self.free.len() + bufs.len(),
            self.free_many(bufs).capacity == self.capacity,
        decreases bufs.len(),
    {
        if bufs.len() > 0 {
            self.free(bufs.first()).lemma_free_many(bufs.drop_first());
        }
    }

    /// Conservation: a pool with nothing outstanding that hands out `n`
    /// buffers and then takes back `bufs`, no more of them than it handed
    /// out, has `n - |bufs|` buffers outstanding. Its idle buffers are those
    /// it had, less `n`, plus `|bufs|`, where it had `n` or more of them; where
    /// it had fewer, they are `|bufs|`.
    pub proof fn lemma_conservation(self, n: nat, bufs: Seq<MBuf>)
        requires
            self.allocated == 0,
            bufs.len() <= n <= usize::MAX,
        ensures
            self.acquire_many(n).free_many(bufs).allocated == n - bufs.len(),
            self.acquire_many(n).free_many(bufs).free.len() == if n <= self.free.len() {
                self.free.len() - n + bufs.len()
            } else {
                bufs.len() as int
            },
    {
        self.lemma_acquire_many(n);
        self.acquire_many(n).lemma_free_many(bufs);
    }
}

/// A pool of buffers made at one capacity.
pub struct MPool {
    free_list: Vec<MBuf>,
    allocated_count: usize,
    capacity: usize,
}

impl View for MPool {
    type V = PoolState;

    closed spec fn view(&self) -> PoolState {
        PoolState {
            free: self.free_list@,
            allocated: self.allocated_count as nat,
            capacity: self.capacity as nat,
        }
    }
}

impl MPool {
    /// Well-formedness: every idle buffer is well-formed, and the configured
    /// capacity is one that can be allocated.
    pub closed spec fn wf(&self) -> bool {
        &&& self.capacity <= max_capacity()
        &&& forall|i: int| 0 <= i < self.free_list@.len() ==> (#[trigger] self.free_list@[i]).wf()
    }

    /// In a well-formed pool the idle buffers are well-formed, and the counts
    /// are machine words.
    pub proof fn lemma_wf_valid(&self)
        requires
            self.wf(),
        ensures
            self@.capacity <= max_capacity(),
            self@.allocated <= usize::MAX,
            self@.free.len() <= usize::MAX,
            forall|i: int| 0 <= i < self@.free.len() ==> (#[trigger] self@.free[i]).wf(),
    {
        assert(self.free_list.len() == self.free_list@.len());
    }

    /// Creates a pool that holds `initial_size` idle buffers, each empty and
    /// of capacity `capacity`, with nothing outstanding.
    pub fn new(initial_size: usize, capacity: usize) -> (pool: Self)
        requires
            capacity <= max_capacity(),
        ensures
            pool.wf(),
            pool@.free.len() == initial_size,
            forall|i: int|
                0 <= i < initial_size ==> (#[trigger] pool@.free[i])@ == MBufView::fresh(
                    capacity as nat,
                ),
            pool@.allocated == 0,
            pool@.capacity == capacity,
    {
        let mut free_list: Vec<MBuf> = Vec::new();
        let mut made: usize = 0;
        while made < initial_size
            invariant
                made <= initial_size,
                capacity <= max_capacity(),
                free_list@.len() == made,
                forall|i: int| 0 <= i < made ==> (#[trigger] free_list@[i]).wf(),
                forall|i: int|
                    0 <= i < made ==> (#[trigger] free_list@[i])@ == MBufView::fresh(
                        capacity as nat,
                    ),
            decreases initial_size - made,
        {
            free_list.push(MBuf::with_capacity(capacity));
            made += 1;
        }
        MPool { free_list, allocated_count: 0, capacity }
    }

    /// Hands out a buffer: the idle buffer that came back last, as it came
    /// back, or a new empty buffer of the configured capacity where none is
    /// idle. Either way one more buffer is outstanding.
    pub fn acquire(&mut self) -> (buf: MBuf)
        requires
            old(self).wf(),
        ensures
            final(self).wf(),
            final(self)@ == old(self)@.acquire(),
            buf.wf(),
            old(self)@.free.len() > 0 ==> buf == old(self)@.free.last(),
            old(self)@.free.len() == 0 ==> buf@ == MBufView::fresh(old(self)@.capacity),
    {
        self.allocated_count = self.allocated_count.wrapping_add(1);
        match self.free_list.pop() {
            Some(buf) => buf,
            None => MBuf::with_capacity(self.capacity),
        }
    }

    /// Takes `buf` back as it is, whatever it holds and whatever capacity it
    /// has grown to. One buffer fewer is outstanding.
    pub fn free(&mut self, buf: MBuf)
        requires
            old(self).wf(),
            buf.wf(),
        ensures
            final(self).wf(),
            final(self)@ == old(self)@.free(buf),
    {
        self.free_list.push(buf);
        self.allocated_count = self.allocated_count.wrapping_sub(1);
    }

    /// The number of buffers handed out and not yet taken back.
    pub fn allocated_count(&self) -> (count: usize)
        ensures
            count == self@.allocated,
    {
        self.allocated_count
    }

    /// The number of idle buffers.
    pub fn free_count(&self) -> (count: usize)
        ensures
            count == self@.free.len(),
    {
        self.free_list.len()
    }
}

} // verus!
