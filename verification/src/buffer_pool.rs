//! A bounded pool of receive buffers on the `ArrayQueue` of the `crossbeam` crate.

use crossbeam::queue::ArrayQueue;
use vstd::prelude::*;

verus! {

/// Size of a receive buffer: the largest datagram.
pub const BUFFER_SIZE: usize = 65535;

/// Number of buffers that a session pools.
pub const POOL_SIZE: usize = 32;

/// The largest capacity that a queue can be made with: its slots, of at most 32 bytes each,
/// must fit the address space.
pub open spec fn max_queue_capacity() -> int {
    isize::MAX / 32
}

/// The bounded queue of the `crossbeam` crate.
#[verifier::external_type_specification]
#[verifier::external_body]
#[verifier::reject_recursive_types(T)]
pub struct ExArrayQueue<T>(ArrayQueue<T>);

/// The buffers that a queue holds, oldest first.
pub uninterp spec fn queue_contents(q: ArrayQueue<Vec<u8>>) -> Seq<Seq<u8>>;

/// The capacity that a queue was made with.
pub uninterp spec fn queue_capacity(q: ArrayQueue<Vec<u8>>) -> nat;

/// Calls `ArrayQueue::new`, which panics on a capacity of zero, on one too large to round up
/// to a power of two, and on one whose slots do not fit the address space.
///
/// Trusted: the queue that comes back is empty and has the capacity asked for.
#[verifier::external_body]
fn queue_new(capacity: usize) -> (q: ArrayQueue<Vec<u8>>)
    requires
        0 < capacity <= max_queue_capacity(),
    ensures
        queue_contents(q) == Seq::<Seq<u8>>::empty(),
        queue_capacity(q) == capacity,
{
    ArrayQueue::new(capacity)
}

/// Calls `ArrayQueue::push`.
///
/// Trusted: a queue that holds fewer buffers than its capacity takes the buffer at its back;
/// a full queue stays as it is and hands the buffer back.
#[verifier::external_body]
fn queue_push(q: &mut ArrayQueue<Vec<u8>>, buf: Vec<u8>) -> (res: Result<(), Vec<u8>>)
    ensures
        queue_capacity(*final(q)) == queue_capacity(*old(q)),
        queue_contents(*old(q)).len() < queue_capacity(*old(q)) ==> res is Ok && queue_contents(
            *final(q),
        ) == queue_contents(*old(q)).push(buf@),
        queue_contents(*old(q)).len() >= queue_capacity(*old(q)) ==> res is Err && res->Err_0
            == buf && queue_contents(*final(q)) == queue_contents(*old(q)),
{
    q.push(buf)
}

/// Calls `ArrayQueue::pop`.
///
/// Trusted: an empty queue gives nothing and stays as it is; any other gives its oldest
/// buffer and keeps the rest.
#[verifier::external_body]
fn queue_pop(q: &mut ArrayQueue<Vec<u8>>) -> (res: Option<Vec<u8>>)
    ensures
        queue_capacity(*final(q)) == queue_capacity(*old(q)),
        queue_contents(*old(q)).len() == 0 ==> res is None && queue_contents(*final(q))
            == queue_contents(*old(q)),
        queue_contents(*old(q)).len() > 0 ==> res is Some && res.unwrap()@ == queue_contents(
            *old(q),
        )[0] && queue_contents(*final(q)) == queue_contents(*old(q)).drop_first(),
{
    q.pop()
}

/// A pool of cleared receive buffers. Its capacity bounds the memory that idle buffers take.
pub struct BufferPool {
    pool: ArrayQueue<Vec<u8>>,
}

impl BufferPool {
    /// The number of buffers at rest in the pool.
    pub closed spec fn pooled(&self) -> nat {
        queue_contents(self.pool).len()
    }

    /// The most buffers that the pool keeps.
    pub closed spec fn capacity(&self) -> nat {
        queue_capacity(self.pool)
    }

    /// The pool holds no more buffers than its capacity, and every buffer in it is empty.
    pub closed spec fn wf(&self) -> bool {
        &&& queue_contents(self.pool).len() <= queue_capacity(self.pool)
        &&& forall|i: int|
            0 <= i < queue_contents(self.pool).len() ==> (#[trigger] queue_contents(
                self.pool,
            )[i]).len() == 0
    }

    /// A pool filled with `capacity` buffers. The capacity is not zero, and its slots fit the
    /// address space.
    pub fn new(capacity: usize) -> (p: Self)
        requires
            0 < capacity <= max_queue_capacity(),
        ensures
            p.wf(),
            p.capacity() == capacity,
            p.pooled() == capacity,
    {
        let mut pool = queue_new(capacity);
        let mut i: usize = 0;
        while i < capacity
            invariant
                i <= capacity,
                queue_capacity(pool) == capacity,
                queue_contents(pool).len() == i,
                forall|j: int|
                    0 <= j < queue_contents(pool).len() ==> (#[trigger] queue_contents(
                        pool,
                    )[j]).len() == 0,
            decreases capacity - i,
        {
            let buf: Vec<u8> = Vec::with_capacity(BUFFER_SIZE);
            let _ = queue_push(&mut pool, buf);
            i += 1;
        }
        Self { pool }
    }

    /// Takes a buffer from the pool, or allocates one where the pool is empty. Either way the
    /// buffer is empty.
    pub fn get(&mut self) -> (buf: Vec<u8>)
        requires
            old(self).wf(),
        ensures
            final(self).wf(),
            buf@.len() == 0,
            final(self).capacity() == old(self).capacity(),
            final(self).pooled() == if old(self).pooled() > 0 {
                (old(self).pooled() - 1) as nat
            } else {
                0
            },
    {
        match queue_pop(&mut self.pool) {
            Some(buf) => {
                assert(buf@ == queue_contents(old(self).pool)[0]);
                assert forall|i: int| 0 <= i < queue_contents(self.pool).len() implies (
                #[trigger] queue_contents(self.pool)[i]).len() == 0 by {
                    assert(queue_contents(self.pool)[i] == queue_contents(old(self).pool)[i + 1]);
                }
                buf
            },
            None => Vec::with_capacity(BUFFER_SIZE),
        }
    }

    /// Clears a buffer and returns it to the pool; a full pool drops it.
    pub fn put(&mut self, buf: Vec<u8>)
        requires
            old(self).wf(),
        ensures
            final(self).wf(),
            final(self).capacity() == old(self).capacity(),
            final(self).pooled() == if old(self).pooled() < old(self).capacity() {
                old(self).pooled() + 1
            } else {
                old(self).pooled()
            },
    {
        let mut buf = buf;
        buf.clear();
        let _ = queue_push(&mut self.pool, buf);
    }
}

} // verus!
