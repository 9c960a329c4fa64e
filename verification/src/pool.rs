//! A bounded pool of reusable byte buffers shared by chunk workers.
//!
//! `get` never blocks and never fails: a pool miss allocates a fresh,
//! zero-filled buffer.  `put` never blocks and never fails either: when the
//! pool is already at capacity the buffer is silently discarded, since pool
//! overflow is a capacity-tuning concern and not an error of the download.

use vstd::prelude::*;

use crossbeam::queue::ArrayQueue;

verus! {

#[verifier::external_type_specification]
#[verifier::external_body]
#[verifier::reject_recursive_types(T)]
pub struct ExArrayQueue<T>(ArrayQueue<T>);

/// Relies on crossbeam's ArrayQueue::new: builds an empty bounded queue.
/// It panics when the capacity is zero, so that input is excluded.
#[verifier::external_body]
fn queue_new(cap: usize) -> ArrayQueue<Vec<u8>>
    requires
        cap >= 1,
{
    ArrayQueue::new(cap)
}

/// Relies on crossbeam's ArrayQueue::pop: removes one element if the queue
/// holds any.  The queue is shared between threads, so nothing is promised
/// about which buffer comes back, or whether one does.
#[verifier::external_body]
fn queue_pop(q: &ArrayQueue<Vec<u8>>) -> Option<Vec<u8>> {
    q.pop()
}

/// Relies on crossbeam's ArrayQueue::push: stores the element unless the
/// queue is full, in which case it is handed back as the error value.
#[verifier::external_body]
fn queue_push(q: &ArrayQueue<Vec<u8>>, v: Vec<u8>) -> Result<(), Vec<u8>> {
    q.push(v)
}

/// A bounded cache of idle byte buffers, each `buffer_size` bytes long.
pub struct BufferPool {
    pool: ArrayQueue<Vec<u8>>,
    buffer_size: usize,
}

impl BufferPool {
    /// The length every buffer handed out by this pool has.
    pub closed spec fn spec_buffer_size(&self) -> usize {
        self.buffer_size
    }

    /// Build a pool that caches at most `pool_size` idle buffers.
    pub fn new(pool_size: usize, buffer_size: usize) -> (r: BufferPool)
        requires
            pool_size >= 1,
        ensures
            r.spec_buffer_size() == buffer_size,
    {
        BufferPool { pool: queue_new(pool_size), buffer_size }
    }

    /// Take an idle buffer, or allocate a fresh one on a miss.  Never
    /// blocks and never fails; the buffer always comes back zero-filled at
    /// the pool's configured length.
    pub fn get(&self) -> (buf: Vec<u8>)
        ensures
            buf@ == Seq::new(self.spec_buffer_size() as nat, |i: int| 0u8),
    {
        match queue_pop(&self.pool) {
            Some(mut buf) => {
                buf.clear();
                buf.resize(self.buffer_size, 0u8);
                proof {
                    assert(buf@ =~= Seq::new(self.spec_buffer_size() as nat, |i: int| 0u8));
                }
                buf
            },
            None => {
                let mut buf: Vec<u8> = Vec::new();
                buf.resize(self.buffer_size, 0u8);
                proof {
                    assert(buf@ =~= Seq::new(self.spec_buffer_size() as nat, |i: int| 0u8));
                }
                buf
            },
        }
    }

    /// Return a buffer to the pool.  The buffer is cleared and restored to
    /// the configured length first; if the pool is already full the buffer
    /// is dropped silently.  This never fails, whatever the pool's state.
    pub fn put(&self, buf: Vec<u8>)
    {
        let mut buf = buf;
        buf.clear();
        buf.resize(self.buffer_size, 0u8);
        match queue_push(&self.pool, buf) {
            Ok(_) => (),
            Err(_) => (),
        }
    }
}

} // verus!
