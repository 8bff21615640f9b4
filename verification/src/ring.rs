//! The queue itself: the shared slot buffer with its two position
//! counters, and the producer and consumer endpoints.
//!
//! All state lives in the [`RingBuffer`]: a fixed ring of `capacity`
//! slots, of which exactly the live ones hold a value, and the `head` and
//! `tail` counters in the doubled position space.  The endpoints hold
//! only counters: each one's own counter (always equal to the shared
//! one) and a cached copy of the other side's, which may lag.  Every
//! endpoint operation therefore takes the buffer as an explicit
//! argument.
//!
//! The well-formedness invariant ties the three together: both counters
//! are legal doubled positions, at most `capacity` slots are in use, and
//! a slot holds a value exactly when it lies between `head` and `tail`.

use crate::errors::PeekError;
use crate::errors::PopError;
use crate::errors::PushError;
use crate::errors::SlicesError;
use crate::padded::padded_new;
use crate::padded::padded_read;
use crate::padded::padded_value;
use crate::padded::padded_write;
use crate::positions::add_pos;
use crate::positions::collapse;
use crate::positions::dist;
use crate::positions::lemma_add_dist;
use crate::positions::lemma_add_pos_compose;
use crate::positions::lemma_add_pos_valid;
use crate::positions::lemma_dist_grow;
use crate::positions::lemma_dist_shrink;
use crate::positions::lemma_slot_of_injective;
use crate::positions::lemma_slot_of_range;
use crate::positions::lemma_slot_of_shift;
use crate::positions::lemma_slot_of_wrap;
use crate::positions::slot_of;
use crate::positions::valid_capacity;
use crate::positions::valid_pos;
use vstd::pervasive::unreached;
use vstd::prelude::*;

verus! {

/// A bounded single-producer single-consumer queue.
///
/// The slot at collapsed index `k` holds a value exactly when `k` lies
/// between `head` and `tail`; the element order of the queue is the
/// walking order from `head`.
pub struct RingBuffer<T> {
    /// The slots.  A `Some` is a live element; a `None` is free space.
    buffer: Vec<Option<T>>,

    /// The head of the queue, in `0 .. 2 * capacity`, on its own cache
    /// line.  Only the consumer side advances it.
    head: cache_padded::CachePadded<usize>,

    /// The tail of the queue, in `0 .. 2 * capacity`, on its own cache
    /// line.  Only the producer side advances it.
    tail: cache_padded::CachePadded<usize>,

    /// The queue capacity.
    capacity: usize,
}

impl<T> RingBuffer<T> {
    /// The capacity, as a mathematical integer.
    pub closed spec fn cap(&self) -> int {
        self.capacity as int
    }

    /// The head position in the doubled space.
    pub closed spec fn head_pos(&self) -> int {
        padded_value(self.head) as int
    }

    /// The tail position in the doubled space.
    pub closed spec fn tail_pos(&self) -> int {
        padded_value(self.tail) as int
    }

    /// How many slots are in use.
    pub open spec fn used(&self) -> int {
        dist(self.head_pos(), self.tail_pos(), self.cap())
    }

    /// The well-formedness invariant: legal capacity and positions, at
    /// most `capacity` slots in use, and a slot holds a value exactly
    /// when it is live.
    pub closed spec fn wf(&self) -> bool {
        &&& valid_capacity(self.cap())
        &&& self.buffer.len() == self.capacity
        &&& valid_pos(self.head_pos(), self.cap())
        &&& valid_pos(self.tail_pos(), self.cap())
        &&& self.used() <= self.cap()
        &&& forall|i: int|
            0 <= i < self.used() ==> (#[trigger] self.buffer[slot_of(
                self.head_pos(),
                i,
                self.cap(),
            )]) is Some
        &&& forall|i: int|
            self.used() <= i < self.cap() ==> (#[trigger] self.buffer[slot_of(
                self.head_pos(),
                i,
                self.cap(),
            )]) is None
    }

    /// Creates a queue with the given capacity.  All slots start free
    /// and both counters start at zero.
    pub fn new(capacity: usize) -> (rb: RingBuffer<T>)
        requires
            1 <= capacity,
            2 * capacity <= usize::MAX,
        ensures
            rb.wf(),
            rb@ == Seq::<T>::empty(),
            rb.cap() == capacity,
            rb.head_pos() == 0,
            rb.tail_pos() == 0,
    {
        let mut buffer: Vec<Option<T>> = Vec::new();
        let mut i: usize = 0;
        while i < capacity
            invariant
                buffer.len() == i,
                i <= capacity,
                forall|k: int| 0 <= k < i ==> buffer[k] is None,
            decreases capacity - i,
        {
            buffer.push(None);
            i = i + 1;
        }
        let rb = RingBuffer { buffer, head: padded_new(0), tail: padded_new(0), capacity };
        proof {
            assert forall|k: int| 0 <= k < rb.cap() implies rb.buffer[slot_of(
                rb.head_pos(),
                k,
                rb.cap(),
            )] is None by {
                lemma_slot_of_range(rb.head_pos(), k, rb.cap());
            }
            assert(rb@ =~= Seq::<T>::empty());
        }
        rb
    }

    /// Returns the capacity of the queue.
    pub fn capacity(&self) -> (r: usize)
        ensures
            r == self.cap(),
    {
        self.capacity
    }

    /// Hands out the two endpoints, each seeing the queue as it is now.
    pub fn split(&self) -> (pc: (Producer, Consumer))
        requires
            self.wf(),
        ensures
            pc.0.wf(self),
            pc.1.wf(self),
            pc.0.head_cached_pos() == self.head_pos(),
            pc.1.tail_cached_pos() == self.tail_pos(),
    {
        let head = padded_read(&self.head);
        let tail = padded_read(&self.tail);
        let p = Producer { head_cached: head, tail_local: tail };
        let c = Consumer { head_local: head, tail_cached: tail };
        (p, c)
    }

    /// Wraps a position from `0 .. 2 * capacity` to `0 .. capacity`.
    pub(crate) fn collapse_position(&self, pos: usize) -> (r: usize)
        requires
            valid_capacity(self.cap()),
            valid_pos(pos as int, self.cap()),
        ensures
            r == collapse(pos as int, self.cap()),
    {
        if pos < self.capacity {
            pos
        } else {
            pos - self.capacity
        }
    }

    /// Steps a position forward by `n` slots, wrapping at `2 * capacity`.
    pub(crate) fn increment(&self, pos: usize, n: usize) -> (r: usize)
        requires
            valid_capacity(self.cap()),
            valid_pos(pos as int, self.cap()),
            n <= 2 * self.cap(),
        ensures
            r == add_pos(pos as int, n as int, self.cap()),
    {
        let threshold = 2 * self.capacity - n;
        if pos < threshold {
            pos + n
        } else {
            pos - threshold
        }
    }

    /// Steps a position one slot forward, without the general
    /// subtraction of [`RingBuffer::increment`].
    pub(crate) fn increment1(&self, pos: usize) -> (r: usize)
        requires
            valid_capacity(self.cap()),
            valid_pos(pos as int, self.cap()),
        ensures
            r == add_pos(pos as int, 1, self.cap()),
    {
        if pos < 2 * self.capacity - 1 {
            pos + 1
        } else {
            0
        }
    }

    /// The number of steps forward from position `a` to position `b`.
    pub(crate) fn distance(&self, a: usize, b: usize) -> (r: usize)
        requires
            valid_capacity(self.cap()),
            valid_pos(a as int, self.cap()),
            valid_pos(b as int, self.cap()),
        ensures
            r == dist(a as int, b as int, self.cap()),
    {
        if a <= b {
            b - a
        } else {
            2 * self.capacity - a + b
        }
    }
}

impl<T> View for RingBuffer<T> {
    type V = Seq<T>;

    /// The live elements, in queue order: the element `i` steps after
    /// `head` is the `i`-th of the queue.
    closed spec fn view(&self) -> Seq<T> {
        Seq::new(
            self.used() as nat,
            |i: int| self.buffer[slot_of(self.head_pos(), i, self.cap())]->0,
        )
    }
}

/// At every observation point of a well-formed queue, the number of
/// live elements lies between zero and the capacity.
pub proof fn lemma_len_bounded<T>(rb: &RingBuffer<T>)
    requires
        rb.wf(),
    ensures
        0 <= rb@.len() <= rb.cap(),
{
}

/// A vector of `len` default-constructed elements.
fn default_vec<T: Default>(len: usize) -> (v: Vec<T>)
    ensures
        v@.len() == len,
{
    let mut v: Vec<T> = Vec::new();
    let mut i: usize = 0;
    while i < len
        invariant
            v@.len() == i,
            i <= len,
        decreases len - i,
    {
        v.push(T::default());
        i = i + 1;
    }
    v
}

/// The writing endpoint of a queue.  It holds the authoritative tail
/// position and a cached, possibly stale copy of the head.
#[derive(Debug)]
pub struct Producer {
    /// Cached copy of the queue's head.  May lag: it is refreshed only
    /// when the fast check would otherwise refuse an operation.
    head_cached: usize,

    /// The producer's copy of the queue's tail, always in sync.
    tail_local: usize,
}

impl Producer {
    /// The cached head position.
    pub closed spec fn head_cached_pos(&self) -> int {
        self.head_cached as int
    }

    /// The local tail position.
    pub closed spec fn tail_local_pos(&self) -> int {
        self.tail_local as int
    }

    /// Well-formedness against a queue: the local tail is the queue's
    /// tail, and the cached head is a legal position that never makes
    /// the queue look emptier than it is.  The producer may therefore
    /// see too few free slots, never too many.
    pub open spec fn wf<T>(&self, rb: &RingBuffer<T>) -> bool {
        &&& rb.wf()
        &&& self.tail_local_pos() == rb.tail_pos()
        &&& valid_pos(self.head_cached_pos(), rb.cap())
        &&& dist(self.head_cached_pos(), rb.tail_pos(), rb.cap()) <= rb.cap()
        &&& rb.used() <= dist(self.head_cached_pos(), rb.tail_pos(), rb.cap())
    }

    /// Looks up the tail position of the next free slot, if the queue
    /// has room: the fast check against the cached head, with one
    /// refresh when that check alone would report a full queue.
    fn next_tail<T>(&mut self, rb: &RingBuffer<T>) -> (r: Option<usize>)
        requires
            old(self).wf(rb),
        ensures
            final(self).wf(rb),
            final(self).tail_local_pos() == old(self).tail_local_pos(),
            match r {
                Some(t) => t as int == rb.tail_pos() && rb.used() < rb.cap() && dist(
                    final(self).head_cached_pos(),
                    rb.tail_pos(),
                    rb.cap(),
                ) < rb.cap(),
                None => rb.used() == rb.cap() && final(self).head_cached_pos() == rb.head_pos(),
            },
    {
        let tail = self.tail_local;
        if rb.distance(self.head_cached, tail) == rb.capacity {
            let head = padded_read(&rb.head);
            self.head_cached = head;
            if rb.distance(head, tail) == rb.capacity {
                return None;
            }
        }
        Some(tail)
    }

    /// Moves a value into the free slot at the tail and advances the
    /// tail by one.  The insertion appends the value to the queue's
    /// contents and touches nothing else.
    fn insert_value<T>(&mut self, rb: &mut RingBuffer<T>, value: T)
        requires
            old(self).wf(old(rb)),
            old(rb).used() < old(rb).cap(),
            dist(old(self).head_cached_pos(), old(rb).tail_pos(), old(rb).cap()) < old(rb).cap(),
        ensures
            final(self).wf(final(rb)),
            final(self).head_cached_pos() == old(self).head_cached_pos(),
            final(rb).cap() == old(rb).cap(),
            final(rb).head_pos() == old(rb).head_pos(),
            final(rb).tail_pos() == add_pos(old(rb).tail_pos(), 1, old(rb).cap()),
            final(rb)@ == old(rb)@.push(value),
    {
        let ghost c = rb.cap();
        let ghost h = rb.head_pos();
        let ghost t = rb.tail_pos();
        let ghost u = rb.used();
        let tail = self.tail_local;
        let idx = rb.collapse_position(tail);
        proof {
            lemma_add_dist(h, t, c);
            lemma_slot_of_range(h, u, c);
            assert(idx == slot_of(h, u, c));
        }
        rb.buffer.set(idx, Some(value));
        let new_tail = rb.increment1(tail);
        padded_write(&mut rb.tail, new_tail);
        self.tail_local = new_tail;
        proof {
            lemma_add_pos_valid(t, 1, c);
            lemma_dist_grow(h, t, 1, c);
            assert(rb.used() == u + 1);
            assert forall|i: int| 0 <= i < c && i != u implies slot_of(h, i, c) != slot_of(
                h,
                u,
                c,
            ) by {
                lemma_slot_of_injective(h, i, u, c);
            }
            assert(rb.wf());
            assert(rb@ =~= old(rb)@.push(value));
        }
    }

    /// Attempts to push an element into the queue.
    ///
    /// On success the value becomes the new last element.  If the queue
    /// is full, the value is handed back intact and nothing changes.
    pub fn push<T>(&mut self, rb: &mut RingBuffer<T>, value: T) -> (r: Result<
        (),
        PushError<T>,
    >)
        requires
            old(self).wf(old(rb)),
        ensures
            final(self).wf(final(rb)),
            final(rb).cap() == old(rb).cap(),
            final(rb).head_pos() == old(rb).head_pos(),
            match r {
                Ok(_) => old(rb)@.len() < old(rb).cap() && final(rb)@ == old(rb)@.push(value)
                    && final(rb).tail_pos() == add_pos(old(rb).tail_pos(), 1, old(rb).cap()),
                Err(e) => e == PushError::Full(value) && old(rb)@.len() == old(rb).cap()
                    && *final(rb) == *old(rb),
            },
            forall|cons: Consumer| cons.wf(old(rb)) ==> cons.wf(final(rb)),
    {
        match self.next_tail(rb) {
            Some(_tail) => {
                self.insert_value(rb, value);
                proof {
                    lemma_dist_grow(rb.head_pos(), old(rb).tail_pos(), 1, rb.cap());
                }
                Ok(())
            },
            None => Err(PushError::Full(value)),
        }
    }

    /// Appends every element of `values` to the queue, advancing the
    /// tail once per element.
    fn push_all<T>(&mut self, rb: &mut RingBuffer<T>, values: Vec<T>)
        requires
            old(self).wf(old(rb)),
            dist(old(self).head_cached_pos(), old(rb).tail_pos(), old(rb).cap()) + values@.len()
                <= old(rb).cap(),
        ensures
            final(self).wf(final(rb)),
            final(self).head_cached_pos() == old(self).head_cached_pos(),
            final(rb).cap() == old(rb).cap(),
            final(rb).head_pos() == old(rb).head_pos(),
            final(rb).tail_pos() == add_pos(
                old(rb).tail_pos(),
                values@.len() as int,
                old(rb).cap(),
            ),
            final(rb)@ == old(rb)@ + values@,
    {
        let ghost c = rb.cap();
        let ghost hc = self.head_cached_pos();
        let ghost t0 = rb.tail_pos();
        let ghost vals = values@;
        let mut values = values;
        let n = values.len();
        let mut i: usize = 0;
        while i < n
            invariant
                i <= n,
                n == vals.len(),
                values@ == vals.skip(i as int),
                self.wf(rb),
                self.head_cached_pos() == hc,
                rb.cap() == c,
                rb.head_pos() == old(rb).head_pos(),
                rb.tail_pos() == add_pos(t0, i as int, c),
                valid_pos(t0, c),
                dist(hc, rb.tail_pos(), c) == dist(hc, t0, c) + i,
                dist(hc, t0, c) + n <= c,
                rb@ == old(rb)@ + vals.take(i as int),
            decreases n - i,
        {
            let ghost t_i = rb.tail_pos();
            let v = values.remove(0);
            proof {
                assert(v == vals[i as int]);
                assert(values@ =~= vals.skip(i as int + 1));
            }
            self.insert_value(rb, v);
            proof {
                lemma_dist_grow(hc, t_i, 1, c);
                lemma_add_pos_compose(t0, i as int, 1, c);
                assert(rb@ =~= old(rb)@ + vals.take(i as int + 1));
            }
            i = i + 1;
        }
        proof {
            assert(vals.take(n as int) =~= vals);
        }
    }

    /// Reserves `n` slots for in-place writing.
    ///
    /// On success the handle holds `n` default-constructed elements,
    /// split into the run up to the end of the ring and the wrapped
    /// remainder, exactly as they will be laid out; the reservation is
    /// all-or-nothing.  The caller overwrites them and publishes the
    /// whole batch with [`Producer::commit_slices`]; until then the
    /// queue is untouched.  If fewer than `n` slots are free, the
    /// number of free slots is reported instead.
    pub fn push_slices<T: Default>(&mut self, rb: &RingBuffer<T>, n: usize) -> (r: Result<
        PushSlices<T>,
        SlicesError,
    >)
        requires
            old(self).wf(rb),
        ensures
            final(self).wf(rb),
            final(self).tail_local_pos() == old(self).tail_local_pos(),
            match r {
                Ok(ps) => {
                    &&& n <= rb.cap() - rb@.len()
                    &&& ps.first@.len() + ps.second@.len() == n
                    &&& ps.first@.len() == (if n <= rb.cap() - collapse(rb.tail_pos(), rb.cap()) {
                        n as int
                    } else {
                        rb.cap() - collapse(rb.tail_pos(), rb.cap())
                    })
                    &&& dist(final(self).head_cached_pos(), rb.tail_pos(), rb.cap()) + n
                        <= rb.cap()
                },
                Err(e) => {
                    &&& e == SlicesError::TooFewSlots((rb.cap() - rb@.len()) as usize)
                    &&& n > rb.cap() - rb@.len()
                },
            },
    {
        let tail = self.tail_local;
        let mut free = rb.capacity - rb.distance(self.head_cached, tail);
        if free < n {
            let head = padded_read(&rb.head);
            self.head_cached = head;
            free = rb.capacity - rb.distance(head, tail);
            if free < n {
                return Err(SlicesError::TooFewSlots(free));
            }
        }
        let k = rb.collapse_position(tail);
        let first_len = if n <= rb.capacity - k {
            n
        } else {
            rb.capacity - k
        };
        let first = default_vec(first_len);
        let second = default_vec(n - first_len);
        Ok(PushSlices { first, second })
    }

    /// Publishes a filled reservation: appends all elements of
    /// `slices.first`, then all of `slices.second`, and advances the
    /// tail by exactly `first.len() + second.len()`.  Only now does the
    /// batch become visible to the consumer.
    pub fn commit_slices<T>(&mut self, rb: &mut RingBuffer<T>, slices: PushSlices<T>)
        requires
            old(self).wf(old(rb)),
            dist(old(self).head_cached_pos(), old(rb).tail_pos(), old(rb).cap())
                + slices.first@.len() + slices.second@.len() <= old(rb).cap(),
        ensures
            final(self).wf(final(rb)),
            final(rb).cap() == old(rb).cap(),
            final(rb).head_pos() == old(rb).head_pos(),
            final(rb).tail_pos() == add_pos(
                old(rb).tail_pos(),
                slices.first@.len() + slices.second@.len() as int,
                old(rb).cap(),
            ),
            final(rb)@ == old(rb)@ + slices.first@ + slices.second@,
            forall|cons: Consumer| cons.wf(old(rb)) ==> cons.wf(final(rb)),
    {
        let ghost c = rb.cap();
        let ghost t0 = rb.tail_pos();
        let ghost f = slices.first@;
        let ghost s = slices.second@;
        let PushSlices { first, second } = slices;
        self.push_all(rb, first);
        proof {
            lemma_dist_grow(self.head_cached_pos(), t0, f.len() as int, c);
        }
        self.push_all(rb, second);
        proof {
            lemma_add_pos_compose(t0, f.len() as int, s.len() as int, c);
            assert(rb@ =~= old(rb)@ + f + s);
        }
    }

    /// Returns the number of slots available for writing, refreshing
    /// the cached head.
    pub fn slots<T>(&mut self, rb: &RingBuffer<T>) -> (r: usize)
        requires
            old(self).wf(rb),
        ensures
            final(self).wf(rb),
            final(self).tail_local_pos() == old(self).tail_local_pos(),
            r == rb.cap() - rb@.len(),
    {
        let head = padded_read(&rb.head);
        self.head_cached = head;
        let used = rb.distance(head, self.tail_local);
        rb.capacity - used
    }

    /// Returns `true` if there is no slot available for writing.
    pub fn is_full<T>(&mut self, rb: &RingBuffer<T>) -> (r: bool)
        requires
            old(self).wf(rb),
        ensures
            final(self).wf(rb),
            final(self).tail_local_pos() == old(self).tail_local_pos(),
            r == (rb@.len() == rb.cap()),
    {
        self.next_tail(rb).is_none()
    }

    /// Returns the capacity of the queue.
    pub fn capacity<T>(&self, rb: &RingBuffer<T>) -> (r: usize)
        ensures
            r == rb.cap(),
    {
        rb.capacity()
    }
}

/// The reading endpoint of a queue.  It holds the authoritative head
/// position and a cached, possibly stale copy of the tail.
#[derive(Debug)]
pub struct Consumer {
    /// The consumer's copy of the queue's head, always in sync.
    head_local: usize,

    /// Cached copy of the queue's tail.  May lag: it is refreshed only
    /// when the fast check would otherwise refuse an operation.
    tail_cached: usize,
}

impl Consumer {
    /// The local head position.
    pub closed spec fn head_local_pos(&self) -> int {
        self.head_local as int
    }

    /// The cached tail position.
    pub closed spec fn tail_cached_pos(&self) -> int {
        self.tail_cached as int
    }

    /// Well-formedness against a queue: the local head is the queue's
    /// head, and the cached tail is a legal position that never makes
    /// the queue look fuller than it is.  The consumer may therefore
    /// see too few elements, never too many.
    pub open spec fn wf<T>(&self, rb: &RingBuffer<T>) -> bool {
        &&& rb.wf()
        &&& self.head_local_pos() == rb.head_pos()
        &&& valid_pos(self.tail_cached_pos(), rb.cap())
        &&& dist(rb.head_pos(), self.tail_cached_pos(), rb.cap()) <= rb.used()
    }

    /// Looks up the head position of the next live slot, if there is
    /// one: the fast check against the cached tail, with one refresh
    /// when that check alone would report an empty queue.
    fn next_head<T>(&mut self, rb: &RingBuffer<T>) -> (r: Option<usize>)
        requires
            old(self).wf(rb),
        ensures
            final(self).wf(rb),
            final(self).head_local_pos() == old(self).head_local_pos(),
            match r {
                Some(h) => h as int == rb.head_pos() && rb.used() > 0 && dist(
                    rb.head_pos(),
                    final(self).tail_cached_pos(),
                    rb.cap(),
                ) >= 1,
                None => rb.used() == 0 && final(self).tail_cached_pos() == rb.tail_pos(),
            },
    {
        let head = self.head_local;
        if head == self.tail_cached {
            let tail = padded_read(&rb.tail);
            self.tail_cached = tail;
            if head == tail {
                return None;
            }
        }
        Some(head)
    }

    /// Moves the value out of the live slot at the head and advances
    /// the head by one.  The removal takes the queue's first element
    /// and touches nothing else.
    fn remove_value<T>(&mut self, rb: &mut RingBuffer<T>) -> (r: T)
        requires
            old(self).wf(old(rb)),
            old(rb).used() > 0,
            dist(old(rb).head_pos(), old(self).tail_cached_pos(), old(rb).cap()) >= 1,
        ensures
            final(self).wf(final(rb)),
            final(self).tail_cached_pos() == old(self).tail_cached_pos(),
            final(rb).cap() == old(rb).cap(),
            final(rb).tail_pos() == old(rb).tail_pos(),
            final(rb).head_pos() == add_pos(old(rb).head_pos(), 1, old(rb).cap()),
            r == old(rb)@[0],
            final(rb)@ == old(rb)@.skip(1),
    {
        let ghost c = rb.cap();
        let ghost h = rb.head_pos();
        let ghost t = rb.tail_pos();
        let ghost u = rb.used();
        let head = self.head_local;
        let idx = rb.collapse_position(head);
        proof {
            lemma_slot_of_range(h, 0, c);
            assert(idx == slot_of(h, 0, c));
        }
        let slot = rb.buffer.remove(idx);
        rb.buffer.insert(idx, None);
        proof {
            assert(rb.buffer@ =~= old(rb).buffer@.update(idx as int, None));
        }
        self.advance_head(rb, head, 1);
        proof {
            lemma_add_pos_valid(h, 1, c);
            lemma_dist_shrink(h, t, 1, c);
            assert(rb.used() == u - 1);
            lemma_dist_shrink(h, old(self).tail_cached_pos(), 1, c);
            assert forall|i: int| 0 <= i < c && i != 0 implies #[trigger] slot_of(h, i, c)
                != slot_of(h, 0, c) by {
                lemma_slot_of_injective(h, i, 0, c);
            }
            assert forall|i: int| 0 <= i <= c implies #[trigger] slot_of(rb.head_pos(), i, c)
                == slot_of(h, i + 1, c) by {
                lemma_slot_of_shift(h, i, c);
            }
            lemma_slot_of_wrap(h, c);
            assert(rb.wf());
            assert(rb@ =~= old(rb)@.skip(1));
        }
        match slot {
            Some(v) => v,
            None => unreached(),
        }
    }

    /// Publishes a head position advanced by `n` steps from `head` and
    /// keeps the local copy in sync.  Only the head counter moves: the
    /// slots and the tail stay as they are.
    fn advance_head<T>(&mut self, rb: &mut RingBuffer<T>, head: usize, n: usize)
        requires
            valid_capacity(old(rb).cap()),
            valid_pos(head as int, old(rb).cap()),
            n <= 2 * old(rb).cap(),
        ensures
            final(rb).head_pos() == add_pos(head as int, n as int, old(rb).cap()),
            final(self).head_local_pos() == final(rb).head_pos(),
            final(self).tail_cached_pos() == old(self).tail_cached_pos(),
            final(rb).cap() == old(rb).cap(),
            final(rb).tail_pos() == old(rb).tail_pos(),
            final(rb).buffer == old(rb).buffer,
    {
        let new_head = rb.increment(head, n);
        padded_write(&mut rb.head, new_head);
        self.head_local = new_head;
    }

    /// Attempts to pop an element from the queue.
    ///
    /// On success the first element is moved out and returned.  If the
    /// queue is empty, nothing changes: neither the queue nor the
    /// consumer's head moves.
    pub fn pop<T>(&mut self, rb: &mut RingBuffer<T>) -> (r: Result<T, PopError>)
        requires
            old(self).wf(old(rb)),
        ensures
            final(self).wf(final(rb)),
            final(rb).cap() == old(rb).cap(),
            final(rb).tail_pos() == old(rb).tail_pos(),
            match r {
                Ok(v) => old(rb)@.len() > 0 && v == old(rb)@[0] && final(rb)@ == old(rb)@.skip(1)
                    && final(rb).head_pos() == add_pos(old(rb).head_pos(), 1, old(rb).cap()),
                Err(e) => e == PopError::Empty && old(rb)@.len() == 0 && *final(rb) == *old(rb)
                    && final(self).head_local_pos() == old(self).head_local_pos(),
            },
            forall|prod: Producer| prod.wf(old(rb)) ==> prod.wf(final(rb)),
    {
        match self.next_head(rb) {
            Some(_head) => {
                let value = self.remove_value(rb);
                proof {
                    lemma_dist_shrink(old(rb).head_pos(), old(rb).tail_pos(), 1, rb.cap());
                }
                Ok(value)
            },
            None => Err(PopError::Empty),
        }
    }

    /// Attempts to read the first element without removing it.
    ///
    /// The reference stays valid while the queue is not mutated, so
    /// repeated peeks see the same element.
    pub fn peek<'a, T>(&mut self, rb: &'a RingBuffer<T>) -> (r: Result<&'a T, PeekError>)
        requires
            old(self).wf(rb),
        ensures
            final(self).wf(rb),
            final(self).head_local_pos() == old(self).head_local_pos(),
            match r {
                Ok(v) => rb@.len() > 0 && *v == rb@[0],
                Err(e) => e == PeekError::Empty && rb@.len() == 0,
            },
    {
        match self.next_head(rb) {
            Some(head) => {
                let idx = rb.collapse_position(head);
                proof {
                    lemma_slot_of_range(rb.head_pos(), 0, rb.cap());
                    assert(idx == slot_of(rb.head_pos(), 0, rb.cap()));
                }
                match &rb.buffer[idx] {
                    Some(v) => Ok(v),
                    None => unreached(),
                }
            },
            None => Err(PeekError::Empty),
        }
    }

    /// Removes the first `n` elements, handing them out in two runs in
    /// queue order: `first` holds the run up to the end of the ring,
    /// `second` the wrapped remainder, so their concatenation is the
    /// front of the queue in FIFO order.  The handle owns the elements;
    /// they are destructed when it goes out of scope.  The removal is
    /// all-or-nothing: if fewer than `n` elements are available, the
    /// number available is reported and nothing changes.
    pub fn pop_slices<T>(&mut self, rb: &mut RingBuffer<T>, n: usize) -> (r: Result<
        PopSlices<T>,
        SlicesError,
    >)
        requires
            old(self).wf(old(rb)),
        ensures
            final(self).wf(final(rb)),
            final(rb).cap() == old(rb).cap(),
            final(rb).tail_pos() == old(rb).tail_pos(),
            match r {
                Ok(ps) => {
                    &&& n <= old(rb)@.len()
                    &&& ps.first@ + ps.second@ == old(rb)@.take(n as int)
                    &&& ps.first@.len() + ps.second@.len() == n
                    &&& ps.first@.len() == (if n <= old(rb).cap() - collapse(
                        old(rb).head_pos(),
                        old(rb).cap(),
                    ) {
                        n as int
                    } else {
                        old(rb).cap() - collapse(old(rb).head_pos(), old(rb).cap())
                    })
                    &&& final(rb)@ == old(rb)@.skip(n as int)
                    &&& final(rb).head_pos() == add_pos(
                        old(rb).head_pos(),
                        n as int,
                        old(rb).cap(),
                    )
                },
                Err(e) => {
                    &&& e == SlicesError::TooFewSlots(old(rb)@.len() as usize)
                    &&& n > old(rb)@.len()
                    &&& *final(rb) == *old(rb)
                    &&& final(self).head_local_pos() == old(self).head_local_pos()
                },
            },
            forall|prod: Producer| prod.wf(old(rb)) ==> prod.wf(final(rb)),
    {
        let ghost c = rb.cap();
        let ghost h0 = rb.head_pos();
        let ghost u0 = rb.used();
        let head = self.head_local;
        let mut avail = rb.distance(head, self.tail_cached);
        if avail < n {
            let tail = padded_read(&rb.tail);
            self.tail_cached = tail;
            avail = rb.distance(head, tail);
            if avail < n {
                return Err(SlicesError::TooFewSlots(avail));
            }
        }
        let k = rb.collapse_position(head);
        let first_len = if n <= rb.capacity - k {
            n
        } else {
            rb.capacity - k
        };
        let mut first: Vec<T> = Vec::new();
        let mut second: Vec<T> = Vec::new();
        let mut i: usize = 0;
        while i < n
            invariant
                i <= n,
                n <= u0,
                u0 <= c,
                first_len <= n,
                first_len == (if n <= c - collapse(h0, c) {
                    n as int
                } else {
                    c - collapse(h0, c)
                }),
                self.wf(rb),
                rb.cap() == c,
                rb.tail_pos() == old(rb).tail_pos(),
                rb.head_pos() == add_pos(h0, i as int, c),
                valid_pos(h0, c),
                u0 == old(rb)@.len(),
                rb@ == old(rb)@.skip(i as int),
                dist(rb.head_pos(), self.tail_cached_pos(), c) + i >= n,
                i <= first_len ==> first@ == old(rb)@.take(i as int) && second@.len() == 0,
                i > first_len ==> first@ == old(rb)@.take(first_len as int) && second@ == old(
                    rb,
                )@.subrange(first_len as int, i as int),
            decreases n - i,
        {
            let ghost h_i = rb.head_pos();
            let ghost tc = self.tail_cached_pos();
            let v = self.remove_value(rb);
            proof {
                lemma_dist_shrink(h_i, tc, 1, c);
                lemma_add_pos_compose(h0, i as int, 1, c);
                assert(v == old(rb)@[i as int]);
            }
            if i < first_len {
                first.push(v);
                proof {
                    assert(first@ =~= old(rb)@.take(i as int + 1));
                }
            } else {
                second.push(v);
                proof {
                    assert(second@ =~= old(rb)@.subrange(first_len as int, i as int + 1));
                }
            }
            i = i + 1;
        }
        proof {
            assert(first@ + second@ =~= old(rb)@.take(n as int));
        }
        Ok(PopSlices { first, second })
    }

    /// Copies the first `n` elements without removing them, in the
    /// same two-run layout as [`Consumer::pop_slices`].  Neither the
    /// queue nor the consumer's head moves, so a repeated peek sees
    /// the same elements.  All-or-nothing: if fewer than `n` elements
    /// are available, the number available is reported.
    pub fn peek_slices<T: Copy>(&mut self, rb: &RingBuffer<T>, n: usize) -> (r: Result<
        PeekSlices<T>,
        SlicesError,
    >)
        requires
            old(self).wf(rb),
        ensures
            final(self).wf(rb),
            final(self).head_local_pos() == old(self).head_local_pos(),
            match r {
                Ok(ps) => {
                    &&& n <= rb@.len()
                    &&& ps.first@ + ps.second@ == rb@.take(n as int)
                    &&& ps.first@.len() + ps.second@.len() == n
                    &&& ps.first@.len() == (if n <= rb.cap() - collapse(rb.head_pos(), rb.cap()) {
                        n as int
                    } else {
                        rb.cap() - collapse(rb.head_pos(), rb.cap())
                    })
                },
                Err(e) => {
                    &&& e == SlicesError::TooFewSlots(rb@.len() as usize)
                    &&& n > rb@.len()
                },
            },
    {
        let ghost c = rb.cap();
        let ghost h0 = rb.head_pos();
        let head = self.head_local;
        let mut avail = rb.distance(head, self.tail_cached);
        if avail < n {
            let tail = padded_read(&rb.tail);
            self.tail_cached = tail;
            avail = rb.distance(head, tail);
            if avail < n {
                return Err(SlicesError::TooFewSlots(avail));
            }
        }
        let k = rb.collapse_position(head);
        let first_len = if n <= rb.capacity - k {
            n
        } else {
            rb.capacity - k
        };
        let mut first: Vec<T> = Vec::new();
        let mut second: Vec<T> = Vec::new();
        let mut pos = head;
        let mut i: usize = 0;
        while i < n
            invariant
                i <= n,
                n <= rb@.len(),
                n as int <= c,
                first_len <= n,
                first_len == (if n <= c - collapse(h0, c) {
                    n as int
                } else {
                    c - collapse(h0, c)
                }),
                self.wf(rb),
                rb.cap() == c,
                h0 == rb.head_pos(),
                pos as int == add_pos(h0, i as int, c),
                i <= first_len ==> first@ == rb@.take(i as int) && second@.len() == 0,
                i > first_len ==> first@ == rb@.take(first_len as int) && second@ == rb@.subrange(
                    first_len as int,
                    i as int,
                ),
            decreases n - i,
        {
            proof {
                lemma_add_pos_valid(h0, i as int, c);
                lemma_slot_of_range(h0, i as int, c);
            }
            let idx = rb.collapse_position(pos);
            let v = match &rb.buffer[idx] {
                Some(x) => *x,
                None => unreached(),
            };
            proof {
                assert(v == rb@[i as int]);
            }
            if i < first_len {
                first.push(v);
                proof {
                    assert(first@ =~= rb@.take(i as int + 1));
                }
            } else {
                second.push(v);
                proof {
                    assert(second@ =~= rb@.subrange(first_len as int, i as int + 1));
                }
            }
            pos = rb.increment1(pos);
            proof {
                lemma_add_pos_compose(h0, i as int, 1, c);
            }
            i = i + 1;
        }
        proof {
            assert(first@ + second@ =~= rb@.take(n as int));
        }
        Ok(PeekSlices { first, second })
    }

    /// Returns the number of slots available for reading, refreshing
    /// the cached tail.
    pub fn slots<T>(&mut self, rb: &RingBuffer<T>) -> (r: usize)
        requires
            old(self).wf(rb),
        ensures
            final(self).wf(rb),
            final(self).head_local_pos() == old(self).head_local_pos(),
            r == rb@.len(),
    {
        let tail = padded_read(&rb.tail);
        self.tail_cached = tail;
        rb.distance(self.head_local, tail)
    }

    /// Returns `true` if there is no element available for reading.
    pub fn is_empty<T>(&mut self, rb: &RingBuffer<T>) -> (r: bool)
        requires
            old(self).wf(rb),
        ensures
            final(self).wf(rb),
            final(self).head_local_pos() == old(self).head_local_pos(),
            r == (rb@.len() == 0),
    {
        self.next_head(rb).is_none()
    }

    /// Returns the capacity of the queue.
    pub fn capacity<T>(&self, rb: &RingBuffer<T>) -> (r: usize)
        ensures
            r == rb.cap(),
    {
        rb.capacity()
    }
}

/// Two runs of slots reserved for writing, handed out by
/// [`Producer::push_slices`].  The caller fills the elements in place
/// and then publishes the whole reservation with
/// [`Producer::commit_slices`]; nothing is visible to the consumer
/// before that.
#[derive(Debug)]
pub struct PushSlices<T> {
    /// First run of reserved slots.  Empty only if zero slots were
    /// requested.
    pub first: Vec<T>,
    /// Second run, wrapped around to the start of the ring.  Empty
    /// whenever the reservation does not wrap.
    pub second: Vec<T>,
}

/// Two runs of elements removed from the queue by
/// [`Consumer::pop_slices`], in queue order: all of `first`, then all of
/// `second`.  The handle owns the elements; they are destructed when it
/// goes out of scope.
#[derive(Debug)]
pub struct PopSlices<T> {
    /// First run of removed elements.  Empty only if zero slots were
    /// requested.
    pub first: Vec<T>,
    /// Second run, from the wrapped part of the live region.  Empty
    /// whenever the live region read does not wrap.
    pub second: Vec<T>,
}

/// Two runs of elements copied out of the queue by
/// [`Consumer::peek_slices`], in queue order.  The queue is left
/// untouched.
#[derive(Debug)]
pub struct PeekSlices<T> {
    /// First run of copied elements.  Empty only if zero slots were
    /// requested.
    pub first: Vec<T>,
    /// Second run, from the wrapped part of the live region.  Empty
    /// whenever the region read does not wrap.
    pub second: Vec<T>,
}

} // verus!
