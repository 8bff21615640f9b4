//! A bounded single-producer single-consumer FIFO queue.
//!
//! A [`RingBuffer`] stores up to `capacity` elements in a fixed ring of
//! slots.  Its two position counters live in a doubled position space
//! `0 .. 2 * capacity`, which lets `head == tail` mean "empty" while a
//! distance of `capacity` means "full", without wasting a slot.
//!
//! [`RingBuffer::split`] hands out a [`Producer`] and a [`Consumer`]
//! endpoint.  Each endpoint keeps its own counter and a cached copy of the
//! other side's counter; the cached copy may lag behind and is refreshed
//! only when a fast check would otherwise force a `Full`, `Empty` or
//! `TooFewSlots` decision.  Every operation is total: it returns
//! immediately, either with its result or with a structural error.

use vstd::prelude::*;

mod errors;
mod padded;
mod positions;
mod ring;

pub use errors::PeekError;
pub use errors::PopError;
pub use errors::PushError;
pub use errors::SlicesError;
pub use positions::add_pos;
pub use positions::collapse;
pub use positions::dist;
pub use positions::lemma_add_pos_compose;
pub use positions::lemma_add_pos_cycle;
pub use positions::lemma_push_then_pop_keeps_usage;
pub use positions::valid_capacity;
pub use positions::valid_pos;
pub use ring::lemma_len_bounded;
pub use ring::Consumer;
pub use ring::PeekSlices;
pub use ring::PopSlices;
pub use ring::Producer;
pub use ring::PushSlices;
pub use ring::RingBuffer;

verus! {

/// The k-th element popped from a queue holding `s` is `s[k]`: popping
/// removes from the front, one element per call, so the k-th successful
/// pop observes exactly the k-th element that was pushed (FIFO order).
pub proof fn lemma_fifo_order<T>(s: Seq<T>, k: int)
    requires
        0 <= k < s.len(),
    ensures
        s.skip(k)[0] == s[k],
{
}

/// Round trip on an empty queue: after `push(v)` the front is `v`, and
/// removing it restores the empty contents.
pub proof fn lemma_push_then_pop_roundtrip<T>(s: Seq<T>, v: T)
    requires
        s.len() == 0,
    ensures
        s.push(v)[0] == v,
        s.push(v).skip(1) =~= s,
{
}

} // verus!
