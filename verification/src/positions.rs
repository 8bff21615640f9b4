//! Arithmetic on doubled positions.
//!
//! A position is an integer in `0 .. 2 * capacity`.  The slot it refers to
//! is obtained by collapsing: subtract `capacity` once if needed.  Keeping
//! positions in the doubled range distinguishes an empty queue
//! (`head == tail`) from a full one (`dist(head, tail) == capacity`)
//! without a separate element count.

use vstd::prelude::*;

verus! {

/// A capacity the queue accepts: positive, with the doubled position
/// space still fitting in `usize`.
pub open spec fn valid_capacity(c: int) -> bool {
    1 <= c && 2 * c <= usize::MAX
}

/// A doubled position: an index into `0 .. 2 * c`.
pub open spec fn valid_pos(p: int, c: int) -> bool {
    0 <= p < 2 * c
}

/// The slot index in `0 .. c` that a doubled position refers to.
pub open spec fn collapse(p: int, c: int) -> int {
    if p < c {
        p
    } else {
        p - c
    }
}

/// Steps a doubled position forward by `n` slots, wrapping at `2 * c`.
pub open spec fn add_pos(p: int, n: int, c: int) -> int {
    if p + n < 2 * c {
        p + n
    } else {
        p + n - 2 * c
    }
}

/// How many steps forward it takes to walk from `a` to `b` in the
/// doubled space.
pub open spec fn dist(a: int, b: int, c: int) -> int {
    if a <= b {
        b - a
    } else {
        2 * c - a + b
    }
}

/// The slot index of the position `i` steps after `h`.
pub open spec fn slot_of(h: int, i: int, c: int) -> int {
    collapse(add_pos(h, i, c), c)
}

/// Stepping by at most one lap keeps a position in the doubled range.
pub proof fn lemma_add_pos_valid(p: int, n: int, c: int)
    requires
        valid_pos(p, c),
        0 <= n <= 2 * c,
    ensures
        valid_pos(add_pos(p, n, c), c),
{
}

/// Walking from `a` by the distance to `b` lands exactly on `b`.
pub proof fn lemma_add_dist(a: int, b: int, c: int)
    requires
        valid_pos(a, c),
        valid_pos(b, c),
    ensures
        add_pos(a, dist(a, b, c), c) == b,
{
}

/// Advancing the far end by `n` grows the distance by `n`, as long as
/// the walk does not complete a lap.
pub proof fn lemma_dist_grow(a: int, b: int, n: int, c: int)
    requires
        valid_pos(a, c),
        valid_pos(b, c),
        0 <= n,
        dist(a, b, c) + n < 2 * c,
    ensures
        dist(a, add_pos(b, n, c), c) == dist(a, b, c) + n,
{
}

/// Advancing the near end by `n` shrinks the distance by `n`.
pub proof fn lemma_dist_shrink(a: int, b: int, n: int, c: int)
    requires
        valid_pos(a, c),
        valid_pos(b, c),
        0 <= n <= dist(a, b, c),
    ensures
        dist(add_pos(a, n, c), b, c) == dist(a, b, c) - n,
{
}

/// Two steps compose into one step by the summed count.
pub proof fn lemma_add_pos_compose(p: int, m: int, n: int, c: int)
    requires
        valid_pos(p, c),
        0 <= m,
        0 <= n,
        m + n <= 2 * c,
    ensures
        add_pos(add_pos(p, m, c), n, c) == add_pos(p, m + n, c),
{
}

/// A full lap through the doubled space returns to the same position:
/// after `2 * c` single steps a counter has wrapped back to where it
/// started.
pub proof fn lemma_add_pos_cycle(p: int, c: int)
    requires
        valid_pos(p, c),
    ensures
        add_pos(p, 2 * c, c) == p,
{
}

/// Offsets below the capacity land on pairwise distinct slots.
pub proof fn lemma_slot_of_injective(h: int, i: int, j: int, c: int)
    requires
        valid_pos(h, c),
        0 <= i < c,
        0 <= j < c,
        i != j,
    ensures
        slot_of(h, i, c) != slot_of(h, j, c),
{
}

/// Every offset up to the capacity yields a slot index below it.
pub proof fn lemma_slot_of_range(h: int, i: int, c: int)
    requires
        valid_pos(h, c),
        1 <= c,
        0 <= i <= c,
    ensures
        0 <= slot_of(h, i, c) < c,
{
}

/// The slot one full capacity ahead of `h` is the slot of `h` itself.
pub proof fn lemma_slot_of_wrap(h: int, c: int)
    requires
        valid_pos(h, c),
        1 <= c,
    ensures
        slot_of(h, c, c) == slot_of(h, 0, c),
{
}

/// Slots seen from a position one step ahead are the next slots seen
/// from the original position.
pub proof fn lemma_slot_of_shift(h: int, i: int, c: int)
    requires
        valid_pos(h, c),
        0 <= i,
        i + 1 <= 2 * c,
    ensures
        slot_of(add_pos(h, 1, c), i, c) == slot_of(h, i + 1, c),
{
    lemma_add_pos_compose(h, 1, i, c);
}

/// Advancing both counters by one step keeps both positions legal and
/// leaves the distance between them unchanged: a successful push
/// followed by a successful pop restores the queue's slot usage.
pub proof fn lemma_push_then_pop_keeps_usage(h: int, t: int, c: int)
    requires
        valid_pos(h, c),
        valid_pos(t, c),
        dist(h, t, c) < c,
    ensures
        valid_pos(add_pos(h, 1, c), c),
        valid_pos(add_pos(t, 1, c), c),
        dist(add_pos(h, 1, c), add_pos(t, 1, c), c) == dist(h, t, c),
{
    lemma_dist_grow(h, t, 1, c);
    lemma_dist_shrink(h, add_pos(t, 1, c), 1, c);
}

} // verus!
