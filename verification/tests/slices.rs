//! Bulk operations: reserving and committing write slices, popping and
//! peeking element runs, and destructor accounting.

use std::cell::Cell;
use std::rc::Rc;

use rtrb::RingBuffer;
use rtrb::SlicesError;

#[test]
fn zero_slot_requests_succeed_with_empty_runs() {
    let mut rb = RingBuffer::<i32>::new(2);
    let (mut p, mut c) = rb.split();

    let ps = p.push_slices(&rb, 0).unwrap();
    assert_eq!(ps.first.len(), 0);
    assert_eq!(ps.second.len(), 0);
    p.commit_slices(&mut rb, ps);

    let popped = c.pop_slices(&mut rb, 0).unwrap();
    assert_eq!(popped.first.len(), 0);
    assert_eq!(popped.second.len(), 0);
    assert_eq!(c.slots(&rb), 0);
}

#[test]
fn push_slices_after_wrap_splits_in_two() {
    let mut rb = RingBuffer::<i32>::new(3);
    let (mut p, mut c) = rb.split();

    assert_eq!(p.push(&mut rb, 10), Ok(()));
    assert_eq!(c.pop(&mut rb), Ok(10));

    let mut ps = p.push_slices(&rb, 3).unwrap();
    assert_eq!(ps.first.len(), 2);
    assert_eq!(ps.second.len(), 1);
    ps.first[0] = 20;
    ps.first[1] = 30;
    ps.second[0] = 40;
    p.commit_slices(&mut rb, ps);

    assert_eq!(c.pop(&mut rb), Ok(20));
    assert_eq!(c.pop(&mut rb), Ok(30));
    assert_eq!(c.pop(&mut rb), Ok(40));
}

#[test]
fn push_slices_reports_available_slots() {
    let mut rb = RingBuffer::<i32>::new(3);
    let (mut p, _c) = rb.split();

    assert_eq!(p.push(&mut rb, 1), Ok(()));
    assert_eq!(p.push(&mut rb, 2), Ok(()));
    assert!(matches!(p.push_slices(&rb, 3), Err(SlicesError::TooFewSlots(1))));
}

#[test]
fn push_slices_reserves_all_or_nothing() {
    let mut rb = RingBuffer::<i32>::new(4);
    let (mut p, mut c) = rb.split();

    let ps = p.push_slices(&rb, 4).unwrap();
    // Exactly the requested count is reserved, and committing advances
    // by exactly first.len() + second.len().
    assert_eq!(ps.first.len() + ps.second.len(), 4);
    p.commit_slices(&mut rb, ps);
    assert_eq!(c.slots(&rb), 4);
    assert!(p.is_full(&rb));
}

#[test]
fn push_slices_succeeds_after_head_refresh() {
    let mut rb = RingBuffer::<i32>::new(2);
    let (mut p, mut c) = rb.split();

    assert_eq!(p.push(&mut rb, 1), Ok(()));
    assert_eq!(p.push(&mut rb, 2), Ok(()));
    assert_eq!(c.pop(&mut rb), Ok(1));
    assert_eq!(c.pop(&mut rb), Ok(2));

    // The producer's cached head still claims a full queue; the
    // reservation must refresh it and see both slots free.
    let mut ps = p.push_slices(&rb, 2).unwrap();
    assert_eq!(ps.first.len() + ps.second.len(), 2);
    for (i, slot) in ps.first.iter_mut().chain(ps.second.iter_mut()).enumerate() {
        *slot = 30 + i as i32;
    }
    p.commit_slices(&mut rb, ps);
    assert_eq!(c.pop(&mut rb), Ok(30));
    assert_eq!(c.pop(&mut rb), Ok(31));
}

#[test]
fn pop_slices_too_few_then_whole_run() {
    let mut rb = RingBuffer::<i32>::new(2);
    let (mut p, mut c) = rb.split();

    assert_eq!(p.push(&mut rb, 10), Ok(()));
    assert!(matches!(c.pop_slices(&mut rb, 2), Err(SlicesError::TooFewSlots(1))));
    assert_eq!(p.push(&mut rb, 20), Ok(()));

    let popped = c.pop_slices(&mut rb, 2).unwrap();
    assert_eq!(popped.first, vec![10, 20]);
    assert_eq!(popped.second, Vec::<i32>::new());
    drop(popped);
    assert_eq!(c.slots(&rb), 0);
}

#[test]
fn pop_slices_wrapped_region_concatenates_in_order() {
    let mut rb = RingBuffer::<i32>::new(3);
    let (mut p, mut c) = rb.split();

    assert_eq!(p.push(&mut rb, 1), Ok(()));
    assert_eq!(p.push(&mut rb, 2), Ok(()));
    assert_eq!(p.push(&mut rb, 3), Ok(()));
    assert_eq!(c.pop(&mut rb), Ok(1));
    assert_eq!(c.pop(&mut rb), Ok(2));
    assert_eq!(p.push(&mut rb, 4), Ok(()));
    assert_eq!(p.push(&mut rb, 5), Ok(()));

    // The live region now wraps: element 3 sits at the end of the
    // ring, elements 4 and 5 at its start.
    let popped = c.pop_slices(&mut rb, 3).unwrap();
    assert_eq!(popped.first, vec![3]);
    assert_eq!(popped.second, vec![4, 5]);
    assert!(c.is_empty(&rb));
}

#[test]
fn peek_slices_is_idempotent_and_non_consuming() {
    let mut rb = RingBuffer::<i32>::new(2);
    let (mut p, mut c) = rb.split();

    assert_eq!(p.push(&mut rb, 10), Ok(()));
    assert!(matches!(c.peek_slices(&rb, 2), Err(SlicesError::TooFewSlots(1))));
    assert_eq!(p.push(&mut rb, 20), Ok(()));

    let once = c.peek_slices(&rb, 2).unwrap();
    assert_eq!(once.first, vec![10, 20]);
    assert_eq!(once.second, Vec::<i32>::new());
    let again = c.peek_slices(&rb, 2).unwrap();
    assert_eq!(again.first, vec![10, 20]);
    assert_eq!(again.second, Vec::<i32>::new());
    // Nothing was removed.
    assert_eq!(c.slots(&rb), 2);
    assert_eq!(c.pop(&mut rb), Ok(10));
}

#[test]
fn peek_slices_wrapped_region() {
    let mut rb = RingBuffer::<i32>::new(3);
    let (mut p, mut c) = rb.split();

    assert_eq!(p.push(&mut rb, 1), Ok(()));
    assert_eq!(p.push(&mut rb, 2), Ok(()));
    assert_eq!(c.pop(&mut rb), Ok(1));
    assert_eq!(c.pop(&mut rb), Ok(2));
    assert_eq!(p.push(&mut rb, 3), Ok(()));
    assert_eq!(p.push(&mut rb, 4), Ok(()));

    let peeked = c.peek_slices(&rb, 2).unwrap();
    assert_eq!(peeked.first, vec![3]);
    assert_eq!(peeked.second, vec![4]);
    assert_eq!(c.slots(&rb), 2);
}

/// An element whose destructor bumps a shared counter.
struct Thing {
    counter: Rc<Cell<i32>>,
}

impl Drop for Thing {
    fn drop(&mut self) {
        self.counter.set(self.counter.get() + 1);
    }
}

#[test]
fn destructors_run_exactly_once_per_element() {
    let drops: Rc<Cell<i32>> = Rc::new(Cell::new(0));
    let thing = |c: &Rc<Cell<i32>>| Thing { counter: c.clone() };

    {
        let mut rb = RingBuffer::<Thing>::new(2);
        let (mut p, mut c) = rb.split();

        assert!(p.push(&mut rb, thing(&drops)).is_ok());
        assert!(p.push(&mut rb, thing(&drops)).is_ok());
        {
            let popped = c.pop(&mut rb).unwrap();
            // Moved out of the queue but still alive here.
            assert_eq!(drops.get(), 0);
            drop(popped);
        }
        assert_eq!(drops.get(), 1);
        assert!(p.push(&mut rb, thing(&drops)).is_ok());

        {
            let slices = c.pop_slices(&mut rb, 2).unwrap();
            assert_eq!(slices.first.len() + slices.second.len(), 2);
            // The two popped elements live in the handle.
            assert_eq!(drops.get(), 1);
            drop(slices);
        }
        assert_eq!(drops.get(), 3);
        assert!(p.push(&mut rb, thing(&drops)).is_ok());
        drop(rb);
    }
    // Dropping the ring buffer destructed the one live element.
    assert_eq!(drops.get(), 4);
}
