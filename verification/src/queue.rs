//! The bounded queues of `crossbeam_queue` that carry scancodes and key
//! events, with what their operations do to the queued items.
use vstd::prelude::*;
use crossbeam_queue::ArrayQueue;
use crate::keyboard::KeyEvent;

verus! {

#[verifier::external_type_specification]
#[verifier::external_body]
#[verifier::reject_recursive_types(T)]
pub struct ExArrayQueue<T>(ArrayQueue<T>);

/// The scancodes in a queue, oldest first.
pub uninterp spec fn scancode_queue_items(q: ArrayQueue<u8>) -> Seq<u8>;

/// The capacity a scancode queue was made with.
pub uninterp spec fn scancode_queue_capacity(q: ArrayQueue<u8>) -> nat;

/// The key events in a queue, oldest first.
pub uninterp spec fn event_queue_items(q: ArrayQueue<KeyEvent>) -> Seq<KeyEvent>;

/// The capacity a key event queue was made with.
pub uninterp spec fn event_queue_capacity(q: ArrayQueue<KeyEvent>) -> nat;

/// The largest capacity `ArrayQueue::new` accepts: beyond it the queue's
/// lap size overflows and `new` panics.
pub open spec fn max_queue_capacity() -> nat {
    isize::MAX as nat
}

/// `ArrayQueue::<u8>::new(cap)`: an empty queue with capacity `cap`. The
/// constructor panics on a zero capacity and on one too large for its lap
/// arithmetic; `requires` leaves both out.
#[verifier::external_body]
pub(crate) fn scancode_queue_new(cap: usize) -> (q: ArrayQueue<u8>)
    requires
        0 < cap <= max_queue_capacity(),
    ensures
        scancode_queue_items(q) == Seq::<u8>::empty(),
        scancode_queue_capacity(q) == cap,
{
    ArrayQueue::new(cap)
}

/// `ArrayQueue::push_mut`: appends `v` when the queue holds fewer items than
/// its capacity; otherwise hands `v` back and leaves the queue unchanged.
#[verifier::external_body]
pub(crate) fn scancode_queue_push(q: &mut ArrayQueue<u8>, v: u8) -> (r: Result<(), u8>)
    ensures
        scancode_queue_capacity(*final(q)) == scancode_queue_capacity(*old(q)),
        scancode_queue_items(*old(q)).len() < scancode_queue_capacity(*old(q)) ==> r is Ok
            && scancode_queue_items(*final(q)) == scancode_queue_items(*old(q)).push(v),
        scancode_queue_items(*old(q)).len() >= scancode_queue_capacity(*old(q)) ==> r is Err
            && scancode_queue_items(*final(q)) == scancode_queue_items(*old(q)),
        r matches Err(x) ==> x == v,
{
    q.push_mut(v)
}

/// `ArrayQueue::pop_mut`: removes and returns the oldest item, or `None`
/// when the queue is empty.
#[verifier::external_body]
pub(crate) fn scancode_queue_pop(q: &mut ArrayQueue<u8>) -> (r: Option<u8>)
    ensures
        scancode_queue_capacity(*final(q)) == scancode_queue_capacity(*old(q)),
        scancode_queue_items(*old(q)).len() == 0 ==> r is None && scancode_queue_items(*final(q))
            == scancode_queue_items(*old(q)),
        scancode_queue_items(*old(q)).len() > 0 ==> r == Some(scancode_queue_items(*old(q))[0])
            && scancode_queue_items(*final(q)) == scancode_queue_items(*old(q)).drop_first(),
{
    q.pop_mut()
}

/// `ArrayQueue::<KeyEvent>::new(cap)`: an empty queue with capacity `cap`.
/// The constructor panics on a zero capacity and on one too large for its
/// lap arithmetic; `requires` leaves both out.
#[verifier::external_body]
pub(crate) fn event_queue_new(cap: usize) -> (q: ArrayQueue<KeyEvent>)
    requires
        0 < cap <= max_queue_capacity(),
    ensures
        event_queue_items(q) == Seq::<KeyEvent>::empty(),
        event_queue_capacity(q) == cap,
{
    ArrayQueue::new(cap)
}

/// `ArrayQueue::push_mut`: appends `v` when the queue holds fewer items than
/// its capacity; otherwise hands `v` back and leaves the queue unchanged.
#[verifier::external_body]
pub(crate) fn event_queue_push(q: &mut ArrayQueue<KeyEvent>, v: KeyEvent) -> (r: Result<(), KeyEvent>)
    ensures
        event_queue_capacity(*final(q)) == event_queue_capacity(*old(q)),
        event_queue_items(*old(q)).len() < event_queue_capacity(*old(q)) ==> r is Ok
            && event_queue_items(*final(q)) == event_queue_items(*old(q)).push(v),
        event_queue_items(*old(q)).len() >= event_queue_capacity(*old(q)) ==> r is Err
            && event_queue_items(*final(q)) == event_queue_items(*old(q)),
        r matches Err(x) ==> x == v,
{
    q.push_mut(v)
}

/// `ArrayQueue::pop_mut`: removes and returns the oldest item, or `None`
/// when the queue is empty.
#[verifier::external_body]
pub(crate) fn event_queue_pop(q: &mut ArrayQueue<KeyEvent>) -> (r: Option<KeyEvent>)
    ensures
        event_queue_capacity(*final(q)) == event_queue_capacity(*old(q)),
        event_queue_items(*old(q)).len() == 0 ==> r is None && event_queue_items(*final(q))
            == event_queue_items(*old(q)),
        event_queue_items(*old(q)).len() > 0 ==> r == Some(event_queue_items(*old(q))[0])
            && event_queue_items(*final(q)) == event_queue_items(*old(q)).drop_first(),
{
    q.pop_mut()
}

} // verus!
