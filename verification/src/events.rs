//! The event queue: a bounded FIFO ring buffer that decouples interrupt-time
//! event production from main-loop-time consumption.
//!
//! The queue itself is single-producer/single-consumer data: the embedding
//! firmware wraps `queue_event` in the platform's interrupt-mask critical
//! section and designates exactly one consumer for `next_event`. Enqueuing
//! onto a full queue refuses the new event and hands it back unchanged, so
//! that capacity overruns are visible to the producer instead of silently
//! dropping an earlier hardware event.
use vstd::prelude::*;

use crate::device::TimerID;

verus! {

/// The fixed capacity of the event queue.
pub const EVENT_QUEUE_SIZE: usize = 16;

/// A hardware occurrence marshalled from interrupt context to the main loop.
#[derive(PartialEq, Eq, Structural, Clone, Copy, Debug, Hash)]
pub enum Event {
    /// The timer with the given identifier has fired.
    TimerEvent(TimerID),
}

/// A bounded FIFO queue of [`Event`]s, backed by a fixed-size ring buffer.
/// Its view is the sequence of queued events, oldest first.
pub struct EventQueue {
    buffer: Vec<Event>,
    head: usize,
    count: usize,
}

/// What enqueuing does to the queued sequence: the event is appended, unless
/// the queue is full, in which case the sequence is unchanged and the event
/// is handed back.
pub open spec fn enqueue_spec(events: Seq<Event>, event: Event) -> (Seq<Event>, Result<
    (),
    Event,
>) {
    if events.len() < EVENT_QUEUE_SIZE {
        (events.push(event), Ok(()))
    } else {
        (events, Err(event))
    }
}

/// What dequeuing does to the queued sequence: the oldest event is removed
/// and returned, unless the queue is empty, in which case the sequence is
/// unchanged and nothing is returned.
pub open spec fn dequeue_spec(events: Seq<Event>) -> (Seq<Event>, Option<Event>) {
    if events.len() == 0 {
        (events, None)
    } else {
        (events.drop_first(), Some(events[0]))
    }
}

/// The ring position that logical offset `j` from the start of the buffer
/// wraps to, for `j` below twice the capacity.
spec fn wrapped(j: int) -> int {
    if j < EVENT_QUEUE_SIZE {
        j
    } else {
        j - EVENT_QUEUE_SIZE
    }
}

impl EventQueue {
    /// The ring buffer is fully allocated and its indices are in range.
    pub closed spec fn wf(self) -> bool {
        &&& self.buffer@.len() == EVENT_QUEUE_SIZE
        &&& self.head < EVENT_QUEUE_SIZE
        &&& self.count <= EVENT_QUEUE_SIZE
    }
}

impl View for EventQueue {
    type V = Seq<Event>;

    /// The queued events, oldest first.
    closed spec fn view(&self) -> Seq<Event> {
        Seq::new(self.count as nat, |i: int| self.buffer@[wrapped(self.head + i)])
    }
}

impl EventQueue {
    /// An empty event queue.
    pub fn new() -> (queue: Self)
        ensures
            queue.wf(),
            queue@ == Seq::<Event>::empty(),
    {
        let queue = EventQueue {
            buffer: vec![Event::TimerEvent(TimerID(0)); EVENT_QUEUE_SIZE],
            head: 0,
            count: 0,
        };
        proof {
            assert(queue@ =~= Seq::<Event>::empty());
        }
        queue
    }

    /// Append an event to the queue, or hand it back if the queue is full.
    /// Invoked by the producer side, from within the platform's
    /// interrupt-mask critical section.
    pub fn queue_event(&mut self, event: Event) -> (r: Result<(), Event>)
        requires
            old(self).wf(),
        ensures
            final(self).wf(),
            final(self)@ == enqueue_spec(old(self)@, event).0,
            r == enqueue_spec(old(self)@, event).1,
    {
        if self.count == EVENT_QUEUE_SIZE {
            return Err(event);
        }
        let mut position: usize = self.head + self.count;
        if position >= EVENT_QUEUE_SIZE {
            position -= EVENT_QUEUE_SIZE;
        }
        let slot = &mut self.buffer[position];
        *slot = event;
        self.count += 1;
        proof {
            assert(final(self)@ =~= old(self)@.push(event));
        }
        Ok(())
    }

    /// Remove and return the oldest queued event, or return nothing if the
    /// queue is empty. Invoked only by the single designated consumer.
    pub fn next_event(&mut self) -> (r: Option<Event>)
        requires
            old(self).wf(),
        ensures
            final(self).wf(),
            final(self)@ == dequeue_spec(old(self)@).0,
            r == dequeue_spec(old(self)@).1,
    {
        if self.count == 0 {
            return None;
        }
        let event = self.buffer[self.head];
        self.head += 1;
        if self.head == EVENT_QUEUE_SIZE {
            self.head = 0;
        }
        self.count -= 1;
        proof {
            assert(final(self)@ =~= old(self)@.drop_first());
        }
        Some(event)
    }

    /// How many events are queued.
    pub fn len(&self) -> (r: usize)
        ensures
            r == self@.len(),
    {
        self.count
    }
}

/// Events leave the queue in exactly the order they entered it: enqueuing
/// `e1`, `e2`, `e3` into an empty queue succeeds, and three dequeues return
/// `e1`, `e2`, `e3` in that order, after which the queue is empty and a
/// fourth dequeue returns nothing.
pub proof fn lemma_event_fifo(e1: Event, e2: Event, e3: Event)
    ensures
        ({
            let (s1, r1) = enqueue_spec(Seq::empty(), e1);
            let (s2, r2) = enqueue_spec(s1, e2);
            let (s3, r3) = enqueue_spec(s2, e3);
            let (t1, d1) = dequeue_spec(s3);
            let (t2, d2) = dequeue_spec(t1);
            let (t3, d3) = dequeue_spec(t2);
            let (t4, d4) = dequeue_spec(t3);
            &&& r1 == Ok::<(), Event>(())
            &&& r2 == Ok::<(), Event>(())
            &&& r3 == Ok::<(), Event>(())
            &&& d1 == Some(e1)
            &&& d2 == Some(e2)
            &&& d3 == Some(e3)
            &&& t3 == Seq::<Event>::empty()
            &&& d4 == None::<Event>
            &&& t4 == Seq::<Event>::empty()
        }),
{
    let s3 = seq![e1, e2, e3];
    assert(enqueue_spec(Seq::empty(), e1).0 =~= seq![e1]);
    assert(enqueue_spec(seq![e1], e2).0 =~= seq![e1, e2]);
    assert(enqueue_spec(seq![e1, e2], e3).0 =~= s3);
    assert(dequeue_spec(s3).0 =~= seq![e2, e3]);
    assert(dequeue_spec(seq![e2, e3]).0 =~= seq![e3]);
    assert(dequeue_spec(seq![e3]).0 =~= Seq::<Event>::empty());
}

} // verus!
