use peripheral_registry::EVENT_QUEUE_SIZE;
use peripheral_registry::Event;
use peripheral_registry::EventQueue;
use peripheral_registry::TimerID;

#[test]
fn event_fifo() {
    let mut queue = EventQueue::new();
    let e1 = Event::TimerEvent(TimerID(1));
    let e2 = Event::TimerEvent(TimerID(2));
    let e3 = Event::TimerEvent(TimerID(3));
    assert_eq!(queue.queue_event(e1), Ok(()));
    assert_eq!(queue.queue_event(e2), Ok(()));
    assert_eq!(queue.queue_event(e3), Ok(()));
    assert_eq!(queue.next_event(), Some(e1));
    assert_eq!(queue.next_event(), Some(e2));
    assert_eq!(queue.next_event(), Some(e3));
    assert_eq!(queue.next_event(), None);
    assert_eq!(queue.len(), 0);
}

#[test]
fn empty_queue_yields_nothing() {
    let mut queue = EventQueue::new();
    assert_eq!(queue.next_event(), None);
    assert_eq!(queue.len(), 0);
}

#[test]
fn full_queue_refuses_and_returns_the_event() {
    let mut queue = EventQueue::new();
    for i in 0..EVENT_QUEUE_SIZE {
        assert_eq!(queue.queue_event(Event::TimerEvent(TimerID(i as u16))), Ok(()));
    }
    assert_eq!(queue.len(), EVENT_QUEUE_SIZE);
    let overflow = Event::TimerEvent(TimerID(99));
    assert_eq!(queue.queue_event(overflow), Err(overflow));
    // The refused event displaced nothing: the earlier events still drain
    // in order.
    for i in 0..EVENT_QUEUE_SIZE {
        assert_eq!(queue.next_event(), Some(Event::TimerEvent(TimerID(i as u16))));
    }
    assert_eq!(queue.next_event(), None);
}

#[test]
fn queue_wraps_around_its_ring() {
    let mut queue = EventQueue::new();
    // Repeatedly fill and half-drain so the ring indices wrap several times.
    let mut produced: u16 = 0;
    let mut consumed: u16 = 0;
    for _round in 0..5 {
        while queue.len() < EVENT_QUEUE_SIZE {
            assert_eq!(queue.queue_event(Event::TimerEvent(TimerID(produced))), Ok(()));
            produced += 1;
        }
        for _ in 0..(EVENT_QUEUE_SIZE / 2) {
            assert_eq!(queue.next_event(), Some(Event::TimerEvent(TimerID(consumed))));
            consumed += 1;
        }
    }
    while let Some(event) = queue.next_event() {
        assert_eq!(event, Event::TimerEvent(TimerID(consumed)));
        consumed += 1;
    }
    assert_eq!(produced, consumed);
}
