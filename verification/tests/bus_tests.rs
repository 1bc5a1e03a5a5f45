//! Ids, the per-frame queue, and the external observer registry, with the
//! real channels linked.

use nui::button::ButtonMessage;
use nui::messages::{EventObserver, Id, IdGen, Message, MessageData, UIContext};

#[test]
fn id_generator_issues_distinct_increasing_ids() {
    let mut gen = IdGen::new();
    let a = gen.next_id();
    let b = gen.next_id();
    let c = gen.next_id();
    assert_eq!(a, Id(0));
    assert_eq!(b, Id(1));
    assert_eq!(c, Id(2));
    assert!(a != b && b != c && a != c);
}

#[test]
fn queue_drains_in_emission_order_and_empties() {
    let mut ctx = UIContext::new();
    assert_eq!(ctx.queue.len(), 0);
    ctx.send(Message { target: Id(1), data: MessageData::Null });
    ctx.send(Message { target: Id(2), data: MessageData::Button(ButtonMessage::Click) });
    let drained = ctx.drain();
    assert_eq!(drained.len(), 2);
    assert_eq!(drained[0].target, Id(1));
    assert_eq!(drained[1].target, Id(2));
    assert_eq!(drained[1].data, MessageData::Button(ButtonMessage::Click));
    // The queue is empty again: the frame starts clean.
    assert_eq!(ctx.queue.len(), 0);
    let again = ctx.drain();
    assert_eq!(again.len(), 0);
}

#[test]
fn observer_receives_only_its_own_id() {
    let mut obs = EventObserver::new();
    let x = Id(7);
    let y = Id(8);
    let x_rx = obs.observe(x);
    let y_rx = obs.observe(y);
    let delivered = obs.handle(&Message { target: x, data: MessageData::Button(ButtonMessage::Click) });
    assert!(delivered);
    assert_eq!(x_rx.try_recv().unwrap(), MessageData::Button(ButtonMessage::Click));
    // Nothing leaked to the other subscriber, and nothing else to this one.
    assert!(y_rx.try_recv().is_err());
    assert!(x_rx.try_recv().is_err());
}

#[test]
fn observer_for_unknown_id_delivers_nothing() {
    let mut obs = EventObserver::new();
    let x_rx = obs.observe(Id(1));
    let delivered = obs.handle(&Message { target: Id(2), data: MessageData::Null });
    assert!(!delivered);
    assert!(x_rx.try_recv().is_err());
}

#[test]
fn observer_registration_is_last_write_wins() {
    let mut obs = EventObserver::new();
    let first_rx = obs.observe(Id(3));
    let second_rx = obs.observe(Id(3));
    let delivered = obs.handle(&Message { target: Id(3), data: MessageData::Null });
    assert!(delivered);
    assert_eq!(second_rx.try_recv().unwrap(), MessageData::Null);
    // The replaced subscription's sender is gone: its receiver sees nothing.
    assert!(first_rx.try_recv().is_err());
}
