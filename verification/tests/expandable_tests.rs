//! The expandable button's toggle protocol and expansion ramp, and whole
//! frames through the driver.

use nui::button::{Button, ButtonMessage, ButtonProps};
use nui::element::{run_frame, Element};
use nui::expandable_button::{ExpandableButton, ExpandableButtonMessage, ExpandableButtonProps};
use nui::geometry::{Anchor, AnchorX, AnchorY, Bounds, Position, Size, UNIT};
use nui::input::{AppState, KeyState};
use nui::messages::{ActionState, EventObserver, Id, Message, MessageData, UIContext};

fn state(mouse_x: i64, mouse_y: i64, left: KeyState, dt: i64) -> AppState {
    AppState {
        mouse_position: Position { x: mouse_x, y: mouse_y },
        right_click: KeyState::Unpressed,
        left_click: left,
        input: None,
        keys: vec![],
        dt,
    }
}

fn top_left_props(id: u32) -> ButtonProps {
    let mut props = ButtonProps::new(Id(id));
    props.anchor = Anchor { x: AnchorX::Left, y: AnchorY::Top };
    props
}

fn expandable() -> ExpandableButton<Button> {
    ExpandableButton::new(ExpandableButtonProps {
        id: Id(50),
        main: top_left_props(51),
        list: Button::new(top_left_props(52)),
    })
}

#[test]
fn two_clicks_restore_the_direction_flag() {
    let mut eb = expandable();
    let mut ctx = UIContext::new();
    let original = eb.expand_inc;
    let click = Message { target: Id(51), data: MessageData::Button(ButtonMessage::Click) };

    eb.handle(&click, &mut ctx);
    let queued = ctx.drain();
    assert_eq!(queued.len(), 1);
    assert_eq!(queued[0].target, Id(50));
    assert_eq!(
        queued[0].data,
        MessageData::ExpandableButton(ExpandableButtonMessage::Expand)
    );
    eb.handle(&queued[0], &mut ctx);
    assert!(eb.expand_inc);

    eb.handle(&click, &mut ctx);
    let queued = ctx.drain();
    assert_eq!(
        queued[0].data,
        MessageData::ExpandableButton(ExpandableButtonMessage::Fold)
    );
    eb.handle(&queued[0], &mut ctx);
    assert_eq!(eb.expand_inc, original);
}

#[test]
fn expansion_ramps_and_scales_the_list() {
    let mut eb = expandable();
    let mut ctx = UIContext::new();
    eb.set_bounds(Bounds { x: 0, y: 0, size: Size { w: 100 * UNIT, h: 100 * UNIT } });
    let open = Message {
        target: Id(50),
        data: MessageData::ExpandableButton(ExpandableButtonMessage::Expand),
    };
    eb.handle(&open, &mut ctx);
    assert!(eb.expand_inc);
    let outside = state(500 * UNIT, 500 * UNIT, KeyState::Unpressed, 50);
    eb.update(&outside, &mut ctx);
    // One frame at dt = 0.05 s and 1.6 units/s is worth exactly 80.
    assert_eq!(eb.expanded, 80);
    // The list sits directly below the main button, its height scaled.
    assert_eq!(eb.list.outer_bounds.y, 100 * UNIT);
    assert_eq!(eb.list.outer_bounds.size.w, 100 * UNIT);
    assert_eq!(eb.list.outer_bounds.size.h, 100 * UNIT * 80 / 1000);
}

#[test]
fn folded_list_is_laid_out_but_not_updated() {
    let mut eb = expandable();
    let mut ctx = UIContext::new();
    eb.set_bounds(Bounds { x: 0, y: 0, size: Size { w: 100 * UNIT, h: 100 * UNIT } });
    // Give the list a running animation; a folded list must not advance it.
    eb.list.progress_inc = true;
    eb.list.progress = 500;
    let outside = state(500 * UNIT, 500 * UNIT, KeyState::Unpressed, 50);
    eb.update(&outside, &mut ctx);
    assert_eq!(eb.expanded, 0);
    assert_eq!(eb.list.progress, 500);
    // Laid out all the same: zero height while folded.
    assert_eq!(eb.list.outer_bounds.size.h, 0);
}

#[test]
fn natural_size_counts_the_list_only_while_open() {
    let mut main_props = top_left_props(61);
    main_props.text_size = Size { w: 10 * UNIT, h: 20 * UNIT };
    let mut list_props = top_left_props(62);
    list_props.text_size = Size { w: 5 * UNIT, h: 7 * UNIT };
    let mut eb = ExpandableButton::new(ExpandableButtonProps {
        id: Id(60),
        main: main_props,
        list: Button::new(list_props),
    });
    assert_eq!(eb.min_size(), Size { w: 10 * UNIT, h: 20 * UNIT });
    eb.expanded = 1;
    assert_eq!(eb.min_size(), Size { w: 15 * UNIT, h: 27 * UNIT });
}

#[test]
fn frame_dispatches_and_leaves_the_queue_clean() {
    let mut button = Button::new(top_left_props(7));
    button.set_bounds(Bounds { x: 0, y: 0, size: Size { w: 100 * UNIT, h: 50 * UNIT } });
    let mut ctx = UIContext::new();
    let mut observer = EventObserver::new();
    let rx = observer.observe(Id(7));
    let inside = state(50 * UNIT, 10 * UNIT, KeyState::Unpressed, 50);
    run_frame(&mut button, &inside, &mut ctx, &observer);
    // The hover start was delivered to the tree and to the observer, and
    // nothing new was queued while handling: the next frame starts clean.
    assert!(button.hover);
    assert_eq!(
        rx.try_recv().unwrap(),
        MessageData::Button(ButtonMessage::Hover(ActionState::Start))
    );
    assert_eq!(ctx.queue.len(), 0);
}

#[test]
fn toggle_queued_while_handling_waits_for_the_next_frame() {
    let mut eb = expandable();
    eb.set_bounds(Bounds { x: 0, y: 0, size: Size { w: 100 * UNIT, h: 100 * UNIT } });
    let mut ctx = UIContext::new();
    let observer = EventObserver::new();
    // A fresh click inside the main button.
    let press = state(50 * UNIT, 10 * UNIT, KeyState::Pressed, 50);
    run_frame(&mut eb, &press, &mut ctx, &observer);
    // The click was dispatched; the toggle it provoked is queued, not yet
    // delivered: no reentrancy within a frame.
    assert!(!eb.expand_inc);
    assert_eq!(ctx.queue.len(), 1);
    // The following frame delivers it.
    let outside = state(500 * UNIT, 500 * UNIT, KeyState::Unpressed, 50);
    run_frame(&mut eb, &outside, &mut ctx, &observer);
    assert!(eb.expand_inc);
    assert_eq!(ctx.queue.len(), 0);
}
