//! The button's layout, hit detection, emissions and hover animation.

use nui::button::{Button, ButtonMessage, ButtonProps, PreserveRatio};
use nui::element::{Element, Renderer};
use nui::geometry::{Anchor, AnchorX, AnchorY, Bounds, Position, Size, Space, UNIT};
use nui::input::{AppState, KeyState};
use nui::messages::{ActionState, Id, Message, MessageData, UIContext};

fn state(mouse_x: i64, mouse_y: i64, left: KeyState, dt: i64) -> AppState {
    AppState {
        mouse_position: Position { x: mouse_x, y: mouse_y },
        right_click: KeyState::Unpressed,
        left_click: left,
        input: None,
        keys: vec![],
        dt,
    }
}

fn top_left_button(id: u32) -> Button {
    let mut props = ButtonProps::new(Id(id));
    props.anchor = Anchor { x: AnchorX::Left, y: AnchorY::Top };
    Button::new(props)
}

fn laid_out_button() -> Button {
    let mut b = top_left_button(1);
    b.set_bounds(Bounds { x: 0, y: 0, size: Size { w: 100 * UNIT, h: 50 * UNIT } });
    b
}

#[test]
fn defaults_are_as_documented() {
    let p = ButtonProps::new(Id(9));
    assert_eq!(p.id, Id(9));
    assert_eq!(p.text, String::new());
    assert_eq!(p.space, Space::Fill);
    assert_eq!(p.anchor, Anchor { x: AnchorX::Middle, y: AnchorY::Middle });
    assert_eq!(p.image, None);
    assert_eq!(p.preserve_ratio, PreserveRatio::Unconstrained);
    assert_eq!(p.text_size, Size { w: 0, h: 0 });
}

#[test]
fn set_bounds_derives_hover_travel_and_inner_rectangle() {
    let b = laid_out_button();
    // Hover travel is a fifth of the outer width.
    assert_eq!(b.hover_offset, 20 * UNIT);
    assert_eq!(b.outer_bounds, Bounds { x: 0, y: 0, size: Size { w: 100 * UNIT, h: 50 * UNIT } });
    assert_eq!(
        b.inner_bounds,
        Bounds { x: 20 * UNIT, y: 0, size: Size { w: 80 * UNIT, h: 50 * UNIT } }
    );
}

#[test]
fn preserve_ratio_height_narrow_content_fits() {
    let mut props = ButtonProps::new(Id(2));
    props.anchor = Anchor { x: AnchorX::Left, y: AnchorY::Top };
    props.preserve_ratio = PreserveRatio::Height(2 * UNIT);
    let mut b = Button::new(props);
    b.set_bounds(Bounds { x: 0, y: 0, size: Size { w: 100 * UNIT, h: 30 * UNIT } });
    // 30 * 2 = 60 wide fits in the 80 available: height kept, width exact.
    assert_eq!(b.inner_bounds.size, Size { w: 60 * UNIT, h: 30 * UNIT });
    // The ratio holds exactly.
    assert_eq!(b.inner_bounds.size.w, b.inner_bounds.size.h * 2);
}

#[test]
fn preserve_ratio_height_clamps_to_available_width() {
    let mut props = ButtonProps::new(Id(3));
    props.anchor = Anchor { x: AnchorX::Left, y: AnchorY::Top };
    props.preserve_ratio = PreserveRatio::Height(2 * UNIT);
    let mut b = Button::new(props);
    b.set_bounds(Bounds { x: 0, y: 0, size: Size { w: 50 * UNIT, h: 100 * UNIT } });
    // 100 * 2 = 200 wide exceeds the 40 available: height recomputed.
    assert_eq!(b.inner_bounds.size, Size { w: 40 * UNIT, h: 20 * UNIT });
}

#[test]
fn entering_emits_hover_start_and_leaving_emits_hover_end() {
    let mut b = laid_out_button();
    let mut ctx = UIContext::new();
    let inside = state(50 * UNIT, 10 * UNIT, KeyState::Unpressed, 50);
    b.update(&inside, &mut ctx);
    let msgs = ctx.drain();
    assert_eq!(msgs.len(), 1);
    assert_eq!(msgs[0].target, b.id);
    assert_eq!(
        msgs[0].data,
        MessageData::Button(ButtonMessage::Hover(ActionState::Start))
    );
    b.handle(&msgs[0], &mut ctx);
    assert!(b.hover);
    // Still inside: nothing new.
    b.update(&inside, &mut ctx);
    assert_eq!(ctx.queue.len(), 0);
    // Outside: the end of the hover is announced once.
    let outside = state(500 * UNIT, 500 * UNIT, KeyState::Unpressed, 50);
    b.update(&outside, &mut ctx);
    let msgs = ctx.drain();
    assert_eq!(msgs.len(), 1);
    assert_eq!(
        msgs[0].data,
        MessageData::Button(ButtonMessage::Hover(ActionState::End))
    );
}

#[test]
fn fresh_click_inside_emits_click() {
    let mut b = laid_out_button();
    let mut ctx = UIContext::new();
    let press = state(50 * UNIT, 10 * UNIT, KeyState::Pressed, 50);
    b.update(&press, &mut ctx);
    let msgs = ctx.drain();
    assert_eq!(msgs.len(), 1);
    assert_eq!(msgs[0].data, MessageData::Button(ButtonMessage::Click));
    // A held click is not a fresh one.
    let held = state(50 * UNIT, 10 * UNIT, KeyState::Held, 50);
    let hover = b.hover;
    b.update(&held, &mut ctx);
    let msgs = ctx.drain();
    // Not hovered yet, so the held frame reports the hover start instead.
    assert!(!hover);
    assert_eq!(msgs.len(), 1);
    assert_eq!(
        msgs[0].data,
        MessageData::Button(ButtonMessage::Hover(ActionState::Start))
    );
}

#[test]
fn click_is_not_consumed_locally() {
    let mut b = laid_out_button();
    let before = (b.hover, b.progress, b.progress_inc, b.offset);
    b.handle_message(&ButtonMessage::Click);
    assert_eq!(before, (b.hover, b.progress, b.progress_inc, b.offset));
}

#[test]
fn progress_rises_while_hovered_and_falls_after() {
    let mut b = laid_out_button();
    let mut ctx = UIContext::new();
    let inside = state(50 * UNIT, 10 * UNIT, KeyState::Unpressed, 50);
    b.update(&inside, &mut ctx);
    for m in ctx.drain() {
        b.handle(&m, &mut ctx);
    }
    assert!(b.hover);
    // One frame at dt = 0.05 s and 1.6 units/s is worth exactly 80.
    let mut prev = b.progress;
    b.update(&inside, &mut ctx);
    assert_eq!(b.progress, prev + 80);
    // While the pointer stays inside, progress never falls and stays
    // normalized.
    for _ in 0..30 {
        prev = b.progress;
        b.update(&inside, &mut ctx);
        ctx.drain();
        assert!(b.progress >= prev);
        assert!(0 <= b.progress && b.progress <= UNIT);
    }
    assert_eq!(b.progress, UNIT);
    // Once the pointer leaves, progress never rises on its way to zero.
    let outside = state(500 * UNIT, 500 * UNIT, KeyState::Unpressed, 50);
    b.update(&outside, &mut ctx);
    for m in ctx.drain() {
        b.handle(&m, &mut ctx);
    }
    assert!(!b.hover);
    for _ in 0..30 {
        prev = b.progress;
        b.update(&outside, &mut ctx);
        ctx.drain();
        assert!(b.progress <= prev);
        assert!(0 <= b.progress && b.progress <= UNIT);
    }
    assert_eq!(b.progress, 0);
}

struct Recorder {
    rectangles: Vec<Bounds>,
    texts: Vec<String>,
}

impl Renderer for Recorder {
    fn draw_rectangle(&mut self, bounds: Bounds, _texture: Option<u32>, _color: nui::element::Color) {
        self.rectangles.push(bounds);
    }

    fn draw_text(&mut self, _bounds: Bounds, text: &str, _color: nui::element::Color) {
        self.texts.push(text.to_string());
    }
}

#[test]
fn draw_paints_the_inner_rectangle_and_the_label() {
    let mut props = ButtonProps::new(Id(4));
    props.anchor = Anchor { x: AnchorX::Left, y: AnchorY::Top };
    props.text = "go".to_string();
    let mut b = Button::new(props);
    b.set_bounds(Bounds { x: 0, y: 0, size: Size { w: 100 * UNIT, h: 50 * UNIT } });
    let mut r = Recorder { rectangles: vec![], texts: vec![] };
    b.draw(&mut r);
    assert_eq!(r.rectangles, vec![b.inner_bounds]);
    assert_eq!(r.texts, vec!["go".to_string()]);
}
