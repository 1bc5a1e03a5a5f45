//! The animated, clickable, hoverable leaf widget.
//!
//! A button watches the pointer against its inner bounds and raises
//! self-addressed events for what it sees: entering emits `Hover(Start)`,
//! leaving emits `Hover(End)`, a fresh left click inside emits `Click`
//! (never consumed locally, only observable). The hover events, delivered
//! back through `handle`, drive a normalized `progress` in `[0, UNIT]` and a
//! low-pass-filtered visual `offset`: forward at 1.6 units/s under a
//! back-out overshoot easing, backward at 3.2 units/s under a quadratic
//! ease-in, restarted from the current visual fraction so the reverse is
//! continuous.

use vstd::prelude::*;
use crate::element::{Color, Element, Renderer};
use crate::geometry::{
    cadd, clamp64, clamp_between, clamp_coord, clamp_i64, div_tz, div_tz64,
    lemma_mul_bounds, Anchor, AnchorX, AnchorY, Bounds, Size, Space, COORD_MAX, SCALE_MAX, UNIT,
};
use crate::input::{AppState, KeyState};
use crate::messages::{ActionState, Id, Message, MessageData, UIContext};

verus! {

/// The events a button raises about itself.
#[derive(Clone, Copy, Debug, PartialEq, Eq, Structural)]
pub enum ButtonMessage {
    Hover(ActionState),
    Click,
}

/// Aspect-ratio policy for the inner rectangle, the ratio in milli-units.
/// `Width` is a deliberately unimplemented gap: no well-formed button
/// carries it, which the constructor's precondition enforces.
#[derive(Clone, Copy, Debug, PartialEq, Eq, Structural)]
pub enum PreserveRatio {
    Height(i64),
    Width(i64),
    Unconstrained,
}

pub open spec fn ratio_wf(r: PreserveRatio) -> bool {
    match r {
        PreserveRatio::Height(v) => 1 <= v <= SCALE_MAX,
        PreserveRatio::Width(_) => false,
        PreserveRatio::Unconstrained => true,
    }
}

/// Numerator of the cubic term of the back-out easing, scaled by 100000.
pub const BOUNCE_CUBIC: i64 = 270158;

/// Numerator of the quadratic term of the back-out easing, scaled by 100000.
pub const BOUNCE_QUAD: i64 = 170158;

pub const BOUNCE_CUBIC_DEN: i64 = 100_000_000_000;

pub const BOUNCE_QUAD_DEN: i64 = 100_000_000;

/// Ceiling of the eased fraction: the overshoot never reaches 1.2.
pub const EASE_MAX: i64 = 1200;

/// Units of progress gained per second while hovered, in milli-units.
pub const HOVER_RATE: i64 = 1600;

/// Units of progress lost per second after hover ends, in milli-units.
pub const UNHOVER_RATE: i64 = 3200;

/// Back-out "bounce" easing on `[0, UNIT]`: overshoots 1 on the way in,
/// clamped into `[0, EASE_MAX]` against integer rounding at the rim.
pub open spec fn bounce_spec(p: int) -> int {
    let d = p - UNIT;
    clamp_between(
        UNIT + div_tz(BOUNCE_CUBIC * (d * d * d), BOUNCE_CUBIC_DEN as int) + div_tz(
            BOUNCE_QUAD * (d * d),
            BOUNCE_QUAD_DEN as int,
        ),
        0,
        EASE_MAX as int,
    )
}

/// One frame of the normalized hover progress: ramp up at `HOVER_RATE` or
/// down at `UNHOVER_RATE`, clamped into `[0, UNIT]`.
pub open spec fn progress_after(p: int, inc: bool, dt: int) -> int {
    if inc {
        clamp_between(p + div_tz(HOVER_RATE * dt, UNIT as int), 0, UNIT as int)
    } else {
        clamp_between(p - div_tz(UNHOVER_RATE * dt, UNIT as int), 0, UNIT as int)
    }
}

/// The eased fraction the offset chases: bounce going in, quadratic
/// ease-in going out.
pub open spec fn eased_after(p: int, inc: bool) -> int {
    if inc {
        bounce_spec(p)
    } else {
        div_tz(p * p, UNIT as int)
    }
}

/// The offset the easing asks for: the hover travel scaled by the fraction.
pub open spec fn target_of(hover_offset: int, eased: int) -> int {
    div_tz(hover_offset * eased, UNIT as int)
}

/// The fixed-ratio exponential filter: halve the distance to the target.
pub open spec fn offset_after(offset: int, target: int) -> int {
    offset + div_tz(target - offset, 2)
}

/// Hover travel derived from the outer width; degenerate negative widths
/// give no travel.
pub open spec fn hover_travel(w: int) -> int {
    if w >= 0 {
        w / 5
    } else {
        0
    }
}

/// The progress that makes the reverse animation start from the current
/// visual fraction; with no travel there is no fraction, so zero.
pub open spec fn reverse_progress(offset: int, hover_offset: int) -> int {
    if hover_offset == 0 {
        0
    } else {
        clamp_between(div_tz(offset * UNIT, hover_offset), 0, UNIT as int)
    }
}

/// What one button update appends to the queue, given the inner bounds it
/// just computed and whether it believed itself hovered.
pub open spec fn button_emits(id: Id, inner: Bounds, was_hover: bool, state: AppState) -> Seq<
    Message,
> {
    if inner.contains_spec(state.mouse_position) {
        if state.left_click == KeyState::Pressed {
            seq![Message { target: id, data: MessageData::Button(ButtonMessage::Click) }]
        } else if !was_hover {
            seq![
                Message {
                    target: id,
                    data: MessageData::Button(ButtonMessage::Hover(ActionState::Start)),
                },
            ]
        } else {
            Seq::empty()
        }
    } else if was_hover {
        seq![
            Message {
                target: id,
                data: MessageData::Button(ButtonMessage::Hover(ActionState::End)),
            },
        ]
    } else {
        Seq::empty()
    }
}

/// How [`Button::handle_message`] transforms the button.
pub open spec fn handle_message_rel(pre: Button, post: Button, m: ButtonMessage) -> bool {
    let h1 = match m {
        ButtonMessage::Hover(ActionState::Start) => true,
        ButtonMessage::Hover(ActionState::End) => false,
        ButtonMessage::Click => pre.hover,
    };
    let flipped = h1 != pre.hover;
    &&& post.hover == h1
    &&& post.progress_inc == (if flipped {
        h1
    } else {
        pre.progress_inc
    })
    &&& post.progress == (if flipped && !h1 {
        reverse_progress(pre.offset as int, pre.hover_offset as int)
    } else {
        pre.progress as int
    })
    &&& post.id == pre.id
    &&& post.outer_bounds == pre.outer_bounds
    &&& post.inner_bounds == pre.inner_bounds
    &&& post.text == pre.text
    &&& post.space == pre.space
    &&& post.anchor == pre.anchor
    &&& post.image == pre.image
    &&& post.color == pre.color
    &&& post.preserve_ratio == pre.preserve_ratio
    &&& post.text_size == pre.text_size
    &&& post.offset == pre.offset
    &&& post.hover_offset == pre.hover_offset
}

/// Construction-time configuration of a button.
#[derive(Clone, Debug)]
pub struct ButtonProps {
    pub id: Id,
    pub text: String,
    pub space: Space,
    pub anchor: Anchor,
    pub image: Option<u32>,
    pub color: Color,
    pub preserve_ratio: PreserveRatio,
    /// Natural size of the label, measured by the embedder's font engine.
    pub text_size: Size,
}

impl ButtonProps {
    pub open spec fn wf(self) -> bool {
        self.text_size.wf_min() && ratio_wf(self.preserve_ratio)
    }

    /// The documented defaults: fill space, centered anchor, white, no
    /// image, no aspect constraint, empty zero-sized label.
    pub fn new(id: Id) -> (p: ButtonProps)
        ensures
            p.id == id,
            p.text@ == Seq::<char>::empty(),
            p.space == Space::Fill,
            p.anchor == (Anchor { x: AnchorX::Middle, y: AnchorY::Middle }),
            p.image == Option::<u32>::None,
            p.color == Color::white(),
            p.preserve_ratio == PreserveRatio::Unconstrained,
            p.text_size == (Size { w: 0 as i64, h: 0 as i64 }),
            p.wf(),
    {
        ButtonProps {
            id,
            text: String::new(),
            space: Space::Fill,
            anchor: Anchor { x: AnchorX::Middle, y: AnchorY::Middle },
            image: None,
            color: Color::white(),
            preserve_ratio: PreserveRatio::Unconstrained,
            text_size: Size { w: 0, h: 0 },
        }
    }

    /// The same configuration under a fresh id, as stamping out a row of
    /// matching buttons wants.
    pub fn reissued(&self, id: Id) -> (p: ButtonProps)
        ensures
            p.id == id,
            p.text == self.text,
            p.space == self.space,
            p.anchor == self.anchor,
            p.image == self.image,
            p.color == self.color,
            p.preserve_ratio == self.preserve_ratio,
            p.text_size == self.text_size,
    {
        ButtonProps {
            id,
            text: self.text.clone(),
            space: self.space,
            anchor: self.anchor,
            image: self.image,
            color: self.color,
            preserve_ratio: self.preserve_ratio,
            text_size: self.text_size,
        }
    }
}

pub struct Button {
    pub id: Id,
    pub outer_bounds: Bounds,
    pub inner_bounds: Bounds,
    pub text: String,
    pub space: Space,
    pub anchor: Anchor,
    pub image: Option<u32>,
    pub color: Color,
    pub preserve_ratio: PreserveRatio,
    /// Natural size of the label, from the props.
    pub text_size: Size,
    pub hover: bool,
    /// Smoothed visual offset in `[0, 2 * COORD_MAX]`.
    pub offset: i64,
    /// Normalized animation progress in `[0, UNIT]`.
    pub progress: i64,
    pub progress_inc: bool,
    /// Hover travel, a fifth of the outer width, never negative.
    pub hover_offset: i64,
}

impl Button {
    pub open spec fn inv(self) -> bool {
        &&& self.outer_bounds.wf()
        &&& self.inner_bounds.wf()
        &&& self.text_size.wf_min()
        &&& ratio_wf(self.preserve_ratio)
        &&& 0 <= self.progress <= UNIT
        &&& 0 <= self.hover_offset <= COORD_MAX
        &&& 0 <= self.offset <= 2 * COORD_MAX
    }

    /// What `new` builds: the configuration taken over, everything else at
    /// rest.
    pub open spec fn new_spec(props: ButtonProps) -> Button {
        Button {
            id: props.id,
            outer_bounds: Bounds::zero_spec(),
            inner_bounds: Bounds::zero_spec(),
            text: props.text,
            space: props.space,
            anchor: props.anchor,
            image: props.image,
            color: props.color,
            preserve_ratio: props.preserve_ratio,
            text_size: props.text_size,
            hover: false,
            offset: 0 as i64,
            progress: 0 as i64,
            progress_inc: false,
            hover_offset: 0 as i64,
        }
    }

    #[verifier::when_used_as_spec(new_spec)]
    pub fn new(props: ButtonProps) -> (b: Button)
        requires
            props.wf(),
        ensures
            b == Button::new_spec(props),
            b.inv(),
    {
        Button {
            id: props.id,
            outer_bounds: Bounds::zero(),
            inner_bounds: Bounds::zero(),
            text: props.text,
            space: props.space,
            anchor: props.anchor,
            image: props.image,
            color: props.color,
            preserve_ratio: props.preserve_ratio,
            text_size: props.text_size,
            hover: false,
            offset: 0,
            progress: 0,
            progress_inc: false,
            hover_offset: 0,
        }
    }

    /// React to one of the button's own events: hover edges move the
    /// animation direction, and a hover end restarts the reverse from the
    /// current visual fraction. `Click` changes nothing here.
    pub fn handle_message(&mut self, msg: &ButtonMessage)
        requires
            old(self).inv(),
        ensures
            final(self).inv(),
            handle_message_rel(*old(self), *final(self), *msg),
    {
        let prev_hover = self.hover;
        match msg {
            ButtonMessage::Hover(state) => {
                match state {
                    ActionState::Start => {
                        self.hover = true;
                    },
                    ActionState::End => {
                        self.hover = false;
                    },
                }
            },
            ButtonMessage::Click => (),
        }
        if prev_hover != self.hover {
            if self.hover {
                self.progress_inc = true;
            } else {
                self.progress_inc = false;
                if self.hover_offset == 0 {
                    self.progress = 0;
                } else {
                    self.progress = clamp_i64((self.offset * UNIT) / self.hover_offset, 0, UNIT);
                }
            }
        }
    }
}

/// The smoothing filter never leaves the interval spanned by the current
/// offset and its target.
pub proof fn lemma_offset_step(o: int, t: int, cap: int)
    requires
        0 <= o <= cap,
        0 <= t <= cap,
    ensures
        0 <= offset_after(o, t) <= cap,
    {
    if t >= o {
        let d = t - o;
        assert(0 <= d / 2 <= d) by (nonlinear_arith)
            requires
                d >= 0,
        ;
    } else {
        let d = o - t;
        assert(0 <= d / 2 <= d) by (nonlinear_arith)
            requires
                d >= 0,
        ;
    }
}

/// While the pointer stays inside and the direction flag holds, a frame
/// never decreases `progress` and keeps it normalized; once the flag drops,
/// a frame never increases it on its way back to zero.
pub proof fn lemma_progress_monotone(p: int, dt: int)
    requires
        0 <= p <= UNIT,
        0 <= dt,
    ensures
        p <= progress_after(p, true, dt) <= UNIT,
        0 <= progress_after(p, false, dt) <= p,
{
    assert(HOVER_RATE * dt >= 0) by (nonlinear_arith)
        requires
            dt >= 0,
    ;
    assert(UNHOVER_RATE * dt >= 0) by (nonlinear_arith)
        requires
            dt >= 0,
    ;
    assert(div_tz(HOVER_RATE * dt, UNIT as int) >= 0) by (nonlinear_arith)
        requires
            HOVER_RATE * dt >= 0,
    ;
    assert(div_tz(UNHOVER_RATE * dt, UNIT as int) >= 0) by (nonlinear_arith)
        requires
            UNHOVER_RATE * dt >= 0,
    ;
}

/// Exec counterpart of [`bounce_spec`].
fn bounce(p: i64) -> (r: i64)
    requires
        0 <= p <= UNIT,
    ensures
        r == bounce_spec(p as int),
{
    let d: i64 = p - UNIT;
    proof {
        assert(0 <= d * d <= 1_000_000 && -1_000_000_000 <= d * d * d <= 0) by (nonlinear_arith)
            requires
                -1000 <= d <= 0,
        ;
        assert(BOUNCE_CUBIC * (d * d * d) >= BOUNCE_CUBIC * (-1_000_000_000int)
            && BOUNCE_CUBIC * (d * d * d) <= 0) by (nonlinear_arith)
            requires
                -1_000_000_000 <= d * d * d <= 0,
        ;
        assert(0 <= BOUNCE_QUAD * (d * d) <= BOUNCE_QUAD * 1_000_000int) by (nonlinear_arith)
            requires
                0 <= d * d <= 1_000_000,
        ;
        assert((-(BOUNCE_CUBIC * (d * d * d))) == BOUNCE_CUBIC * (-(d * d * d)))
            by (nonlinear_arith);
    }
    let cube: i64 = d * d * d;
    let sq: i64 = d * d;
    let t3: i64 = -((-(BOUNCE_CUBIC * cube)) / BOUNCE_CUBIC_DEN);
    let t2: i64 = (BOUNCE_QUAD * sq) / BOUNCE_QUAD_DEN;
    clamp_i64(UNIT + t3 + t2, 0, EASE_MAX)
}

impl Element for Button {
    open spec fn wf(&self) -> bool {
        self.inv()
    }

    open spec fn bounds_spec(&self) -> Bounds {
        self.inner_bounds
    }

    open spec fn min_size_spec(&self) -> Size {
        self.text_size
    }

    open spec fn space_spec(&self) -> Space {
        self.space
    }

    open spec fn set_bounds_ens(&self, post: &Self, b: Bounds) -> bool {
        let ox = clamp_coord(b.x - self.anchor.point_x(b.size));
        let oy = clamp_coord(b.y - self.anchor.point_y(b.size));
        let ho = hover_travel(b.size.w as int);
        let ix = clamp_coord(ox + ho);
        let iw0 = clamp_coord(b.size.w - ho);
        let ih0 = b.size.h as int;
        &&& post.outer_bounds.x == ox
        &&& post.outer_bounds.y == oy
        &&& post.outer_bounds.size == b.size
        &&& post.hover_offset == ho
        &&& post.inner_bounds.x == ix
        &&& post.inner_bounds.y == oy
        &&& match self.preserve_ratio {
            PreserveRatio::Height(ratio) => {
                let cw = div_tz(ih0 * ratio, UNIT as int);
                let h1 = if cw > iw0 {
                    clamp_coord(div_tz(iw0 * UNIT, ratio as int))
                } else {
                    ih0
                };
                let w1 = clamp_coord(div_tz(h1 * ratio, UNIT as int));
                post.inner_bounds.size.w == w1 && post.inner_bounds.size.h == h1
            },
            PreserveRatio::Width(_) => true,
            PreserveRatio::Unconstrained => {
                post.inner_bounds.size.w == iw0 && post.inner_bounds.size.h == ih0
            },
        }
        &&& post.id == self.id
        &&& post.text == self.text
        &&& post.space == self.space
        &&& post.anchor == self.anchor
        &&& post.image == self.image
        &&& post.color == self.color
        &&& post.preserve_ratio == self.preserve_ratio
        &&& post.text_size == self.text_size
        &&& post.hover == self.hover
        &&& post.offset == self.offset
        &&& post.progress == self.progress
        &&& post.progress_inc == self.progress_inc
    }

    open spec fn update_ens(&self, post: &Self, state: &AppState, q0: Seq<Message>, q1: Seq<
        Message,
    >) -> bool {
        let p1 = progress_after(self.progress as int, self.progress_inc, state.dt as int);
        let e = eased_after(p1, self.progress_inc);
        let t = target_of(self.hover_offset as int, e);
        let o1 = offset_after(self.offset as int, t);
        let sh = self.hover_offset - o1;
        &&& post.progress == p1
        &&& post.offset == o1
        &&& post.inner_bounds.x == clamp_coord(self.outer_bounds.x + sh)
        &&& post.inner_bounds.size.w == clamp_coord(self.outer_bounds.size.w + sh)
        &&& post.inner_bounds.y == self.inner_bounds.y
        &&& post.inner_bounds.size.h == self.inner_bounds.size.h
        &&& post.outer_bounds == self.outer_bounds
        &&& post.id == self.id
        &&& post.text == self.text
        &&& post.space == self.space
        &&& post.anchor == self.anchor
        &&& post.image == self.image
        &&& post.color == self.color
        &&& post.preserve_ratio == self.preserve_ratio
        &&& post.text_size == self.text_size
        &&& post.hover == self.hover
        &&& post.progress_inc == self.progress_inc
        &&& post.hover_offset == self.hover_offset
        &&& q1 == q0 + button_emits(self.id, post.inner_bounds, self.hover, *state)
    }

    open spec fn handle_ens(&self, post: &Self, msg: &Message, q0: Seq<Message>, q1: Seq<
        Message,
    >) -> bool {
        &&& q1 == q0
        &&& match msg.data {
            MessageData::Button(bm) => {
                if msg.target == self.id {
                    handle_message_rel(*self, *post, bm)
                } else {
                    post == self
                }
            },
            _ => post == self,
        }
    }

    fn handle(&mut self, msg: &Message, ctx: &mut UIContext) {
        if msg.target == self.id {
            if let MessageData::Button(btn_msg) = &msg.data {
                self.handle_message(btn_msg);
            }
        }
    }

    fn update(&mut self, state: &AppState, ctx: &mut UIContext) {
        // Advance the normalized progress toward the direction flag.
        if self.progress_inc {
            let gain: i64 = (HOVER_RATE * state.dt) / UNIT;
            self.progress = clamp_i64(self.progress + gain, 0, UNIT);
        } else {
            let loss: i64 = (UNHOVER_RATE * state.dt) / UNIT;
            self.progress = clamp_i64(self.progress - loss, 0, UNIT);
        }
        // Ease it and chase the eased target with the smoothing filter.
        let eased: i64 = if self.progress_inc {
            bounce(self.progress)
        } else {
            proof {
                lemma_mul_bounds(self.progress as int, self.progress as int, UNIT as int,
                    UNIT as int);
            }
            (self.progress * self.progress) / UNIT
        };
        proof {
            lemma_mul_bounds(self.hover_offset as int, eased as int, COORD_MAX as int,
                EASE_MAX as int);
        }
        let target: i64 = (self.hover_offset * eased) / UNIT;
        proof {
            lemma_offset_step(self.offset as int, target as int, 2 * COORD_MAX as int);
        }
        self.offset = self.offset + div_tz64(target - self.offset, 2);
        // Shift the inner rectangle by the part of the travel not yet taken.
        let shift: i64 = self.hover_offset - self.offset;
        self.inner_bounds.x = cadd(self.outer_bounds.x, shift);
        self.inner_bounds.size.w = cadd(self.outer_bounds.size.w, shift);
        // Watch the pointer and report what changed.
        let ghost q0 = ctx.queue@;
        if self.inner_bounds.contains(state.mouse_position) {
            if state.left_click == KeyState::Pressed {
                ctx.send(
                    Message { target: self.id, data: MessageData::Button(ButtonMessage::Click) },
                );
            } else if !self.hover {
                ctx.send(
                    Message {
                        target: self.id,
                        data: MessageData::Button(ButtonMessage::Hover(ActionState::Start)),
                    },
                );
            }
        } else if self.hover {
            ctx.send(
                Message {
                    target: self.id,
                    data: MessageData::Button(ButtonMessage::Hover(ActionState::End)),
                },
            );
        }
        proof {
            assert(ctx.queue@ =~= q0 + button_emits(self.id, self.inner_bounds, self.hover,
                *state));
        }
    }

    fn draw<R: Renderer>(&self, renderer: &mut R) {
        renderer.draw_rectangle(self.inner_bounds, self.image, self.color);
        let text_x: i64 = cadd(
            cadd(self.inner_bounds.x, div_tz64(self.inner_bounds.size.w, 3)),
            -(self.text_size.w / 2),
        );
        let text_y: i64 = cadd(
            cadd(self.inner_bounds.y, div_tz64(self.inner_bounds.size.h, 2)),
            self.text_size.h / 2,
        );
        renderer.draw_text(
            Bounds { x: text_x, y: text_y, size: Size { w: 0, h: 0 } },
            self.text.as_str(),
            Color::white(),
        );
    }

    fn set_bounds(&mut self, bounds: Bounds) {
        let anchored = self.anchor.apply_to(bounds);
        self.outer_bounds = anchored;
        self.hover_offset = if anchored.size.w >= 0 {
            anchored.size.w / 5
        } else {
            0
        };
        self.inner_bounds = Bounds {
            x: cadd(anchored.x, self.hover_offset),
            y: anchored.y,
            size: Size { w: clamp64(anchored.size.w - self.hover_offset), h: anchored.size.h },
        };
        match self.preserve_ratio {
            PreserveRatio::Height(ratio) => {
                proof {
                    lemma_mul_bounds(
                        if self.inner_bounds.size.h >= 0 {
                            self.inner_bounds.size.h as int
                        } else {
                            -self.inner_bounds.size.h as int
                        },
                        ratio as int,
                        COORD_MAX as int,
                        SCALE_MAX as int,
                    );
                    assert((-self.inner_bounds.size.h as int) * (ratio as int) == -(
                    (self.inner_bounds.size.h as int) * (ratio as int))) by (nonlinear_arith);
                }
                let calculated_width: i64 = if self.inner_bounds.size.h >= 0 {
                    (self.inner_bounds.size.h * ratio) / UNIT
                } else {
                    -(((-self.inner_bounds.size.h) * ratio) / UNIT)
                };
                let max_width: i64 = self.inner_bounds.size.w;
                if calculated_width > max_width {
                    proof {
                        lemma_mul_bounds(
                            if max_width >= 0 {
                                max_width as int
                            } else {
                                -max_width as int
                            },
                            UNIT as int,
                            COORD_MAX as int,
                            UNIT as int,
                        );
                        assert((-max_width as int) * (UNIT as int) == -((max_width as int) * (
                        UNIT as int))) by (nonlinear_arith);
                    }
                    let scaled_w: i64 = if max_width >= 0 {
                        (max_width * UNIT) / ratio
                    } else {
                        -(((-max_width) * UNIT) / ratio)
                    };
                    self.inner_bounds.size.h = clamp64(scaled_w);
                }
                proof {
                    lemma_mul_bounds(
                        if self.inner_bounds.size.h >= 0 {
                            self.inner_bounds.size.h as int
                        } else {
                            -self.inner_bounds.size.h as int
                        },
                        ratio as int,
                        COORD_MAX as int,
                        SCALE_MAX as int,
                    );
                    assert((-self.inner_bounds.size.h as int) * (ratio as int) == -(
                    (self.inner_bounds.size.h as int) * (ratio as int))) by (nonlinear_arith);
                }
                let new_width: i64 = if self.inner_bounds.size.h >= 0 {
                    (self.inner_bounds.size.h * ratio) / UNIT
                } else {
                    -(((-self.inner_bounds.size.h) * ratio) / UNIT)
                };
                self.inner_bounds.size.w = clamp64(new_width);
            },
            PreserveRatio::Width(_) => {
                // Excluded by the invariant: no well-formed button carries it.
            },
            PreserveRatio::Unconstrained => (),
        }
    }

    fn bounds(&self) -> (b: Bounds) {
        self.inner_bounds
    }

    fn min_size(&self) -> (s: Size) {
        self.text_size
    }

    fn space(&self) -> (s: Space) {
        self.space
    }

    fn write_all_bounds(&self, v: &mut Vec<Bounds>) {
        v.push(self.inner_bounds);
    }
}

} // verus!
