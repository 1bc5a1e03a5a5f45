//! A composite pairing a button ("main") with a togglable sub-tree
//! ("list"), under an id of its own.
//!
//! `expanded` ramps linearly at 1.6 units/s toward 1 or 0 along the
//! direction flag, clamped; every frame the list is laid out directly below
//! the main button with its height scaled by `expanded`. A click on the
//! main button is observed through the bus, not called directly: it makes
//! the composite queue a self-addressed `Expand`/`Fold` opposite to the
//! current direction, and that message, delivered back through `handle`,
//! flips the flag. The list takes part in `update`, `handle` and `draw`
//! only while `expanded` is exactly nonzero.

use vstd::prelude::*;
use crate::button::{
    button_emits, Button, ButtonMessage, ButtonProps, HOVER_RATE,
};
use crate::element::{lemma_prefix_trans, Element, Renderer};
use crate::geometry::{
    cadd, clamp_between, clamp_coord, clamp_i64, div_tz, scale_len, scaled, Bounds, Size, Space,
    COORD_MAX, UNIT,
};
use crate::input::AppState;
use crate::messages::{Id, Message, MessageData, UIContext};

verus! {

/// The toggle events an expandable button raises about itself.
#[derive(Clone, Copy, Debug, PartialEq, Eq, Structural)]
pub enum ExpandableButtonMessage {
    Expand,
    Fold,
}

/// The toggle a click queues: the opposite of the current direction.
pub open spec fn toggle_of(inc: bool) -> ExpandableButtonMessage {
    if inc {
        ExpandableButtonMessage::Fold
    } else {
        ExpandableButtonMessage::Expand
    }
}

/// The direction a delivered toggle sets.
pub open spec fn apply_toggle(m: ExpandableButtonMessage) -> bool {
    m == ExpandableButtonMessage::Expand
}

/// Two clicks on the main button, each delivered back, restore the
/// direction flag: the toggle is involutive.
pub proof fn lemma_click_toggle_involutive(inc: bool)
    ensures
        apply_toggle(toggle_of(apply_toggle(toggle_of(inc)))) == inc,
{
}

/// One frame of the expansion scalar: ramp toward the direction flag at
/// 1.6 units/s, clamped into `[0, UNIT]`.
pub open spec fn expanded_after(e: int, inc: bool, dt: int) -> int {
    if inc {
        clamp_between(e + div_tz(HOVER_RATE * dt, UNIT as int), 0, UNIT as int)
    } else {
        clamp_between(e - div_tz(HOVER_RATE * dt, UNIT as int), 0, UNIT as int)
    }
}

/// Construction-time configuration of an expandable button.
pub struct ExpandableButtonProps<L> {
    pub id: Id,
    pub main: ButtonProps,
    pub list: L,
}

pub struct ExpandableButton<L> {
    pub id: Id,
    pub main: Button,
    pub list: L,
    pub bounds: Bounds,
    /// Expansion scalar in `[0, UNIT]`.
    pub expanded: i64,
    pub expand_inc: bool,
}

impl<L: Element> ExpandableButton<L> {
    pub open spec fn inv(self) -> bool {
        &&& self.main.inv()
        &&& self.list.wf()
        &&& self.bounds.wf()
        &&& 0 <= self.expanded <= UNIT
    }

    pub fn new(props: ExpandableButtonProps<L>) -> (e: ExpandableButton<L>)
        requires
            props.main.wf(),
            props.list.wf(),
        ensures
            e.inv(),
            e.id == props.id,
            e.main == Button::new_spec(props.main),
            e.list == props.list,
            e.bounds == Bounds::zero(),
            e.expanded == 0,
            !e.expand_inc,
    {
        ExpandableButton {
            id: props.id,
            main: Button::new(props.main),
            list: props.list,
            bounds: Bounds::zero(),
            expanded: 0,
            expand_inc: false,
        }
    }

    /// Where the list goes this frame: directly below the main button, full
    /// width, height scaled by the expansion scalar.
    pub open spec fn list_bounds_spec(self, e1: int) -> Bounds {
        Bounds {
            x: self.bounds.x,
            y: clamp_coord(self.bounds.y + self.main.inner_bounds.size.h) as i64,
            size: Size {
                w: self.bounds.size.w,
                h: scaled(self.bounds.size.h as int, e1) as i64,
            },
        }
    }
}

impl<L: Element> Element for ExpandableButton<L> {
    open spec fn wf(&self) -> bool {
        self.inv()
    }

    open spec fn bounds_spec(&self) -> Bounds {
        self.bounds
    }

    open spec fn min_size_spec(&self) -> Size {
        if self.expanded != 0 {
            Size {
                w: clamp_between(
                    self.main.min_size_spec().w + self.list.min_size_spec().w,
                    0,
                    COORD_MAX as int,
                ) as i64,
                h: clamp_between(
                    self.main.min_size_spec().h + self.list.min_size_spec().h,
                    0,
                    COORD_MAX as int,
                ) as i64,
            }
        } else {
            self.main.min_size_spec()
        }
    }

    open spec fn space_spec(&self) -> Space {
        Space::Minimize
    }

    open spec fn set_bounds_ens(&self, post: &Self, b: Bounds) -> bool {
        &&& self.main.set_bounds_ens(&post.main, b)
        &&& post.bounds == b
        &&& post.list == self.list
        &&& post.expanded == self.expanded
        &&& post.expand_inc == self.expand_inc
        &&& post.id == self.id
    }

    open spec fn update_ens(&self, post: &Self, state: &AppState, q0: Seq<Message>, q1: Seq<
        Message,
    >) -> bool {
        let e1 = expanded_after(self.expanded as int, self.expand_inc, state.dt as int);
        let lb = self.list_bounds_spec(e1);
        let qm = q0 + button_emits(self.main.id, post.main.inner_bounds, self.main.hover, *state);
        &&& post.expanded == e1
        &&& post.expand_inc == self.expand_inc
        &&& post.id == self.id
        &&& post.bounds == self.bounds
        &&& self.main.update_ens(&post.main, state, q0, qm)
        &&& exists|lmid: L|
            #[trigger] self.list.set_bounds_ens(&lmid, lb) && if e1 != 0 {
                lmid.update_ens(&post.list, state, qm, q1)
            } else {
                post.list == lmid && q1 == qm
            }
    }

    open spec fn handle_ens(&self, post: &Self, msg: &Message, q0: Seq<Message>, q1: Seq<
        Message,
    >) -> bool {
        let toggled = msg.target == self.main.id && match msg.data {
            MessageData::Button(bm) => bm == ButtonMessage::Click,
            _ => false,
        };
        let qa = if toggled {
            q0.push(
                Message {
                    target: self.id,
                    data: MessageData::ExpandableButton(toggle_of(self.expand_inc)),
                },
            )
        } else {
            q0
        };
        &&& self.main.handle_ens(&post.main, msg, qa, qa)
        &&& post.expanded == self.expanded
        &&& post.bounds == self.bounds
        &&& post.id == self.id
        &&& post.expand_inc == (if msg.target == self.id {
            match msg.data {
                MessageData::ExpandableButton(em) => apply_toggle(em),
                _ => self.expand_inc,
            }
        } else {
            self.expand_inc
        })
        &&& if self.expanded != 0 {
            self.list.handle_ens(&post.list, msg, qa, q1)
        } else {
            post.list == self.list && q1 == qa
        }
    }

    fn update(&mut self, state: &AppState, ctx: &mut UIContext) {
        let rate: i64 = (HOVER_RATE * state.dt) / UNIT;
        self.expanded = if self.expand_inc {
            clamp_i64(self.expanded + rate, 0, UNIT)
        } else {
            clamp_i64(self.expanded - rate, 0, UNIT)
        };
        let main_bounds = self.main.bounds();
        let lb = Bounds {
            x: self.bounds.x,
            y: cadd(self.bounds.y, main_bounds.size.h),
            size: Size {
                w: self.bounds.size.w,
                h: scale_len(self.bounds.size.h, self.expanded),
            },
        };
        self.list.set_bounds(lb);
        let ghost lmid = self.list;
        let ghost q0 = ctx.queue@;
        self.main.update(state, ctx);
        let ghost qm = ctx.queue@;
        if self.expanded != 0 {
            self.list.update(state, ctx);
        }
        proof {
            let pre = *old(self);
            let e1 = expanded_after(pre.expanded as int, pre.expand_inc, state.dt as int);
            let slb = pre.list_bounds_spec(e1);
            assert(self.expanded == e1);
            assert(lb == slb);
            assert(qm == q0 + button_emits(pre.main.id, self.main.inner_bounds, pre.main.hover,
                *state));
            assert(pre.list.set_bounds_ens(&lmid, slb));
            if e1 != 0 {
                assert(lmid.update_ens(&self.list, state, qm, ctx.queue@));
            } else {
                assert(self.list == lmid && ctx.queue@ == qm);
            }
            assert(exists|l: L|
                #[trigger] pre.list.set_bounds_ens(&l, slb) && if e1 != 0 {
                    l.update_ens(&self.list, state, qm, ctx.queue@)
                } else {
                    self.list == l && ctx.queue@ == qm
                });
        }
    }

    fn handle(&mut self, msg: &Message, ctx: &mut UIContext) {
        let ghost q0 = ctx.queue@;
        if msg.target == self.main.id {
            if let MessageData::Button(bm) = &msg.data {
                if let ButtonMessage::Click = bm {
                    ctx.send(
                        Message {
                            target: self.id,
                            data: MessageData::ExpandableButton(
                                if self.expand_inc {
                                    ExpandableButtonMessage::Fold
                                } else {
                                    ExpandableButtonMessage::Expand
                                },
                            ),
                        },
                    );
                }
            }
        }
        let ghost qa = ctx.queue@;
        self.main.handle(msg, ctx);
        if self.expanded != 0 {
            self.list.handle(msg, ctx);
        }
        if msg.target == self.id {
            if let MessageData::ExpandableButton(em) = &msg.data {
                match em {
                    ExpandableButtonMessage::Expand => {
                        self.expand_inc = true;
                    },
                    ExpandableButtonMessage::Fold => {
                        self.expand_inc = false;
                    },
                }
            }
            // Another payload addressed to this id is ignored; the original
            // treated the case as unreachable.
        }
        proof {
            lemma_prefix_trans(q0, qa, ctx.queue@);
        }
    }

    fn draw<R: Renderer>(&self, renderer: &mut R) {
        self.main.draw(renderer);
        if self.expanded != 0 {
            self.list.draw(renderer);
        }
    }

    fn set_bounds(&mut self, bounds: Bounds) {
        self.main.set_bounds(bounds);
        self.bounds = bounds;
    }

    fn bounds(&self) -> (b: Bounds) {
        self.bounds
    }

    fn min_size(&self) -> (s: Size) {
        let main_min = self.main.min_size();
        if self.expanded != 0 {
            let list_min = self.list.min_size();
            let w: i64 = if main_min.w + list_min.w > COORD_MAX {
                COORD_MAX
            } else {
                main_min.w + list_min.w
            };
            let h: i64 = if main_min.h + list_min.h > COORD_MAX {
                COORD_MAX
            } else {
                main_min.h + list_min.h
            };
            Size { w, h }
        } else {
            main_min
        }
    }

    fn space(&self) -> (s: Space) {
        Space::Minimize
    }

    fn write_all_bounds(&self, v: &mut Vec<Bounds>) {
        let ghost v0 = v@;
        self.main.write_all_bounds(v);
        if self.expanded != 0 {
            let ghost v1 = v@;
            self.list.write_all_bounds(v);
            proof {
                lemma_prefix_trans(v0, v1, v@);
            }
        }
    }
}

} // verus!
