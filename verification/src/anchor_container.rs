//! Partitions the parent bounds into independent anchored, scaled
//! sub-regions.
//!
//! Each entry computes its size as the parent size scaled componentwise and
//! its position as its anchor's reference point within the parent size, and
//! lays its child out there. Entries do not interact and are fully
//! recomputed on every call. The original left the container's own natural
//! size and policy undefined; here the deliberate policy is: natural size
//! is the componentwise maximum of the children's (they overlay), and the
//! container fills.

use vstd::prelude::*;
use crate::element::{
    lemma_prefix_trans, lemma_seq_handle_ens_push, lemma_seq_update_ens_push, seq_handle_ens,
    seq_update_ens, Element, Renderer,
};
use crate::geometry::{scale_len, scaled, Anchor, Bounds, Scale, Size, Space, COORD_MAX};
use crate::input::AppState;
use crate::messages::{Id, Message, UIContext};

verus! {

/// One anchored, scaled sub-region and the child laid out in it.
pub struct AnchorEntry<E> {
    pub scale: Scale,
    pub anchor: Anchor,
    pub child: E,
}

impl<E: Element> AnchorEntry<E> {
    pub open spec fn wf(self) -> bool {
        self.scale.wf() && self.child.wf()
    }
}

/// The children alone, in entry order.
pub open spec fn children_of<E: Element>(s: Seq<AnchorEntry<E>>) -> Seq<E> {
    s.map_values(|e: AnchorEntry<E>| e.child)
}

/// The bounds an entry hands its child: the anchor's reference point within
/// the parent size, and the parent size scaled componentwise.
pub open spec fn anchor_child_bounds<E: Element>(e: AnchorEntry<E>, b: Bounds) -> Bounds {
    Bounds {
        x: e.anchor.point_x(b.size) as i64,
        y: e.anchor.point_y(b.size) as i64,
        size: Size {
            w: scaled(b.size.w as int, e.scale.x as int) as i64,
            h: scaled(b.size.h as int, e.scale.y as int) as i64,
        },
    }
}

/// Widest natural width among the children.
pub open spec fn anchor_max_w<E: Element>(s: Seq<AnchorEntry<E>>) -> int
    decreases s.len(),
{
    if s.len() == 0 {
        0
    } else {
        let rest = anchor_max_w(s.drop_last());
        let w = s.last().child.min_size_spec().w as int;
        if w > rest {
            w
        } else {
            rest
        }
    }
}

/// Tallest natural height among the children.
pub open spec fn anchor_max_h<E: Element>(s: Seq<AnchorEntry<E>>) -> int
    decreases s.len(),
{
    if s.len() == 0 {
        0
    } else {
        let rest = anchor_max_h(s.drop_last());
        let h = s.last().child.min_size_spec().h as int;
        if h > rest {
            h
        } else {
            rest
        }
    }
}

/// The overlay maxima only read each child's natural size.
pub proof fn lemma_anchor_folds_congruent<E: Element>(a: Seq<AnchorEntry<E>>, b: Seq<
    AnchorEntry<E>,
>)
    requires
        a.len() == b.len(),
        forall|i: int|
            0 <= i < a.len() ==> (#[trigger] a[i]).child.min_size_spec()
                == b[i].child.min_size_spec(),
    ensures
        anchor_max_w(a) == anchor_max_w(b),
        anchor_max_h(a) == anchor_max_h(b),
    decreases a.len(),
{
    if a.len() > 0 {
        lemma_anchor_folds_congruent(a.drop_last(), b.drop_last());
        assert(a.last().child.min_size_spec() == b.last().child.min_size_spec());
    }
}

/// Construction-time configuration of an anchor container.
pub struct AnchorContainerProps<E> {
    pub id: Id,
    pub entries: Vec<AnchorEntry<E>>,
}

impl<E: Element> AnchorContainerProps<E> {
    pub open spec fn wf(self) -> bool {
        forall|i: int| 0 <= i < self.entries@.len() ==> (#[trigger] self.entries@[i]).wf()
    }

    /// The documented default: no entries.
    pub fn new(id: Id) -> (p: AnchorContainerProps<E>)
        ensures
            p.id == id,
            p.entries@.len() == 0,
            p.wf(),
    {
        AnchorContainerProps { id, entries: Vec::new() }
    }
}

pub struct AnchorContainer<E> {
    pub id: Id,
    pub bounds: Bounds,
    pub entries: Vec<AnchorEntry<E>>,
}

impl<E: Element> AnchorContainer<E> {
    pub open spec fn inv(self) -> bool {
        &&& self.bounds.wf()
        &&& forall|i: int| 0 <= i < self.entries@.len() ==> (#[trigger] self.entries@[i]).wf()
    }

    pub fn new(props: AnchorContainerProps<E>) -> (c: AnchorContainer<E>)
        requires
            props.wf(),
        ensures
            c.inv(),
            c.id == props.id,
            c.bounds == Bounds::zero(),
            c.entries@ == props.entries@,
    {
        AnchorContainer { id: props.id, bounds: Bounds::zero(), entries: props.entries }
    }
}

impl<E: Element> Element for AnchorContainer<E> {
    open spec fn wf(&self) -> bool {
        self.inv()
    }

    open spec fn bounds_spec(&self) -> Bounds {
        self.bounds
    }

    open spec fn min_size_spec(&self) -> Size {
        Size { w: anchor_max_w(self.entries@) as i64, h: anchor_max_h(self.entries@) as i64 }
    }

    open spec fn space_spec(&self) -> Space {
        Space::Fill
    }

    open spec fn set_bounds_ens(&self, post: &Self, b: Bounds) -> bool {
        let s = self.entries@;
        let ps = post.entries@;
        &&& ps.len() == s.len()
        &&& post.id == self.id
        &&& post.bounds == b
        &&& forall|i: int|
            0 <= i < s.len() ==> (#[trigger] ps[i]).scale == s[i].scale && ps[i].anchor
                == s[i].anchor && s[i].child.set_bounds_ens(
                &ps[i].child,
                anchor_child_bounds(s[i], b),
            )
    }

    open spec fn update_ens(&self, post: &Self, state: &AppState, q0: Seq<Message>, q1: Seq<
        Message,
    >) -> bool {
        &&& post.entries@.len() == self.entries@.len()
        &&& forall|i: int|
            0 <= i < self.entries@.len() ==> (#[trigger] post.entries@[i]).scale
                == self.entries@[i].scale && post.entries@[i].anchor == self.entries@[i].anchor
        &&& seq_update_ens(children_of(self.entries@), children_of(post.entries@), *state, q0, q1)
        &&& post.id == self.id
        &&& post.bounds == self.bounds
    }

    open spec fn handle_ens(&self, post: &Self, msg: &Message, q0: Seq<Message>, q1: Seq<
        Message,
    >) -> bool {
        &&& post.entries@.len() == self.entries@.len()
        &&& forall|i: int|
            0 <= i < self.entries@.len() ==> (#[trigger] post.entries@[i]).scale
                == self.entries@[i].scale && post.entries@[i].anchor == self.entries@[i].anchor
        &&& seq_handle_ens(children_of(self.entries@), children_of(post.entries@), *msg, q0, q1)
        &&& post.id == self.id
        &&& post.bounds == self.bounds
    }

    #[verifier::loop_isolation(false)]
    fn handle(&mut self, msg: &Message, ctx: &mut UIContext) {
        let ghost old_es = self.entries@;
        let ghost q_start = ctx.queue@;
        let n = self.entries.len();
        let mut i: usize = 0;
        while i < n
            invariant
                self.entries@.len() == n,
                0 <= i <= n,
                self.id == old(self).id,
                self.bounds == old(self).bounds,
                forall|k: int| i <= k < n ==> self.entries@[k] == old_es[k],
                forall|k: int| 0 <= k < n ==> (#[trigger] self.entries@[k]).wf(),
                forall|k: int|
                    0 <= k < n ==> (#[trigger] self.entries@[k]).scale == old_es[k].scale
                        && self.entries@[k].anchor == old_es[k].anchor,
                q_start.is_prefix_of(ctx.queue@),
                seq_handle_ens(
                    children_of(old_es.take(i as int)),
                    children_of(self.entries@.take(i as int)),
                    *msg,
                    q_start,
                    ctx.queue@,
                ),
            decreases n - i,
        {
            let ghost es_before = self.entries@;
            let ghost q_before = ctx.queue@;
            self.entries[i].child.handle(msg, ctx);
            proof {
                assert(children_of(es_before.take(i as int)) =~= children_of(
                    self.entries@.take(i as int),
                ));
                lemma_seq_handle_ens_push(
                    children_of(old_es.take(i as int)),
                    children_of(self.entries@.take(i as int)),
                    old_es[i as int].child,
                    self.entries@[i as int].child,
                    *msg,
                    q_start,
                    q_before,
                    ctx.queue@,
                );
                assert(children_of(old_es.take(i as int + 1)) =~= children_of(
                    old_es.take(i as int),
                ).push(old_es[i as int].child));
                assert(children_of(self.entries@.take(i as int + 1)) =~= children_of(
                    self.entries@.take(i as int),
                ).push(self.entries@[i as int].child));
                lemma_prefix_trans(q_start, q_before, ctx.queue@);
            }
            i = i + 1;
        }
        proof {
            assert(children_of(old_es.take(n as int)) =~= children_of(old_es));
            assert(children_of(self.entries@.take(n as int)) =~= children_of(self.entries@));
        }
    }

    #[verifier::loop_isolation(false)]
    fn update(&mut self, state: &AppState, ctx: &mut UIContext) {
        let ghost old_es = self.entries@;
        let ghost q_start = ctx.queue@;
        let n = self.entries.len();
        let mut i: usize = 0;
        while i < n
            invariant
                self.entries@.len() == n,
                0 <= i <= n,
                self.id == old(self).id,
                self.bounds == old(self).bounds,
                forall|k: int| i <= k < n ==> self.entries@[k] == old_es[k],
                forall|k: int| 0 <= k < n ==> (#[trigger] self.entries@[k]).wf(),
                forall|k: int|
                    0 <= k < n ==> (#[trigger] self.entries@[k]).scale == old_es[k].scale
                        && self.entries@[k].anchor == old_es[k].anchor,
                q_start.is_prefix_of(ctx.queue@),
                seq_update_ens(
                    children_of(old_es.take(i as int)),
                    children_of(self.entries@.take(i as int)),
                    *state,
                    q_start,
                    ctx.queue@,
                ),
            decreases n - i,
        {
            let ghost es_before = self.entries@;
            let ghost q_before = ctx.queue@;
            self.entries[i].child.update(state, ctx);
            proof {
                assert(children_of(es_before.take(i as int)) =~= children_of(
                    self.entries@.take(i as int),
                ));
                lemma_seq_update_ens_push(
                    children_of(old_es.take(i as int)),
                    children_of(self.entries@.take(i as int)),
                    old_es[i as int].child,
                    self.entries@[i as int].child,
                    *state,
                    q_start,
                    q_before,
                    ctx.queue@,
                );
                assert(children_of(old_es.take(i as int + 1)) =~= children_of(
                    old_es.take(i as int),
                ).push(old_es[i as int].child));
                assert(children_of(self.entries@.take(i as int + 1)) =~= children_of(
                    self.entries@.take(i as int),
                ).push(self.entries@[i as int].child));
                lemma_prefix_trans(q_start, q_before, ctx.queue@);
            }
            i = i + 1;
        }
        proof {
            assert(children_of(old_es.take(n as int)) =~= children_of(old_es));
            assert(children_of(self.entries@.take(n as int)) =~= children_of(self.entries@));
        }
    }

    fn draw<R: Renderer>(&self, renderer: &mut R) {
        let n = self.entries.len();
        let mut i: usize = 0;
        while i < n
            invariant
                n == self.entries@.len(),
                0 <= i <= n,
                forall|k: int| 0 <= k < n ==> (#[trigger] self.entries@[k]).wf(),
            decreases n - i,
        {
            self.entries[i].child.draw(renderer);
            i = i + 1;
        }
    }

    #[verifier::loop_isolation(false)]
    fn set_bounds(&mut self, bounds: Bounds) {
        let ghost old_es = self.entries@;
        self.bounds = bounds;
        let n = self.entries.len();
        let mut i: usize = 0;
        while i < n
            invariant
                self.entries@.len() == n,
                0 <= i <= n,
                self.id == old(self).id,
                self.bounds == bounds,
                forall|k: int| i <= k < n ==> self.entries@[k] == old_es[k],
                forall|k: int| 0 <= k < n ==> (#[trigger] self.entries@[k]).wf(),
                forall|k: int|
                    0 <= k < n ==> (#[trigger] self.entries@[k]).scale == old_es[k].scale
                        && self.entries@[k].anchor == old_es[k].anchor,
                forall|k: int|
                    0 <= k < n ==> (#[trigger] self.entries@[k]).child.min_size_spec()
                        == old_es[k].child.min_size_spec(),
                forall|k: int|
                    0 <= k < i ==> #[trigger] old_es[k].child.set_bounds_ens(
                        &self.entries@[k].child,
                        anchor_child_bounds(old_es[k], bounds),
                    ),
            decreases n - i,
        {
            let scale = self.entries[i].scale;
            let anchor = self.entries[i].anchor;
            let size = Size {
                w: scale_len(bounds.size.w, scale.x),
                h: scale_len(bounds.size.h, scale.y),
            };
            let position = anchor.get_point(bounds.size);
            let child_bounds = Bounds { x: position.x, y: position.y, size };
            self.entries[i].child.set_bounds(child_bounds);
            proof {
                assert(child_bounds == anchor_child_bounds(old_es[i as int], bounds));
            }
            i = i + 1;
        }
        proof {
            lemma_anchor_folds_congruent(old_es, self.entries@);
        }
    }

    fn bounds(&self) -> (b: Bounds) {
        self.bounds
    }

    #[verifier::loop_isolation(false)]
    fn min_size(&self) -> (s: Size) {
        let n = self.entries.len();
        let mut w: i64 = 0;
        let mut h: i64 = 0;
        let mut i: usize = 0;
        while i < n
            invariant
                0 <= i <= n,
                w == anchor_max_w(self.entries@.take(i as int)),
                0 <= w <= COORD_MAX,
                h == anchor_max_h(self.entries@.take(i as int)),
                0 <= h <= COORD_MAX,
            decreases n - i,
        {
            let m = self.entries[i].child.min_size();
            proof {
                assert(self.entries@.take(i as int + 1).drop_last() =~= self.entries@.take(
                    i as int,
                ));
            }
            if m.w > w {
                w = m.w;
            }
            if m.h > h {
                h = m.h;
            }
            i = i + 1;
        }
        proof {
            assert(self.entries@.take(n as int) =~= self.entries@);
        }
        Size { w, h }
    }

    fn space(&self) -> (s: Space) {
        Space::Fill
    }

    #[verifier::loop_isolation(false)]
    fn write_all_bounds(&self, v: &mut Vec<Bounds>) {
        v.push(self.bounds);
        let n = self.entries.len();
        let mut i: usize = 0;
        while i < n
            invariant
                0 <= i <= n,
                old(v)@.is_prefix_of(v@),
                v@.len() > old(v)@.len(),
            decreases n - i,
        {
            let ghost v_before = v@;
            self.entries[i].child.write_all_bounds(v);
            proof {
                lemma_prefix_trans(old(v)@, v_before, v@);
            }
            i = i + 1;
        }
    }
}

} // verus!
