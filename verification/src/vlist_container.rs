//! Vertical stack layout with Fill/Minimize space negotiation.
//!
//! Layout is two passes. Measure: read every child's natural size and
//! policy, tracking the widest child, the summed heights, the number of
//! `Fill` children and the total natural height of `Minimize` children; the
//! padding is one `spacing` per gap. Distribute: the container takes the
//! incoming size if its own policy is `Fill`, else the measured minimum;
//! the height left after padding and `Minimize` children is split equally
//! among `Fill` children (none: nothing is distributed); children are placed
//! top to bottom, each advancing the cursor by its resulting height plus
//! spacing.

use vstd::prelude::*;
use crate::element::{
    lemma_prefix_trans, lemma_seq_handle_ens_push, lemma_seq_update_ens_push, seq_handle_ens,
    seq_update_ens, Element, Renderer,
};
use crate::geometry::{
    clamp64, clamp_between, clamp_coord, div_tz, div_tz64, lemma_mul_bounds, Bounds, Size, Space,
    COORD_MAX, LIST_MAX, UNIT,
};
use crate::input::AppState;
use crate::messages::{Id, Message, UIContext};

verus! {

/// Widest natural width among the children.
pub open spec fn max_min_w<E: Element>(s: Seq<E>) -> int
    decreases s.len(),
{
    if s.len() == 0 {
        0
    } else {
        let rest = max_min_w(s.drop_last());
        let w = s.last().min_size_spec().w as int;
        if w > rest {
            w
        } else {
            rest
        }
    }
}

/// Summed natural heights of the children.
pub open spec fn sum_min_h<E: Element>(s: Seq<E>) -> int
    decreases s.len(),
{
    if s.len() == 0 {
        0
    } else {
        sum_min_h(s.drop_last()) + s.last().min_size_spec().h
    }
}

/// How many children ask to fill.
pub open spec fn fill_count_spec<E: Element>(s: Seq<E>) -> int
    decreases s.len(),
{
    if s.len() == 0 {
        0
    } else {
        fill_count_spec(s.drop_last()) + if s.last().space_spec() == Space::Fill {
            1int
        } else {
            0int
        }
    }
}

/// Summed natural heights of the children that only minimize.
pub open spec fn minimize_sum<E: Element>(s: Seq<E>) -> int
    decreases s.len(),
{
    if s.len() == 0 {
        0
    } else {
        minimize_sum(s.drop_last()) + if s.last().space_spec() == Space::Minimize {
            s.last().min_size_spec().h as int
        } else {
            0int
        }
    }
}

/// One `spacing` per gap between children; no children, no gaps.
pub open spec fn vlist_padding(spacing: int, n: int) -> int {
    if n == 0 {
        0
    } else {
        spacing * (n - 1)
    }
}

/// The size the container takes for itself.
pub open spec fn vlist_own_size<E: Element>(s: Seq<E>, spacing: int, own: Space, b: Bounds) -> Size {
    match own {
        Space::Fill => b.size,
        Space::Minimize => Size {
            w: max_min_w(s) as i64,
            h: clamp_coord(sum_min_h(s) + vlist_padding(spacing, s.len() as int)) as i64,
        },
    }
}

/// Height left once padding and the minimizing children are paid for.
pub open spec fn vlist_free_height<E: Element>(
    s: Seq<E>,
    spacing: int,
    own: Space,
    b: Bounds,
) -> int {
    vlist_own_size(s, spacing, own, b).h - vlist_padding(spacing, s.len() as int) - minimize_sum(s)
}

/// The equal share each filling child receives; with no filling children
/// nothing is distributed.
pub open spec fn vlist_fill_height<E: Element>(
    s: Seq<E>,
    spacing: int,
    own: Space,
    b: Bounds,
) -> int {
    if fill_count_spec(s) == 0 {
        0
    } else {
        div_tz(vlist_free_height(s, spacing, own, b), fill_count_spec(s))
    }
}

/// The size handed to one child: the container's width and an equal share
/// for a filling child, the child's own natural size for a minimizing one.
pub open spec fn vlist_child_size<E: Element>(
    child: E,
    s: Seq<E>,
    spacing: int,
    own: Space,
    b: Bounds,
) -> Size {
    if child.space_spec() == Space::Fill {
        Size {
            w: vlist_own_size(s, spacing, own, b).w,
            h: clamp_coord(vlist_fill_height(s, spacing, own, b)) as i64,
        }
    } else {
        child.min_size_spec()
    }
}

/// The vertical cursor before child `i`: resulting heights of the children
/// above it, plus one spacing each.
pub open spec fn y_offset<E: Element>(post: Seq<E>, spacing: int, i: int) -> int
    decreases i,
{
    if i <= 0 {
        0
    } else {
        y_offset(post, spacing, i - 1) + post[i - 1].bounds_spec().size.h + spacing
    }
}

/// The bounds handed to child `i`: the cursor depends on the *resulting*
/// heights of the children already placed, so it reads the post sequence.
pub open spec fn vlist_child_bounds<E: Element>(
    pre: Seq<E>,
    post: Seq<E>,
    spacing: int,
    own: Space,
    b: Bounds,
    i: int,
) -> Bounds {
    Bounds {
        x: b.x,
        y: clamp_coord(b.y + y_offset(post, spacing, i)) as i64,
        size: vlist_child_size(pre[i], pre, spacing, own, b),
    }
}

/// The cursor before `i` only reads the children above `i`.
pub proof fn lemma_y_offset_prefix<E: Element>(a: Seq<E>, b: Seq<E>, spacing: int, i: int)
    requires
        i <= a.len(),
        i <= b.len(),
        forall|j: int| 0 <= j < i ==> (#[trigger] a[j]).bounds_spec() == b[j].bounds_spec(),
    ensures
        y_offset(a, spacing, i) == y_offset(b, spacing, i),
    decreases i,
{
    if i > 0 {
        lemma_y_offset_prefix(a, b, spacing, i - 1);
    }
}

/// The measuring folds only read each child's natural size and policy.
pub proof fn lemma_folds_congruent<E: Element>(a: Seq<E>, b: Seq<E>)
    requires
        a.len() == b.len(),
        forall|i: int|
            0 <= i < a.len() ==> (#[trigger] a[i]).min_size_spec() == b[i].min_size_spec() && a[
                i
            ].space_spec() == b[i].space_spec(),
    ensures
        max_min_w(a) == max_min_w(b),
        sum_min_h(a) == sum_min_h(b),
        fill_count_spec(a) == fill_count_spec(b),
        minimize_sum(a) == minimize_sum(b),
    decreases a.len(),
{
    if a.len() > 0 {
        lemma_folds_congruent(a.drop_last(), b.drop_last());
        assert(a.last().min_size_spec() == b.last().min_size_spec());
        assert(a.last().space_spec() == b.last().space_spec());
    }
}

/// Construction-time configuration of a vertical list.
pub struct VListContainerProps<E> {
    pub id: Id,
    pub children: Vec<E>,
    pub space: Space,
    pub spacing: i64,
}

impl<E: Element> VListContainerProps<E> {
    pub open spec fn wf(self) -> bool {
        &&& 0 <= self.spacing <= COORD_MAX
        &&& self.children@.len() <= LIST_MAX
        &&& forall|i: int| 0 <= i < self.children@.len() ==> (#[trigger] self.children@[i]).wf()
    }

    /// The documented defaults: no children, fill space, five units of
    /// spacing.
    pub fn new(id: Id) -> (p: VListContainerProps<E>)
        ensures
            p.id == id,
            p.children@.len() == 0,
            p.space == Space::Fill,
            p.spacing == 5 * UNIT,
            p.wf(),
    {
        VListContainerProps { id, children: Vec::new(), space: Space::Fill, spacing: 5 * UNIT }
    }
}

pub struct VListContainer<E> {
    pub id: Id,
    pub bounds: Bounds,
    pub children: Vec<E>,
    pub space: Space,
    pub spacing: i64,
}

impl<E: Element> VListContainer<E> {
    pub open spec fn inv(self) -> bool {
        &&& self.bounds.wf()
        &&& 0 <= self.spacing <= COORD_MAX
        &&& self.children@.len() <= LIST_MAX
        &&& forall|i: int| 0 <= i < self.children@.len() ==> (#[trigger] self.children@[i]).wf()
    }

    pub fn new(props: VListContainerProps<E>) -> (v: VListContainer<E>)
        requires
            props.wf(),
        ensures
            v.inv(),
            v.id == props.id,
            v.bounds == Bounds::zero(),
            v.children@ == props.children@,
            v.space == props.space,
            v.spacing == props.spacing,
    {
        VListContainer {
            id: props.id,
            bounds: Bounds::zero(),
            children: props.children,
            space: props.space,
            spacing: props.spacing,
        }
    }
}

impl<E: Element> Element for VListContainer<E> {
    open spec fn wf(&self) -> bool {
        self.inv()
    }

    open spec fn bounds_spec(&self) -> Bounds {
        self.bounds
    }

    open spec fn min_size_spec(&self) -> Size {
        Size {
            w: max_min_w(self.children@) as i64,
            h: clamp_between(sum_min_h(self.children@), 0, COORD_MAX as int) as i64,
        }
    }

    open spec fn space_spec(&self) -> Space {
        self.space
    }

    open spec fn set_bounds_ens(&self, post: &Self, b: Bounds) -> bool {
        let s = self.children@;
        let ps = post.children@;
        &&& ps.len() == s.len()
        &&& post.id == self.id
        &&& post.space == self.space
        &&& post.spacing == self.spacing
        &&& post.bounds.x == b.x
        &&& post.bounds.y == b.y
        &&& post.bounds.size == vlist_own_size(s, self.spacing as int, self.space, b)
        &&& forall|i: int|
            0 <= i < s.len() ==> #[trigger] s[i].set_bounds_ens(
                &ps[i],
                vlist_child_bounds(s, ps, self.spacing as int, self.space, b, i),
            )
    }

    open spec fn update_ens(&self, post: &Self, state: &AppState, q0: Seq<Message>, q1: Seq<
        Message,
    >) -> bool {
        &&& post.children@.len() == self.children@.len()
        &&& seq_update_ens(self.children@, post.children@, *state, q0, q1)
        &&& post.id == self.id
        &&& post.bounds == self.bounds
        &&& post.space == self.space
        &&& post.spacing == self.spacing
    }

    open spec fn handle_ens(&self, post: &Self, msg: &Message, q0: Seq<Message>, q1: Seq<
        Message,
    >) -> bool {
        &&& post.children@.len() == self.children@.len()
        &&& seq_handle_ens(self.children@, post.children@, *msg, q0, q1)
        &&& post.id == self.id
        &&& post.bounds == self.bounds
        &&& post.space == self.space
        &&& post.spacing == self.spacing
    }

    #[verifier::loop_isolation(false)]
    fn handle(&mut self, msg: &Message, ctx: &mut UIContext) {
        let ghost old_cs = self.children@;
        let ghost q_start = ctx.queue@;
        let n = self.children.len();
        let mut i: usize = 0;
        while i < n
            invariant
                self.children@.len() == n,
                0 <= i <= n,
                self.id == old(self).id,
                self.bounds == old(self).bounds,
                self.space == old(self).space,
                self.spacing == old(self).spacing,
                forall|k: int| i <= k < n ==> self.children@[k] == old_cs[k],
                forall|k: int| 0 <= k < n ==> (#[trigger] self.children@[k]).wf(),
                q_start.is_prefix_of(ctx.queue@),
                seq_handle_ens(
                    old_cs.take(i as int),
                    self.children@.take(i as int),
                    *msg,
                    q_start,
                    ctx.queue@,
                ),
            decreases n - i,
        {
            let ghost cs_before = self.children@;
            let ghost q_before = ctx.queue@;
            self.children[i].handle(msg, ctx);
            proof {
                assert(old_cs.take(i as int) =~= old_cs.take(i as int));
                assert(cs_before.take(i as int) =~= self.children@.take(i as int));
                lemma_seq_handle_ens_push(
                    old_cs.take(i as int),
                    self.children@.take(i as int),
                    old_cs[i as int],
                    self.children@[i as int],
                    *msg,
                    q_start,
                    q_before,
                    ctx.queue@,
                );
                assert(old_cs.take(i as int + 1) =~= old_cs.take(i as int).push(old_cs[i as int]));
                assert(self.children@.take(i as int + 1) =~= self.children@.take(i as int).push(
                    self.children@[i as int],
                ));
                lemma_prefix_trans(q_start, q_before, ctx.queue@);
            }
            i = i + 1;
        }
        proof {
            assert(old_cs.take(n as int) =~= old_cs);
            assert(self.children@.take(n as int) =~= self.children@);
        }
    }

    #[verifier::loop_isolation(false)]
    fn update(&mut self, state: &AppState, ctx: &mut UIContext) {
        let ghost old_cs = self.children@;
        let ghost q_start = ctx.queue@;
        let n = self.children.len();
        let mut i: usize = 0;
        while i < n
            invariant
                self.children@.len() == n,
                0 <= i <= n,
                self.id == old(self).id,
                self.bounds == old(self).bounds,
                self.space == old(self).space,
                self.spacing == old(self).spacing,
                forall|k: int| i <= k < n ==> self.children@[k] == old_cs[k],
                forall|k: int| 0 <= k < n ==> (#[trigger] self.children@[k]).wf(),
                q_start.is_prefix_of(ctx.queue@),
                seq_update_ens(
                    old_cs.take(i as int),
                    self.children@.take(i as int),
                    *state,
                    q_start,
                    ctx.queue@,
                ),
            decreases n - i,
        {
            let ghost cs_before = self.children@;
            let ghost q_before = ctx.queue@;
            self.children[i].update(state, ctx);
            proof {
                assert(cs_before.take(i as int) =~= self.children@.take(i as int));
                lemma_seq_update_ens_push(
                    old_cs.take(i as int),
                    self.children@.take(i as int),
                    old_cs[i as int],
                    self.children@[i as int],
                    *state,
                    q_start,
                    q_before,
                    ctx.queue@,
                );
                assert(old_cs.take(i as int + 1) =~= old_cs.take(i as int).push(old_cs[i as int]));
                assert(self.children@.take(i as int + 1) =~= self.children@.take(i as int).push(
                    self.children@[i as int],
                ));
                lemma_prefix_trans(q_start, q_before, ctx.queue@);
            }
            i = i + 1;
        }
        proof {
            assert(old_cs.take(n as int) =~= old_cs);
            assert(self.children@.take(n as int) =~= self.children@);
        }
    }

    fn draw<R: Renderer>(&self, renderer: &mut R) {
        let n = self.children.len();
        let mut i: usize = 0;
        while i < n
            invariant
                n == self.children@.len(),
                0 <= i <= n,
                forall|k: int| 0 <= k < n ==> (#[trigger] self.children@[k]).wf(),
            decreases n - i,
        {
            self.children[i].draw(renderer);
            i = i + 1;
        }
    }

    #[verifier::loop_isolation(false)]
    fn set_bounds(&mut self, bounds: Bounds) {
        let ghost old_cs = self.children@;
        let n = self.children.len();
        // Measure pass.
        let mut min_w: i64 = 0;
        let mut min_h: i64 = 0;
        let mut fill_count: i64 = 0;
        let mut child_min: i64 = 0;
        let mut i: usize = 0;
        while i < n
            invariant
                0 <= i <= n,
                min_w == max_min_w(self.children@.take(i as int)),
                0 <= min_w <= COORD_MAX,
                min_h == sum_min_h(self.children@.take(i as int)),
                0 <= min_h <= i * (COORD_MAX as int),
                fill_count == fill_count_spec(self.children@.take(i as int)),
                0 <= fill_count <= i,
                child_min == minimize_sum(self.children@.take(i as int)),
                0 <= child_min <= i * (COORD_MAX as int),
            decreases n - i,
        {
            let m = self.children[i].min_size();
            let sp = self.children[i].space();
            proof {
                assert(self.children@.take(i as int + 1).drop_last() =~= self.children@.take(
                    i as int,
                ));
            }
            if m.w > min_w {
                min_w = m.w;
            }
            min_h = min_h + m.h;
            match sp {
                Space::Fill => {
                    fill_count = fill_count + 1;
                },
                Space::Minimize => {
                    child_min = child_min + m.h;
                },
            }
            i = i + 1;
        }
        proof {
            assert(self.children@.take(n as int) =~= self.children@);
        }
        let total_padding: i64 = if n == 0 {
            0
        } else {
            proof {
                lemma_mul_bounds(
                    self.spacing as int,
                    (n - 1) as int,
                    COORD_MAX as int,
                    LIST_MAX as int,
                );
            }
            self.spacing * ((n - 1) as i64)
        };
        let size_w: i64;
        let size_h: i64;
        match self.space {
            Space::Fill => {
                size_w = bounds.size.w;
                size_h = bounds.size.h;
            },
            Space::Minimize => {
                size_w = min_w;
                size_h = clamp64(min_h + total_padding);
            },
        }
        let free_height: i64 = size_h - total_padding - child_min;
        let fill_h: i64 = if fill_count == 0 {
            0
        } else {
            clamp64(div_tz64(free_height, fill_count))
        };
        let spacing = self.spacing;
        let own_space = self.space;
        proof {
            assert(size_w as int == vlist_own_size(old_cs, spacing as int, own_space, bounds).w);
            assert(size_h as int == vlist_own_size(old_cs, spacing as int, own_space, bounds).h);
            assert(fill_h as int == clamp_coord(
                vlist_fill_height(old_cs, spacing as int, own_space, bounds),
            ));
        }
        // Distribute pass.
        let mut y_acc: i64 = 0;
        let mut i: usize = 0;
        while i < n
            invariant
                0 <= i <= n,
                self.children@.len() == n,
                self.id == old(self).id,
                self.spacing == spacing,
                self.space == own_space,
                self.bounds == old(self).bounds,
                forall|k: int| i <= k < n ==> self.children@[k] == old_cs[k],
                forall|k: int| 0 <= k < n ==> (#[trigger] self.children@[k]).wf(),
                forall|k: int|
                    0 <= k < n ==> (#[trigger] self.children@[k]).min_size_spec()
                        == old_cs[k].min_size_spec() && self.children@[k].space_spec()
                        == old_cs[k].space_spec(),
                -(i as int) * (2 * COORD_MAX as int) <= y_acc <= (i as int) * (2 * COORD_MAX as int),
                y_acc == y_offset(self.children@, spacing as int, i as int),
                forall|k: int|
                    0 <= k < i ==> #[trigger] old_cs[k].set_bounds_ens(
                        &self.children@[k],
                        vlist_child_bounds(
                            old_cs,
                            self.children@,
                            spacing as int,
                            own_space,
                            bounds,
                            k,
                        ),
                    ),
            decreases n - i,
        {
            let ghost cs_before = self.children@;
            let m = self.children[i].min_size();
            let sp = self.children[i].space();
            let child_size = match sp {
                Space::Fill => Size { w: size_w, h: fill_h },
                Space::Minimize => m,
            };
            let cb = Bounds { x: bounds.x, y: clamp64(bounds.y + y_acc), size: child_size };
            self.children[i].set_bounds(cb);
            let got = self.children[i].bounds();
            proof {
                // The bounds just handed over are the specified ones: the
                // cursor only read children above `i`, which are final.
                lemma_y_offset_prefix(cs_before, self.children@, spacing as int, i as int);
                assert(cb == vlist_child_bounds(
                    old_cs,
                    self.children@,
                    spacing as int,
                    own_space,
                    bounds,
                    i as int,
                ));
                // Earlier children keep their relation: their assigned
                // bounds read nothing at or after their own index.
                assert forall|k: int| 0 <= k < i + 1 implies #[trigger] old_cs[k].set_bounds_ens(
                    &self.children@[k],
                    vlist_child_bounds(old_cs, self.children@, spacing as int, own_space, bounds, k),
                ) by {
                    if k < i {
                        lemma_y_offset_prefix(cs_before, self.children@, spacing as int, k);
                        assert(old_cs[k].set_bounds_ens(
                            &cs_before[k],
                            vlist_child_bounds(old_cs, cs_before, spacing as int, own_space, bounds, k),
                        ));
                        assert(cs_before[k] == self.children@[k]);
                    }
                }
            }
            y_acc = y_acc + got.size.h + self.spacing;
            proof {
                lemma_y_offset_prefix(cs_before, self.children@, spacing as int, i as int);
                assert(y_acc == y_offset(self.children@, spacing as int, i as int + 1));
            }
            i = i + 1;
        }
        self.bounds = Bounds { x: bounds.x, y: bounds.y, size: Size { w: size_w, h: size_h } };
        proof {
            lemma_folds_congruent(old_cs, self.children@);
        }
    }

    fn bounds(&self) -> (b: Bounds) {
        self.bounds
    }

    #[verifier::loop_isolation(false)]
    fn min_size(&self) -> (s: Size) {
        let n = self.children.len();
        let mut w: i64 = 0;
        let mut h: i64 = 0;
        let mut i: usize = 0;
        while i < n
            invariant
                0 <= i <= n,
                w == max_min_w(self.children@.take(i as int)),
                0 <= w <= COORD_MAX,
                h == sum_min_h(self.children@.take(i as int)),
                0 <= h <= i * (COORD_MAX as int),
            decreases n - i,
        {
            let m = self.children[i].min_size();
            proof {
                assert(self.children@.take(i as int + 1).drop_last() =~= self.children@.take(
                    i as int,
                ));
            }
            if m.w > w {
                w = m.w;
            }
            h = h + m.h;
            i = i + 1;
        }
        proof {
            assert(self.children@.take(n as int) =~= self.children@);
        }
        let capped_h: i64 = if h > COORD_MAX {
            COORD_MAX
        } else {
            h
        };
        Size { w, h: capped_h }
    }

    fn space(&self) -> (s: Space) {
        self.space
    }

    #[verifier::loop_isolation(false)]
    fn write_all_bounds(&self, v: &mut Vec<Bounds>) {
        v.push(self.bounds);
        let n = self.children.len();
        let mut i: usize = 0;
        while i < n
            invariant
                0 <= i <= n,
                old(v)@.is_prefix_of(v@),
                v@.len() > old(v)@.len(),
            decreases n - i,
        {
            let ghost v_before = v@;
            self.children[i].write_all_bounds(v);
            proof {
                lemma_prefix_trans(old(v)@, v_before, v@);
            }
            i = i + 1;
        }
    }
}

} // verus!
