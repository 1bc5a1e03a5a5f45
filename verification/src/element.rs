//! The shared capability set every tree node implements, and the drawing
//! capability the tree renders through.
//!
//! Each implementor gives the trait's spec functions its own meaning: `wf`
//! is its internal invariant, and the `*_ens` relations say exactly how the
//! mutating operations transform it and what they append to the message
//! queue. The exec methods then carry one uniform contract: they keep the
//! invariant, only append to the queue, and satisfy the implementor's own
//! relation.

use vstd::prelude::*;
use crate::geometry::{Bounds, Size, Space, UNIT};
use crate::input::AppState;
use crate::messages::{EventObserver, Message, UIContext};

verus! {

/// An RGBA color in milli-units: `UNIT` is full intensity.
#[derive(Clone, Copy, Debug, PartialEq, Eq, Structural)]
pub struct Color {
    pub r: i64,
    pub g: i64,
    pub b: i64,
    pub a: i64,
}

impl Color {
    pub open spec fn wf(self) -> bool {
        0 <= self.r <= UNIT && 0 <= self.g <= UNIT && 0 <= self.b <= UNIT && 0 <= self.a <= UNIT
    }

    pub open spec fn white_spec() -> Color {
        Color { r: UNIT as i64, g: UNIT as i64, b: UNIT as i64, a: UNIT as i64 }
    }

    #[verifier::when_used_as_spec(white_spec)]
    pub fn white() -> (c: Color)
        ensures
            c == (Color { r: UNIT as i64, g: UNIT as i64, b: UNIT as i64, a: UNIT as i64 }),
            c.wf(),
    {
        Color { r: UNIT, g: UNIT, b: UNIT, a: UNIT }
    }
}

/// The drawing capability: rasterization lives behind it, outside the
/// library. A texture is named by the handle the renderer itself issued.
pub trait Renderer {
    fn draw_rectangle(&mut self, bounds: Bounds, texture: Option<u32>, color: Color);

    fn draw_text(&mut self, bounds: Bounds, text: &str, color: Color);
}

/// The widget protocol.
pub trait Element: Sized {
    /// The implementor's internal invariant.
    spec fn wf(&self) -> bool;

    /// What `bounds()` returns.
    spec fn bounds_spec(&self) -> Bounds;

    /// What `min_size()` returns.
    spec fn min_size_spec(&self) -> Size;

    /// What `space()` returns.
    spec fn space_spec(&self) -> Space;

    /// How `set_bounds(b)` transforms the widget.
    spec fn set_bounds_ens(&self, post: &Self, b: Bounds) -> bool;

    /// How `update` transforms the widget and the queue (`q0` before, `q1`
    /// after).
    spec fn update_ens(&self, post: &Self, state: &AppState, q0: Seq<Message>, q1: Seq<
        Message,
    >) -> bool;

    /// How `handle` transforms the widget and the queue.
    spec fn handle_ens(&self, post: &Self, msg: &Message, q0: Seq<Message>, q1: Seq<
        Message,
    >) -> bool;

    /// React to one dispatched message, possibly queueing follow-ups.
    fn handle(&mut self, msg: &Message, ctx: &mut UIContext)
        requires
            old(self).wf(),
        ensures
            final(self).wf(),
            old(ctx).queue@.is_prefix_of(final(ctx).queue@),
            old(self).handle_ens(final(self), msg, old(ctx).queue@, final(ctx).queue@),
    ;

    /// Advance animation and logic by one frame, possibly emitting messages.
    fn update(&mut self, state: &AppState, ctx: &mut UIContext)
        requires
            old(self).wf(),
            state.wf(),
        ensures
            final(self).wf(),
            final(self).space_spec() == old(self).space_spec(),
            old(ctx).queue@.is_prefix_of(final(ctx).queue@),
            old(self).update_ens(final(self), state, old(ctx).queue@, final(ctx).queue@),
    ;

    /// Draw this widget and its subtree; a pure read of the tree.
    fn draw<R: Renderer>(&self, renderer: &mut R)
        requires
            self.wf(),
    ;

    /// Recompute own and children's layout from the incoming bounds.
    fn set_bounds(&mut self, bounds: Bounds)
        requires
            old(self).wf(),
            bounds.wf(),
        ensures
            final(self).wf(),
            final(self).min_size_spec() == old(self).min_size_spec(),
            final(self).space_spec() == old(self).space_spec(),
            old(self).set_bounds_ens(final(self), bounds),
    ;

    fn bounds(&self) -> (b: Bounds)
        requires
            self.wf(),
        ensures
            b == self.bounds_spec(),
            b.wf(),
    ;

    /// The natural content size: well-formed and nonnegative.
    fn min_size(&self) -> (s: Size)
        requires
            self.wf(),
        ensures
            s == self.min_size_spec(),
            s.wf_min(),
    ;

    fn space(&self) -> (s: Space)
        requires
            self.wf(),
        ensures
            s == self.space_spec(),
    ;

    /// Append every bounds in the subtree, this node's first: the debug
    /// traversal.
    fn write_all_bounds(&self, v: &mut Vec<Bounds>)
        requires
            self.wf(),
        ensures
            old(v)@.is_prefix_of(final(v)@),
            final(v)@.len() > old(v)@.len(),
    ;

    /// The debug traversal as a fresh vector.
    fn all_bounds(&self) -> (v: Vec<Bounds>)
        requires
            self.wf(),
        ensures
            v@.len() > 0,
    {
        let mut v: Vec<Bounds> = Vec::new();
        self.write_all_bounds(&mut v);
        v
    }
}

/// The children of a container were updated one after another, first to
/// last, the queue threading through: `q0` before the first, `q1` after the
/// last.
pub open spec fn seq_update_ens<E: Element>(
    pre: Seq<E>,
    post: Seq<E>,
    state: AppState,
    q0: Seq<Message>,
    q1: Seq<Message>,
) -> bool
    decreases pre.len(),
{
    if pre.len() == 0 {
        post.len() == 0 && q1 == q0
    } else {
        post.len() == pre.len() && exists|qm: Seq<Message>|
            #[trigger] pre[0].update_ens(&post[0], &state, q0, qm) && seq_update_ens(
                pre.skip(1),
                post.skip(1),
                state,
                qm,
                q1,
            )
    }
}

/// Same, for one dispatched message handled by each child in order.
pub open spec fn seq_handle_ens<E: Element>(
    pre: Seq<E>,
    post: Seq<E>,
    msg: Message,
    q0: Seq<Message>,
    q1: Seq<Message>,
) -> bool
    decreases pre.len(),
{
    if pre.len() == 0 {
        post.len() == 0 && q1 == q0
    } else {
        post.len() == pre.len() && exists|qm: Seq<Message>|
            #[trigger] pre[0].handle_ens(&post[0], &msg, q0, qm) && seq_handle_ens(
                pre.skip(1),
                post.skip(1),
                msg,
                qm,
                q1,
            )
    }
}

/// Extending an update chain by one more child on the right.
pub proof fn lemma_seq_update_ens_push<E: Element>(
    pre: Seq<E>,
    post: Seq<E>,
    x: E,
    y: E,
    state: AppState,
    q0: Seq<Message>,
    qm: Seq<Message>,
    q1: Seq<Message>,
)
    requires
        seq_update_ens(pre, post, state, q0, qm),
        x.update_ens(&y, &state, qm, q1),
    ensures
        seq_update_ens(pre.push(x), post.push(y), state, q0, q1),
    decreases pre.len(),
{
    assert(pre.push(x)[0] == if pre.len() == 0 {
        x
    } else {
        pre[0]
    });
    if pre.len() == 0 {
        assert(pre.push(x).skip(1) =~= Seq::<E>::empty());
        assert(post.push(y).skip(1) =~= Seq::<E>::empty());
        assert(seq_update_ens(pre.push(x).skip(1), post.push(y).skip(1), state, q1, q1));
        assert(pre.push(x)[0].update_ens(&post.push(y)[0], &state, q0, q1));
    } else {
        let qmid = choose|qq: Seq<Message>|
            #[trigger] pre[0].update_ens(&post[0], &state, q0, qq) && seq_update_ens(
                pre.skip(1),
                post.skip(1),
                state,
                qq,
                qm,
            );
        lemma_seq_update_ens_push(pre.skip(1), post.skip(1), x, y, state, qmid, qm, q1);
        assert(pre.push(x).skip(1) =~= pre.skip(1).push(x));
        assert(post.push(y).skip(1) =~= post.skip(1).push(y));
        assert(seq_update_ens(pre.push(x).skip(1), post.push(y).skip(1), state, qmid, q1));
        assert(pre.push(x)[0].update_ens(&post.push(y)[0], &state, q0, qmid));
    }
}

/// Extending a handle chain by one more child on the right.
pub proof fn lemma_seq_handle_ens_push<E: Element>(
    pre: Seq<E>,
    post: Seq<E>,
    x: E,
    y: E,
    msg: Message,
    q0: Seq<Message>,
    qm: Seq<Message>,
    q1: Seq<Message>,
)
    requires
        seq_handle_ens(pre, post, msg, q0, qm),
        x.handle_ens(&y, &msg, qm, q1),
    ensures
        seq_handle_ens(pre.push(x), post.push(y), msg, q0, q1),
    decreases pre.len(),
{
    assert(pre.push(x)[0] == if pre.len() == 0 {
        x
    } else {
        pre[0]
    });
    if pre.len() == 0 {
        assert(pre.push(x).skip(1) =~= Seq::<E>::empty());
        assert(post.push(y).skip(1) =~= Seq::<E>::empty());
        assert(seq_handle_ens(pre.push(x).skip(1), post.push(y).skip(1), msg, q1, q1));
        assert(pre.push(x)[0].handle_ens(&post.push(y)[0], &msg, q0, q1));
    } else {
        let qmid = choose|qq: Seq<Message>|
            #[trigger] pre[0].handle_ens(&post[0], &msg, q0, qq) && seq_handle_ens(
                pre.skip(1),
                post.skip(1),
                msg,
                qq,
                qm,
            );
        lemma_seq_handle_ens_push(pre.skip(1), post.skip(1), x, y, msg, qmid, qm, q1);
        assert(pre.push(x).skip(1) =~= pre.skip(1).push(x));
        assert(post.push(y).skip(1) =~= post.skip(1).push(y));
        assert(seq_handle_ens(pre.push(x).skip(1), post.push(y).skip(1), msg, qmid, q1));
        assert(pre.push(x)[0].handle_ens(&post.push(y)[0], &msg, q0, qmid));
    }
}

/// One node handled a batch of messages one after another, first to last,
/// the queue threading through.
pub open spec fn msgs_handle_ens<E: Element>(
    pre: E,
    post: E,
    msgs: Seq<Message>,
    q0: Seq<Message>,
    q1: Seq<Message>,
) -> bool
    decreases msgs.len(),
{
    if msgs.len() == 0 {
        post == pre && q1 == q0
    } else {
        exists|mid: E, qm: Seq<Message>|
            #[trigger] pre.handle_ens(&mid, &msgs[0], q0, qm) && msgs_handle_ens(
                mid,
                post,
                msgs.skip(1),
                qm,
                q1,
            )
    }
}

/// Extending a batch by one more message on the right.
pub proof fn lemma_msgs_handle_ens_push<E: Element>(
    pre: E,
    mid: E,
    post: E,
    msgs: Seq<Message>,
    m: Message,
    q0: Seq<Message>,
    qm: Seq<Message>,
    q1: Seq<Message>,
)
    requires
        msgs_handle_ens(pre, mid, msgs, q0, qm),
        mid.handle_ens(&post, &m, qm, q1),
    ensures
        msgs_handle_ens(pre, post, msgs.push(m), q0, q1),
    decreases msgs.len(),
{
    assert(msgs.push(m)[0] == if msgs.len() == 0 {
        m
    } else {
        msgs[0]
    });
    if msgs.len() == 0 {
        assert(msgs.push(m).skip(1) =~= Seq::<Message>::empty());
        assert(msgs_handle_ens(post, post, msgs.push(m).skip(1), q1, q1));
        assert(pre.handle_ens(&post, &msgs.push(m)[0], q0, q1));
    } else {
        let (r2, q2) = choose|r2: E, q2: Seq<Message>|
            #[trigger] pre.handle_ens(&r2, &msgs[0], q0, q2) && msgs_handle_ens(
                r2,
                mid,
                msgs.skip(1),
                q2,
                qm,
            );
        lemma_msgs_handle_ens_push(r2, mid, post, msgs.skip(1), m, q2, qm, q1);
        assert(msgs.push(m).skip(1) =~= msgs.skip(1).push(m));
        assert(msgs_handle_ens(r2, post, msgs.push(m).skip(1), q2, q1));
        assert(pre.handle_ens(&r2, &msgs.push(m)[0], q0, q2));
    }
}

/// One frame: snapshot in, tree updated (messages queued), the queue
/// drained once, and every drained message dispatched in emission order to
/// the whole tree and to at most one matching observer. Messages produced
/// while handling this batch stay queued for the next frame: no redelivery.
pub fn run_frame<E: Element>(
    root: &mut E,
    state: &AppState,
    ctx: &mut UIContext,
    observer: &EventObserver,
)
    requires
        old(root).wf(),
        state.wf(),
        observer.wf(),
    ensures
        final(root).wf(),
        exists|mid: E, emitted: Seq<Message>|
            {
                &&& #[trigger] old(root).update_ens(&mid, state, old(ctx).queue@, emitted)
                &&& msgs_handle_ens(mid, *final(root), emitted, Seq::empty(), final(ctx).queue@)
            },
{
    root.update(state, ctx);
    let ghost mid = *root;
    let batch = ctx.drain();
    let ghost emitted = batch@;
    let n = batch.len();
    let mut i: usize = 0;
    while i < n
        invariant
            n == batch@.len(),
            0 <= i <= n,
            root.wf(),
            observer.wf(),
            msgs_handle_ens(mid, *root, batch@.take(i as int), Seq::empty(), ctx.queue@),
        decreases n - i,
    {
        let ghost root_before = *root;
        let ghost q_before = ctx.queue@;
        root.handle(&batch[i], ctx);
        observer.handle(&batch[i]);
        proof {
            lemma_msgs_handle_ens_push(
                mid,
                root_before,
                *root,
                batch@.take(i as int),
                batch@[i as int],
                Seq::empty(),
                q_before,
                ctx.queue@,
            );
            assert(batch@.take(i as int + 1) =~= batch@.take(i as int).push(batch@[i as int]));
        }
        i = i + 1;
    }
    proof {
        assert(batch@.take(n as int) =~= batch@);
        assert(old(root).update_ens(&mid, state, old(ctx).queue@, emitted));
    }
}

/// Prefixes chain: what was only appended to stays an extension.
pub proof fn lemma_prefix_trans<T>(a: Seq<T>, b: Seq<T>, c: Seq<T>)
    requires
        a.is_prefix_of(b),
        b.is_prefix_of(c),
    ensures
        a.is_prefix_of(c),
{
    assert(a =~= c.subrange(0, a.len() as int)) by {
        assert(forall|i: int| 0 <= i < a.len() ==> a[i] == b[i] && b[i] == c[i]);
    }
}

} // verus!
