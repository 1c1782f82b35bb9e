use std::marker::PhantomData;

use vstd::prelude::*;

use crate::config::color::RgbaColor;
use crate::geometry::{Rectangle, SurfaceGeometry, SurfaceLogicalRectangle, SurfaceLogicalSize};
use crate::surface::transformers::border::at_least;
use crate::surface::{fills_view, ArrangeContext, Fill, SurfaceTransform, SurfaceTransformer, WindowTransform};

verus! {

/// A run whose transformers have not shaped the window yet.
pub struct Unarranged;

/// A run whose transformers have shaped the window.
pub struct Arranged;

/// A run whose decorations below the client have been drawn.
pub struct PreRendered;

/// A run whose decorations above the client have been drawn.
pub struct PostRendered;

/// What the transformers `ts` make of `input`, applied first to last.
pub open spec fn arranged_through(
    ts: Seq<SurfaceTransform>,
    input: WindowTransform,
    ctx: ArrangeContext,
) -> WindowTransform
    decreases ts.len(),
{
    if ts.len() == 0 {
        input
    } else {
        ts.last().arranged(arranged_through(ts.drop_last(), input, ctx), ctx)
    }
}

/// Whether every transformer of `ts`, applied first to last, stays within
/// machine integers on what it gets.
pub open spec fn can_arrange_through(
    ts: Seq<SurfaceTransform>,
    input: WindowTransform,
    ctx: ArrangeContext,
) -> bool
    decreases ts.len(),
{
    if ts.len() == 0 {
        true
    } else {
        &&& can_arrange_through(ts.drop_last(), input, ctx)
        &&& ts.last().can_arrange(arranged_through(ts.drop_last(), input, ctx))
    }
}

/// Whether every transformer of `ts` can draw around a window shaped to `t`.
pub open spec fn can_render_through(ts: Seq<SurfaceTransform>, t: WindowTransform) -> bool {
    forall|i: int| 0 <= i < ts.len() ==> (#[trigger] ts[i]).can_render(t)
}

/// What the transformers of `ts` draw below the client of a window shaped to
/// `t`: each one's `pre_fills`, in the order they were pushed.
pub open spec fn pre_fills_through(ts: Seq<SurfaceTransform>, t: WindowTransform, focused: bool) -> Seq<
    (RgbaColor, Seq<Rectangle>),
>
    decreases ts.len(),
{
    if ts.len() == 0 {
        Seq::empty()
    } else {
        pre_fills_through(ts.drop_last(), t, focused) + ts.last().pre_fills(t, focused)
    }
}

/// What the transformers of `ts` draw above the client of a window shaped to
/// `t`: each one's `post_fills`, the last pushed first, so that the first
/// pushed wraps the others.
pub open spec fn post_fills_through(ts: Seq<SurfaceTransform>, t: WindowTransform, focused: bool) -> Seq<
    (RgbaColor, Seq<Rectangle>),
>
    decreases ts.len(),
{
    if ts.len() == 0 {
        Seq::empty()
    } else {
        ts.last().post_fills(t, focused) + post_fills_through(ts.drop_last(), t, focused)
    }
}

/// The fills of `a` followed by those of `b` stand for what `a` and `b`
/// stand for, one after the other.
pub proof fn lemma_fills_view_add(a: Seq<Fill>, b: Seq<Fill>)
    ensures
        fills_view(a + b) == fills_view(a) + fills_view(b),
{
    assert(fills_view(a + b) =~= fills_view(a) + fills_view(b));
}

/// The magnitude of `a`.
pub open spec fn magnitude(a: int) -> int {
    if a < 0 {
        -a
    } else {
        a
    }
}

/// How far the transformers of `ts` can move or resize a client rectangle in
/// all: twice the width of each border and gap, by magnitude.
pub open spec fn total_inset(ts: Seq<SurfaceTransform>) -> int
    decreases ts.len(),
{
    if ts.len() == 0 {
        0
    } else {
        total_inset(ts.drop_last()) + match ts.last() {
            SurfaceTransform::Border(b) => 2 * magnitude(b.width as int),
            SurfaceTransform::Gap(g) => 2 * magnitude(g.gap as int),
        }
    }
}

/// The total inset of the first `k` transformers is at most that of them all.
pub proof fn lemma_total_inset_grows(ts: Seq<SurfaceTransform>, k: int)
    requires
        0 <= k <= ts.len(),
    ensures
        0 <= total_inset(ts.take(k)) <= total_inset(ts),
    decreases ts.len() - k, 1int,
{
    if k == ts.len() {
        assert(ts.take(k) =~= ts);
        lemma_total_inset_nonnegative(ts);
    } else {
        lemma_total_inset_grows(ts, k + 1);
        assert(ts.take(k + 1).drop_last() =~= ts.take(k));
        lemma_total_inset_nonnegative(ts.take(k));
    }
}

proof fn lemma_total_inset_nonnegative(ts: Seq<SurfaceTransform>)
    ensures
        total_inset(ts) >= 0,
    decreases ts.len(),
{
    if ts.len() > 0 {
        lemma_total_inset_nonnegative(ts.drop_last());
    }
}

/// Whether the position and size of the client rectangle of `t` lie within
/// `bound` of 0.
pub open spec fn client_within(t: WindowTransform, bound: int) -> bool {
    &&& -bound <= t.client_rect.loc.x <= bound
    &&& -bound <= t.client_rect.loc.y <= bound
    &&& -bound <= t.client_rect.size.w <= bound
    &&& -bound <= t.client_rect.size.h <= bound
}

/// A client rectangle within `bound` stays within machine integers through
/// the transformers of `ts` where `bound` and their total inset stay below
/// 2^30, and comes out within `bound` plus that inset.
pub proof fn lemma_arrange_bounded(ts: Seq<SurfaceTransform>, input: WindowTransform, ctx: ArrangeContext, bound: int)
    requires
        bound >= 1,
        client_within(input, bound),
        total_inset(ts) >= 0 ==> bound + total_inset(ts) <= 0x4000_0000,
        bound + total_inset(ts) <= 0x4000_0000,
    ensures
        total_inset(ts) >= 0,
        can_arrange_through(ts, input, ctx),
        client_within(arranged_through(ts, input, ctx), bound + total_inset(ts)),
    decreases ts.len(),
{
    if ts.len() > 0 {
        let rest = ts.drop_last();
        assert(total_inset(ts) >= total_inset(rest) + 0);
        lemma_arrange_bounded(rest, input, ctx, bound);
        let prev = arranged_through(rest, input, ctx);
        let big = bound + total_inset(rest);
        let r = prev.client_rect;
        assert(arranged_through(ts, input, ctx) == ts.last().arranged(prev, ctx));
        match ts.last() {
            SurfaceTransform::Border(b) => {
                let d = b.drawn_width();
                assert(0 <= d <= magnitude(b.width as int));
                let out = b.arranged(prev, ctx).client_rect;
                assert(out.loc.x == r.loc.x + d);
                assert(out.loc.y == r.loc.y + d);
                assert(out.size.w == at_least(r.size.w - 2 * d, 1));
                assert(out.size.h == at_least(r.size.h - 2 * d, 1));
                assert(total_inset(ts) == total_inset(rest) + 2 * magnitude(b.width as int));
                let nb = bound + total_inset(ts);
                assert(nb == big + 2 * magnitude(b.width as int));
                assert(-nb <= out.loc.x <= nb);
                assert(-nb <= out.loc.y <= nb);
                assert(-big <= r.size.w <= big && -big <= r.size.h <= big);
                assert(1 <= nb);
                assert(-nb <= r.size.w - 2 * d <= nb);
                assert(-nb <= r.size.h - 2 * d <= nb);
                assert(-nb <= out.size.w <= nb);
                assert(-nb <= out.size.h <= nb);
                assert(client_within(b.arranged(prev, ctx), nb));
            },
            SurfaceTransform::Gap(g) => {
                let out = g.arranged(prev, ctx).client_rect;
                assert(out.loc.x == r.loc.x + g.gap);
                assert(out.loc.y == r.loc.y + g.gap);
                assert(out.size.w == r.size.w - 2 * g.gap);
                assert(out.size.h == r.size.h - 2 * g.gap);
                assert(total_inset(ts) == total_inset(rest) + 2 * magnitude(g.gap as int));
                assert(client_within(g.arranged(prev, ctx), bound + total_inset(ts)));
            },
        }
    }
}

/// The transformers that shape every window, in the order they apply.
pub struct SurfaceTransformPipeline {
    transformers: Vec<SurfaceTransform>,
}

impl View for SurfaceTransformPipeline {
    type V = Seq<SurfaceTransform>;

    closed spec fn view(&self) -> Seq<SurfaceTransform> {
        self.transformers@
    }
}

impl Default for SurfaceTransformPipeline {
    fn default() -> (p: Self)
        ensures
            p@ == Seq::<SurfaceTransform>::empty(),
    {
        Self::new()
    }
}

impl SurfaceTransformPipeline {
    pub fn new() -> (p: Self)
        ensures
            p@ == Seq::<SurfaceTransform>::empty(),
    {
        Self { transformers: Vec::new() }
    }

    /// Adds a transformer that applies after those already there.
    pub fn push(&mut self, transformer: SurfaceTransform)
        ensures
            final(self)@ == old(self)@.push(transformer),
    {
        self.transformers.push(transformer);
    }

    /// The transformers, in the order they apply.
    pub fn transformers(&self) -> (ts: &Vec<SurfaceTransform>)
        ensures
            ts@ == self@,
    {
        &self.transformers
    }

    /// Starts a run on a window whose outer geometry is `outer`.
    pub fn begin(&self, outer: SurfaceGeometry, arrange_ctx: ArrangeContext) -> (run:
        SurfaceTransformRun<'_, Unarranged>)
        ensures
            run.pipeline_spec() == self,
            run.transform_spec() == WindowTransform::spec_from_geometry(outer),
            run.arrange_ctx_spec() == arrange_ctx,
    {
        SurfaceTransformRun {
            pipeline: self,
            transform: WindowTransform::from_geometry(outer),
            arrange_ctx,
            _phase: PhantomData,
        }
    }
}

/// One window going through the pipeline, in the phase `Phase`.
pub struct SurfaceTransformRun<'a, Phase> {
    pipeline: &'a SurfaceTransformPipeline,
    transform: WindowTransform,
    arrange_ctx: ArrangeContext,
    _phase: PhantomData<Phase>,
}

impl<'a, Phase> SurfaceTransformRun<'a, Phase> {
    pub closed spec fn pipeline_spec(&self) -> &'a SurfaceTransformPipeline {
        self.pipeline
    }

    pub closed spec fn transform_spec(&self) -> WindowTransform {
        self.transform
    }

    pub closed spec fn arrange_ctx_spec(&self) -> ArrangeContext {
        self.arrange_ctx
    }
}

impl<'a> SurfaceTransformRun<'a, Unarranged> {
    /// Lets every transformer of the pipeline shape the window, first to last.
    pub fn arrange(self) -> (run: SurfaceTransformRun<'a, Arranged>)
        requires
            can_arrange_through(self.pipeline_spec()@, self.transform_spec(), self.arrange_ctx_spec()),
        ensures
            run.pipeline_spec() == self.pipeline_spec(),
            run.arrange_ctx_spec() == self.arrange_ctx_spec(),
            run.transform_spec() == arranged_through(self.pipeline_spec()@, self.transform_spec(), self.arrange_ctx_spec()),
    {
        let ts = &self.pipeline.transformers;
        let ghost tseq = ts@;
        let ctx = self.arrange_ctx;
        let mut transform = self.transform;
        let n = ts.len();
        let mut i: usize = 0;
        while i < n
            invariant
                n == tseq.len(),
                tseq == ts@,
                i <= n,
                can_arrange_through(tseq, self.transform, ctx),
                transform == arranged_through(tseq.take(i as int), self.transform, ctx),
            decreases n - i,
        {
            proof {
                lemma_can_arrange_prefix(tseq, self.transform, ctx, i as int + 1);
                assert(tseq.take(i + 1).drop_last() =~= tseq.take(i as int));
            }
            transform = ts[i].arrange(transform, &ctx);
            i = i + 1;
        }
        assert(tseq.take(n as int) =~= tseq);
        SurfaceTransformRun {
            pipeline: self.pipeline,
            transform,
            arrange_ctx: self.arrange_ctx,
            _phase: PhantomData,
        }
    }
}

/// Where every transformer of `ts` can work, so can those of each prefix.
pub proof fn lemma_can_arrange_prefix(
    ts: Seq<SurfaceTransform>,
    input: WindowTransform,
    ctx: ArrangeContext,
    k: int,
)
    requires
        0 <= k <= ts.len(),
        can_arrange_through(ts, input, ctx),
    ensures
        can_arrange_through(ts.take(k), input, ctx),
    decreases ts.len() - k,
{
    if k < ts.len() {
        assert(ts.drop_last().take(k) =~= ts.take(k));
        lemma_can_arrange_prefix(ts.drop_last(), input, ctx, k);
    } else {
        assert(ts.take(k) =~= ts);
    }
}

/// A pipeline without transformers leaves a window as it is, and a
/// transformer pushed onto a pipeline shapes what the pipeline made before.
pub proof fn lemma_pipeline_composes(
    ts: Seq<SurfaceTransform>,
    t: SurfaceTransform,
    input: WindowTransform,
    ctx: ArrangeContext,
)
    ensures
        arranged_through(Seq::empty(), input, ctx) == input,
        arranged_through(ts.push(t), input, ctx) == t.arranged(arranged_through(ts, input, ctx), ctx),
        can_arrange_through(ts.push(t), input, ctx) <==> can_arrange_through(ts, input, ctx) && t.can_arrange(
            arranged_through(ts, input, ctx),
        ),
{
    assert(ts.push(t).drop_last() =~= ts);
}

impl<'a> SurfaceTransformRun<'a, Arranged> {
    pub fn transform(&self) -> (t: WindowTransform)
        ensures
            t == self.transform_spec(),
    {
        self.transform
    }

    pub fn configure_size(&self) -> (s: SurfaceLogicalSize)
        ensures
            s == self.transform_spec().configure_size,
    {
        self.transform.configure_size
    }

    pub fn client_rect(&self) -> (r: SurfaceLogicalRectangle)
        ensures
            r == self.transform_spec().client_rect,
    {
        self.transform.client_rect
    }

    /// Moves on to drawing the client and gives what the transformers draw
    /// below it: each transformer's `render_pre`, in the order they were
    /// pushed.
    pub fn render_pre(self) -> (r: (SurfaceTransformRun<'a, PreRendered>, Vec<Fill>))
        requires
            can_render_through(self.pipeline_spec()@, self.transform_spec()),
        ensures
            r.0.pipeline_spec() == self.pipeline_spec(),
            r.0.transform_spec() == self.transform_spec(),
            r.0.arrange_ctx_spec() == self.arrange_ctx_spec(),
            fills_view(r.1@) == pre_fills_through(
                self.pipeline_spec()@,
                self.transform_spec(),
                self.arrange_ctx_spec().focused,
            ),
    {
        let ts = &self.pipeline.transformers;
        let ghost tseq = ts@;
        let t = self.transform;
        let focused = self.arrange_ctx.focused;
        let n = ts.len();
        let mut fills: Vec<Fill> = Vec::new();
        let mut i: usize = 0;
        while i < n
            invariant
                n == tseq.len(),
                tseq == ts@,
                i <= n,
                can_render_through(tseq, t),
                fills_view(fills@) == pre_fills_through(tseq.take(i as int), t, focused),
            decreases n - i,
        {
            assert(tseq.take(i + 1).drop_last() =~= tseq.take(i as int));
            assert(tseq.take(i + 1).last() == tseq[i as int]);
            let mut more = ts[i].render_pre(t, focused);
            proof {
                lemma_fills_view_add(fills@, more@);
            }
            fills.append(&mut more);
            i = i + 1;
        }
        assert(tseq.take(n as int) =~= tseq);
        let run = SurfaceTransformRun {
            pipeline: self.pipeline,
            transform: self.transform,
            arrange_ctx: self.arrange_ctx,
            _phase: PhantomData,
        };
        (run, fills)
    }
}

impl<'a> SurfaceTransformRun<'a, PreRendered> {
    pub fn transform(&self) -> (t: WindowTransform)
        ensures
            t == self.transform_spec(),
    {
        self.transform
    }

    pub fn client_rect(&self) -> (r: SurfaceLogicalRectangle)
        ensures
            r == self.transform_spec().client_rect,
    {
        self.transform.client_rect
    }

    /// Finishes the run once the client is drawn and gives what the
    /// transformers draw above it: each transformer's `render_post`, the last
    /// pushed first.
    pub fn render_post(self) -> (r: (SurfaceTransformRun<'a, PostRendered>, Vec<Fill>))
        requires
            can_render_through(self.pipeline_spec()@, self.transform_spec()),
        ensures
            r.0.pipeline_spec() == self.pipeline_spec(),
            r.0.transform_spec() == self.transform_spec(),
            r.0.arrange_ctx_spec() == self.arrange_ctx_spec(),
            fills_view(r.1@) == post_fills_through(
                self.pipeline_spec()@,
                self.transform_spec(),
                self.arrange_ctx_spec().focused,
            ),
    {
        let ts = &self.pipeline.transformers;
        let ghost tseq = ts@;
        let t = self.transform;
        let focused = self.arrange_ctx.focused;
        let mut fills: Vec<Fill> = Vec::new();
        let mut i: usize = ts.len();
        assert(tseq.take(i as int) =~= tseq);
        while i > 0
            invariant
                tseq == ts@,
                i <= tseq.len(),
                can_render_through(tseq, t),
                fills_view(fills@) + post_fills_through(tseq.take(i as int), t, focused) == post_fills_through(
                    tseq,
                    t,
                    focused,
                ),
            decreases i,
        {
            assert(tseq.take(i as int).drop_last() =~= tseq.take(i - 1));
            assert(tseq.take(i as int).last() == tseq[i - 1]);
            let mut more = ts[i - 1].render_post(t, focused);
            proof {
                lemma_fills_view_add(fills@, more@);
                assert(fills_view(fills@) + fills_view(more@) + post_fills_through(tseq.take(i - 1), t, focused)
                    =~= fills_view(fills@) + (fills_view(more@) + post_fills_through(tseq.take(i - 1), t, focused)));
            }
            fills.append(&mut more);
            i = i - 1;
        }
        assert(tseq.take(0) =~= Seq::<SurfaceTransform>::empty());
        assert(fills_view(fills@) + Seq::empty() =~= fills_view(fills@));
        let run = SurfaceTransformRun {
            pipeline: self.pipeline,
            transform: self.transform,
            arrange_ctx: self.arrange_ctx,
            _phase: PhantomData,
        };
        (run, fills)
    }
}

impl<'a> SurfaceTransformRun<'a, PostRendered> {
    pub fn transform(&self) -> (t: WindowTransform)
        ensures
            t == self.transform_spec(),
    {
        self.transform
    }
}

} // verus!
