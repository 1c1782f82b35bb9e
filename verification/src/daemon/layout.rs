use vstd::prelude::*;

use crate::geometry::{
    centered_geometry, centered_geometry_spec, Point, Rectangle, Size, SurfaceGeometry, SurfaceLogicalSize,
};
use crate::layout::master_stack::lemma_master_stack_slot_bounded;
use crate::layout::{Layout, LayoutContext, LayoutWindow, MasterStackLayout};
use crate::server::state::WindowStack;
use crate::server::ServerState;
use crate::surface::pipeline::{
    arranged_through, can_arrange_through, client_within, lemma_arrange_bounded, lemma_total_inset_grows, magnitude,
    total_inset,
};
use crate::surface::{ArrangeContext, SurfaceId, SurfaceTransform, SurfaceTransformPipeline, Window, WindowTransform};

verus! {

/// Places the windows on the output.
pub trait WindowArranger {
    fn arrange_windows(&mut self);
}

/// How many of the windows tile: those without a parent surface.
pub open spec fn count_tiled(has_parent: Seq<bool>) -> nat
    decreases has_parent.len(),
{
    if has_parent.len() == 0 {
        0
    } else {
        count_tiled(has_parent.drop_last()) + if has_parent.last() {
            0nat
        } else {
            1nat
        }
    }
}

/// Counting the tiled windows one window further.
pub proof fn lemma_count_tiled_step(has_parent: Seq<bool>, i: int)
    requires
        0 <= i < has_parent.len(),
    ensures
        count_tiled(has_parent.take(i + 1)) == count_tiled(has_parent.take(i)) + if has_parent[i] {
            0nat
        } else {
            1nat
        },
{
    assert(has_parent.take(i + 1).drop_last() =~= has_parent.take(i));
}

/// There are no more tiled windows among the first `i` than among the first
/// `j`, for `i <= j`.
pub proof fn lemma_count_tiled_monotone(has_parent: Seq<bool>, i: int, j: int)
    requires
        0 <= i <= j <= has_parent.len(),
    ensures
        count_tiled(has_parent.take(i)) <= count_tiled(has_parent.take(j)),
        count_tiled(has_parent.take(j)) <= j,
    decreases j,
{
    if j > 0 {
        lemma_count_tiled_step(has_parent, j - 1);
        if i < j {
            lemma_count_tiled_monotone(has_parent, i, j - 1);
        } else {
            lemma_count_tiled_monotone(has_parent, j - 1, j - 1);
        }
    } else {
        assert(has_parent.take(0).len() == 0);
    }
}

/// The rectangle of an output of `output` size at the origin.
pub open spec fn output_rect(output: Size) -> Rectangle {
    Rectangle { loc: Point { x: 0, y: 0 }, size: output }
}

/// What the transformers know of a tiled window.
pub open spec fn tiled_ctx(focused: bool, output: Size) -> ArrangeContext {
    ArrangeContext { focused, fullscreen: false, floating: false, output_rect: output_rect(output) }
}

/// The box, 1024 on each side, through which the pipeline's insets are
/// measured.
pub open spec fn probe_geometry() -> SurfaceGeometry {
    SurfaceGeometry { position: Point { x: 0, y: 0 }, size: Size { w: 1024, h: 1024 } }
}

/// What the transformers know of the probe box.
pub open spec fn probe_ctx() -> ArrangeContext {
    ArrangeContext {
        focused: false,
        fullscreen: false,
        floating: true,
        output_rect: Rectangle { loc: Point { x: 0, y: 0 }, size: Size { w: 1024, h: 1024 } },
    }
}

/// The client rectangle that the pipeline leaves of the probe box.
pub open spec fn probe_client(pipeline: Seq<SurfaceTransform>) -> Rectangle {
    arranged_through(pipeline, WindowTransform::spec_from_geometry(probe_geometry()), probe_ctx()).client_rect
}

/// How much wider a floating window's outer box is than its content.
pub open spec fn inset_w(pipeline: Seq<SurfaceTransform>) -> int {
    1024 - probe_client(pipeline).size.w
}

/// How much higher a floating window's outer box is than its content.
pub open spec fn inset_h(pipeline: Seq<SurfaceTransform>) -> int {
    1024 - probe_client(pipeline).size.h
}

/// The size of the content of window `i`: what its client committed, or
/// else the size it has.
pub open spec fn content_size(m: WindowStack, content_sizes: Seq<Option<Size>>, i: int) -> Size {
    match content_sizes[i] {
        Some(s) => s,
        None => m.windows[i].geometry.size,
    }
}

/// The outer size of floating window `i`: its content with the pipeline's
/// insets around it.
pub open spec fn floating_outer(
    pipeline: Seq<SurfaceTransform>,
    m: WindowStack,
    content_sizes: Seq<Option<Size>>,
    i: int,
) -> Size {
    let c = content_size(m, content_sizes, i);
    Size { w: (c.w + inset_w(pipeline)) as i32, h: (c.h + inset_h(pipeline)) as i32 }
}

/// Whether the surface of window `i` is focused.
pub open spec fn focused_at(m: WindowStack, i: int) -> bool {
    m.focused == Some(m.windows[i].surface)
}

/// Where window `i` goes: a tiled one to its layout slot, a floating one to
/// the middle of the output, with its content size and the insets.
pub open spec fn arranged_geometry<L: Layout>(
    layout: L,
    pipeline: Seq<SurfaceTransform>,
    output: Size,
    m: WindowStack,
    has_parent: Seq<bool>,
    content_sizes: Seq<Option<Size>>,
    i: int,
) -> SurfaceGeometry {
    if has_parent[i] {
        centered_geometry_spec(output, floating_outer(pipeline, m, content_sizes, i))
    } else {
        layout.slot(output, count_tiled(has_parent), count_tiled(has_parent.take(i)) as int)
    }
}

/// `a`, or 1 where `a` is smaller.
pub open spec fn at_least_one(a: i32) -> i32 {
    if a < 1 {
        1
    } else {
        a
    }
}

/// The size that tiled window `i` is asked to take: what the pipeline makes
/// of its slot, at least 1 by 1.
pub open spec fn configure_size_at<L: Layout>(
    layout: L,
    pipeline: Seq<SurfaceTransform>,
    output: Size,
    m: WindowStack,
    has_parent: Seq<bool>,
    i: int,
) -> Size {
    let geometry = layout.slot(output, count_tiled(has_parent), count_tiled(has_parent.take(i)) as int);
    let t = arranged_through(
        pipeline,
        WindowTransform::spec_from_geometry(geometry),
        tiled_ctx(focused_at(m, i), output),
    );
    Size { w: at_least_one(t.configure_size.w), h: at_least_one(t.configure_size.h) }
}

/// The sizes that the tiled windows among the first `n` are asked to take,
/// with their surfaces, in order.
pub open spec fn configures<L: Layout>(
    layout: L,
    pipeline: Seq<SurfaceTransform>,
    output: Size,
    m: WindowStack,
    has_parent: Seq<bool>,
    n: int,
) -> Seq<(SurfaceId, Size)>
    decreases n,
{
    if n <= 0 {
        Seq::empty()
    } else {
        let rest = configures(layout, pipeline, output, m, has_parent, n - 1);
        if has_parent[n - 1] {
            rest
        } else {
            rest.push(
                (m.windows[n - 1].surface, configure_size_at(layout, pipeline, output, m, has_parent, n - 1)),
            )
        }
    }
}

/// The pending size that window `i` is to have once the windows are
/// arranged: a tiled window's configure size, none for a floating one (it
/// picks its own size).
pub open spec fn wanted_pending<L: Layout>(
    layout: L,
    pipeline: Seq<SurfaceTransform>,
    output: Size,
    m: WindowStack,
    has_parent: Seq<bool>,
    i: int,
) -> Option<Size> {
    if has_parent[i] {
        None
    } else {
        Some(configure_size_at(layout, pipeline, output, m, has_parent, i))
    }
}

/// A window's pending size once it becomes `wanted`, and whether the window
/// is sent a configure: exactly where the pending size changes.
pub open spec fn pending_update(pending: Option<Size>, wanted: Option<Size>) -> (Option<Size>, bool) {
    (wanted, pending != wanted)
}

/// A window is sent a configure exactly when its pending size changes, and
/// its pending size then is the one it is to have; a floating window has no
/// size imposed and a tiled one is asked for at least 1 by 1.
pub proof fn lemma_configure_on_change<L: Layout>(
    layout: L,
    pipeline: Seq<SurfaceTransform>,
    output: Size,
    m: WindowStack,
    has_parent: Seq<bool>,
    i: int,
    pending: Option<Size>,
)
    requires
        0 <= i < has_parent.len(),
    ensures
        ({
            let wanted = wanted_pending(layout, pipeline, output, m, has_parent, i);
            let (next, sent) = pending_update(pending, wanted);
            &&& next == wanted
            &&& sent <==> pending != next
            &&& has_parent[i] ==> next is None
            &&& !has_parent[i] ==> (next matches Some(s) && s.w >= 1 && s.h >= 1)
        }),
{
}

/// The sizes of `configures` come one per tiled window, in order: the
/// entry of tiled window `i` stands at the number of tiled windows before it.
pub proof fn lemma_configures_at<L: Layout>(
    layout: L,
    pipeline: Seq<SurfaceTransform>,
    output: Size,
    m: WindowStack,
    has_parent: Seq<bool>,
    n: int,
    i: int,
)
    requires
        0 <= n <= has_parent.len(),
    ensures
        configures(layout, pipeline, output, m, has_parent, n).len() == count_tiled(has_parent.take(n)),
        0 <= i < n && !has_parent[i] ==> configures(layout, pipeline, output, m, has_parent, n)[count_tiled(
            has_parent.take(i),
        ) as int] == (m.windows[i].surface, configure_size_at(layout, pipeline, output, m, has_parent, i)),
    decreases n,
{
    if n == 0 {
        assert(has_parent.take(0) =~= Seq::<bool>::empty());
    } else {
        lemma_count_tiled_step(has_parent, n - 1);
        lemma_configures_at(layout, pipeline, output, m, has_parent, n - 1, i);
        if 0 <= i < n - 1 && !has_parent[i] {
            lemma_count_tiled_step(has_parent, i);
            lemma_count_tiled_monotone(has_parent, i + 1, n - 1);
        }
    }
}

fn same_pending(a: Option<Size>, b: Option<Size>) -> (r: bool)
    ensures
        r == (a == b),
{
    match (a, b) {
        (Some(x), Some(y)) => x.w == y.w && x.h == y.h,
        (None, None) => true,
        _ => false,
    }
}

/// Whether the arrangement stays within machine integers: the layout can
/// place the tiled windows, the pipeline can shape each of them and the probe
/// box, and each floating window's outer box and its centering fit in `i32`.
pub open spec fn arrange_windows_requires<L: Layout>(
    layout: L,
    pipeline: Seq<SurfaceTransform>,
    output: Size,
    m: WindowStack,
    has_parent: Seq<bool>,
    content_sizes: Seq<Option<Size>>,
) -> bool {
    &&& has_parent.len() == m.windows.len()
    &&& content_sizes.len() == m.windows.len()
    &&& layout.can_arrange(output, count_tiled(has_parent))
    &&& forall|i: int|
        0 <= i < m.windows.len() && !has_parent[i] ==> can_arrange_through(
            pipeline,
            WindowTransform::spec_from_geometry(
                #[trigger] layout.slot(output, count_tiled(has_parent), count_tiled(has_parent.take(i)) as int),
            ),
            tiled_ctx(focused_at(m, i), output),
        )
    &&& forall|i: int|
        0 <= i < m.windows.len() && #[trigger] has_parent[i] ==> {
            &&& can_arrange_through(pipeline, WindowTransform::spec_from_geometry(probe_geometry()), probe_ctx())
            &&& i32::MIN <= inset_w(pipeline) <= i32::MAX
            &&& i32::MIN <= inset_h(pipeline) <= i32::MAX
            &&& i32::MIN <= content_size(m, content_sizes, i).w + inset_w(pipeline) <= i32::MAX
            &&& i32::MIN <= content_size(m, content_sizes, i).h + inset_h(pipeline) <= i32::MAX
            &&& i32::MIN <= output.w - floating_outer(pipeline, m, content_sizes, i).w <= i32::MAX
            &&& i32::MIN <= output.h - floating_outer(pipeline, m, content_sizes, i).h <= i32::MAX
        }
}

/// Bounds on the arrangement that no real output or window leaves: an
/// output of nonnegative size within 2^28 on which the master column's width
/// can be computed, transformers that cut at most 2^28 off a window in all,
/// content sizes within 2^28 and one flag and content size per window.
pub open spec fn arrangement_bounded(
    layout: MasterStackLayout,
    pipeline: Seq<SurfaceTransform>,
    output: Size,
    m: WindowStack,
    has_parent: Seq<bool>,
    content_sizes: Seq<Option<Size>>,
) -> bool {
    &&& has_parent.len() == m.windows.len()
    &&& content_sizes.len() == m.windows.len()
    &&& m.windows.len() <= i32::MAX
    &&& 0 <= output.w <= 0x1000_0000
    &&& 0 <= output.h <= 0x1000_0000
    &&& i32::MIN <= output.w * layout.master_percent <= i32::MAX
    &&& i32::MIN <= output.w - layout.master_width(output.w as int) <= i32::MAX
    &&& total_inset(pipeline) <= 0x1000_0000
    &&& forall|i: int|
        0 <= i < m.windows.len() ==> magnitude(#[trigger] content_size(m, content_sizes, i).w as int) <= 0x1000_0000
            && magnitude(content_size(m, content_sizes, i).h as int) <= 0x1000_0000
}

/// Within these bounds the arrangement stays within machine integers.
pub proof fn lemma_bounded_arrangement_fits(
    layout: MasterStackLayout,
    pipeline: Seq<SurfaceTransform>,
    output: Size,
    m: WindowStack,
    has_parent: Seq<bool>,
    content_sizes: Seq<Option<Size>>,
)
    requires
        arrangement_bounded(layout, pipeline, output, m, has_parent, content_sizes),
    ensures
        arrange_windows_requires(layout, pipeline, output, m, has_parent, content_sizes),
{
    let n = m.windows.len() as int;
    let count = count_tiled(has_parent);
    lemma_count_tiled_monotone(has_parent, n, n);
    assert(has_parent.take(n) =~= has_parent);
    assert(layout.can_arrange(output, count));
    assert forall|i: int|
        0 <= i < n && !has_parent[i] implies can_arrange_through(
        pipeline,
        WindowTransform::spec_from_geometry(#[trigger] layout.slot(output, count, count_tiled(has_parent.take(i)) as int)),
        tiled_ctx(focused_at(m, i), output),
    ) by {
        lemma_count_tiled_step(has_parent, i);
        lemma_count_tiled_monotone(has_parent, i + 1, n);
        let index = count_tiled(has_parent.take(i)) as int;
        lemma_master_stack_slot_bounded(layout, output, count as int, index);
        let input = WindowTransform::spec_from_geometry(layout.slot(output, count, index));
        assert(client_within(input, 0x2000_0000));
        lemma_arrange_bounded(pipeline, input, tiled_ctx(focused_at(m, i), output), 0x2000_0000);
    }
    let probe = WindowTransform::spec_from_geometry(probe_geometry());
    assert(client_within(probe, 1024));
    lemma_arrange_bounded(pipeline, probe, probe_ctx(), 1024);
    assert(client_within(arranged_through(pipeline, probe, probe_ctx()), 1024 + total_inset(pipeline)));
    assert forall|i: int|
        0 <= i < n && #[trigger] has_parent[i] implies {
        &&& can_arrange_through(pipeline, WindowTransform::spec_from_geometry(probe_geometry()), probe_ctx())
        &&& i32::MIN <= inset_w(pipeline) <= i32::MAX
        &&& i32::MIN <= inset_h(pipeline) <= i32::MAX
        &&& i32::MIN <= content_size(m, content_sizes, i).w + inset_w(pipeline) <= i32::MAX
        &&& i32::MIN <= content_size(m, content_sizes, i).h + inset_h(pipeline) <= i32::MAX
        &&& i32::MIN <= output.w - floating_outer(pipeline, m, content_sizes, i).w <= i32::MAX
        &&& i32::MIN <= output.h - floating_outer(pipeline, m, content_sizes, i).h <= i32::MAX
    } by {
        let c = content_size(m, content_sizes, i);
        assert(magnitude(c.w as int) <= 0x1000_0000 && magnitude(c.h as int) <= 0x1000_0000);
    }
}

impl ServerState {
    /// Places the windows on an output of `output_size`. The windows without
    /// a parent surface (`has_parent`, one flag per window) tile: `layout`
    /// places them, in stacking order, and each is asked to take what the
    /// pipeline leaves of its place, at least 1 by 1 (the result lists these
    /// sizes with their surfaces, in order). The others float: each keeps the
    /// size of its content (`content_sizes`, or else its own size) with the
    /// pipeline's insets around it, centered on the output. The layout is then
    /// clean.
    pub fn arrange_windows<L: Layout>(
        &mut self,
        layout: &mut L,
        pipeline: &SurfaceTransformPipeline,
        output_size: SurfaceLogicalSize,
        has_parent: &Vec<bool>,
        content_sizes: &Vec<Option<Size>>,
    ) -> (configured: Vec<(SurfaceId, Size)>)
        requires
            arrange_windows_requires(
                *old(layout),
                pipeline@,
                output_size,
                old(self)@,
                has_parent@,
                content_sizes@,
            ),
        ensures
            final(self)@.windows.len() == old(self)@.windows.len(),
            forall|i: int|
                0 <= i < final(self)@.windows.len() ==> #[trigger] final(self)@.windows[i] == (Window {
                    geometry: arranged_geometry(
                        *old(layout),
                        pipeline@,
                        output_size,
                        old(self)@,
                        has_parent@,
                        content_sizes@,
                        i,
                    ),
                    ..old(self)@.windows[i]
                }),
            final(self)@.focused == old(self)@.focused,
            !final(self)@.layout_dirty,
            configured@ == configures(
                *old(layout),
                pipeline@,
                output_size,
                old(self)@,
                has_parent@,
                old(self)@.windows.len() as int,
            ),
    {
        let ghost m = self@;
        let ghost lay = *layout;
        let ghost hp = has_parent@;
        let n = self.windows.len();

        // The tiled windows, in stacking order, as the layout sees them.
        let mut layout_windows: Vec<LayoutWindow> = Vec::new();
        let mut i: usize = 0;
        while i < n
            invariant
                n == m.windows.len(),
                self@ == m,
                hp.len() == n,
                hp == has_parent@,
                i <= n,
                layout_windows@.len() == count_tiled(hp.take(i as int)),
                forall|j: int|
                    0 <= j < i && !hp[j] ==> (#[trigger] layout_windows@[count_tiled(hp.take(j)) as int]).focused
                        == focused_at(m, j),
            decreases n - i,
        {
            proof {
                lemma_count_tiled_step(hp, i as int);
            }
            if !has_parent[i] {
                let window = self.windows[i];
                let focused = self.is_focused(window.surface);
                layout_windows.push(LayoutWindow { geometry: window.geometry, focused });
                proof {
                    assert forall|j: int|
                        0 <= j < i + 1 && !hp[j] implies (#[trigger] layout_windows@[count_tiled(
                            hp.take(j),
                        ) as int]).focused == focused_at(m, j) by {
                        if j < i {
                            lemma_count_tiled_step(hp, j);
                            lemma_count_tiled_monotone(hp, j + 1, i as int);
                        }
                    }
                }
            }
            i = i + 1;
        }
        assert(hp.take(n as int) =~= hp);
        let ghost lw = layout_windows@;

        let mut ctx = LayoutContext { output_size, windows: layout_windows };
        layout.arrange(&mut ctx);
        proof {
            assert forall|j: int|
                0 <= j < n && !hp[j] implies (#[trigger] ctx.windows@[count_tiled(hp.take(j)) as int]) == (
            LayoutWindow {
                geometry: lay.slot(output_size, count_tiled(hp), count_tiled(hp.take(j)) as int),
                focused: focused_at(m, j),
            }) by {
                lemma_count_tiled_step(hp, j);
                lemma_count_tiled_monotone(hp, j + 1, n as int);
                assert(lw[count_tiled(hp.take(j)) as int].focused == focused_at(m, j));
            }
        }

        let output_rect = Rectangle { loc: Point { x: 0, y: 0 }, size: output_size };
        let mut configured: Vec<(SurfaceId, Size)> = Vec::new();
        let mut i: usize = 0;
        let mut k: usize = 0;
        while i < n
            invariant
                n == m.windows.len(),
                hp.len() == n,
                hp == has_parent@,
                content_sizes@.len() == n,
                hp.take(n as int) == hp,
                i <= n,
                k == count_tiled(hp.take(i as int)),
                ctx.windows@.len() == count_tiled(hp),
                ctx.output_size == output_size,
                output_rect == crate::daemon::layout::output_rect(output_size),
                forall|j: int|
                    0 <= j < n && !hp[j] ==> (#[trigger] ctx.windows@[count_tiled(hp.take(j)) as int]) == (
                    LayoutWindow {
                        geometry: lay.slot(output_size, count_tiled(hp), count_tiled(hp.take(j)) as int),
                        focused: focused_at(m, j),
                    }),
                arrange_windows_requires(lay, pipeline@, output_size, m, hp, content_sizes@),
                self@.windows.len() == n,
                self@.focused == m.focused,
                forall|j: int| i <= j < n ==> #[trigger] self@.windows[j] == m.windows[j],
                forall|j: int|
                    0 <= j < i ==> #[trigger] self@.windows[j] == (Window {
                        geometry: arranged_geometry(lay, pipeline@, output_size, m, hp, content_sizes@, j),
                        ..m.windows[j]
                    }),
                configured@ == configures(lay, pipeline@, output_size, m, hp, i as int),
            decreases n - i,
        {
            proof {
                lemma_count_tiled_step(hp, i as int);
                lemma_count_tiled_monotone(hp, i as int + 1, n as int);
            }
            let window = self.windows[i];
            if !has_parent[i] {
                let layout_window = ctx.windows[k];
                let outer_geometry = layout_window.geometry;
                let arrange_ctx = ArrangeContext {
                    focused: layout_window.focused,
                    fullscreen: false,
                    floating: false,
                    output_rect,
                };
                let run = pipeline.begin(outer_geometry, arrange_ctx).arrange();
                let configure_size = run.configure_size();
                let width = if configure_size.w < 1 {
                    1
                } else {
                    configure_size.w
                };
                let height = if configure_size.h < 1 {
                    1
                } else {
                    configure_size.h
                };
                self.windows.set(i, Window { geometry: outer_geometry, ..window });
                configured.push((window.surface, Size { w: width, h: height }));
                k = k + 1;
            } else {
                let content = match content_sizes[i] {
                    Some(s) => s,
                    None => window.geometry.size,
                };
                let probe = SurfaceGeometry { position: Point { x: 0, y: 0 }, size: Size { w: 1024, h: 1024 } };
                let probe_ctx = ArrangeContext {
                    focused: false,
                    fullscreen: false,
                    floating: true,
                    output_rect: Rectangle { loc: Point { x: 0, y: 0 }, size: Size { w: 1024, h: 1024 } },
                };
                let run = pipeline.begin(probe, probe_ctx).arrange();
                let client = run.client_rect();
                let inset_w = 1024 - client.size.w;
                let inset_h = 1024 - client.size.h;
                let outer = Size { w: content.w + inset_w, h: content.h + inset_h };
                let geometry = centered_geometry(output_size, outer);
                self.windows.set(i, Window { geometry, ..window });
            }
            i = i + 1;
        }
        self.layout_dirty = false;
        configured
    }

    /// Arranges the windows as `arrange_windows` does and says, for each
    /// window in stacking order, what its pending size becomes and whether it
    /// is sent a configure: a tiled window is to take its configure size, a
    /// floating one no imposed size, and a configure goes exactly to the
    /// windows whose pending size (`pending`, one per window) changes.
    pub fn arrange_and_configure<L: Layout>(
        &mut self,
        layout: &mut L,
        pipeline: &SurfaceTransformPipeline,
        output_size: SurfaceLogicalSize,
        has_parent: &Vec<bool>,
        content_sizes: &Vec<Option<Size>>,
        pending: &Vec<Option<Size>>,
    ) -> (updates: Vec<(Option<Size>, bool)>)
        requires
            arrange_windows_requires(
                *old(layout),
                pipeline@,
                output_size,
                old(self)@,
                has_parent@,
                content_sizes@,
            ),
            pending@.len() == old(self)@.windows.len(),
        ensures
            final(self)@.windows.len() == old(self)@.windows.len(),
            forall|i: int|
                0 <= i < final(self)@.windows.len() ==> #[trigger] final(self)@.windows[i] == (Window {
                    geometry: arranged_geometry(
                        *old(layout),
                        pipeline@,
                        output_size,
                        old(self)@,
                        has_parent@,
                        content_sizes@,
                        i,
                    ),
                    ..old(self)@.windows[i]
                }),
            final(self)@.focused == old(self)@.focused,
            !final(self)@.layout_dirty,
            updates@.len() == old(self)@.windows.len(),
            forall|i: int|
                0 <= i < updates@.len() ==> (#[trigger] updates@[i]).0 == wanted_pending(
                    *old(layout),
                    pipeline@,
                    output_size,
                    old(self)@,
                    has_parent@,
                    i,
                ),
            forall|i: int| 0 <= i < updates@.len() ==> (#[trigger] updates@[i]).1 == (pending@[i] != updates@[i].0),
            forall|i: int|
                0 <= i < updates@.len() ==> #[trigger] updates@[i] == pending_update(
                    pending@[i],
                    wanted_pending(*old(layout), pipeline@, output_size, old(self)@, has_parent@, i),
                ),
    {
        let ghost m = self@;
        let ghost lay = *layout;
        let ghost hp = has_parent@;
        let n = self.windows.len();
        let configured = self.arrange_windows(layout, pipeline, output_size, has_parent, content_sizes);
        proof {
            lemma_configures_at(lay, pipeline@, output_size, m, hp, n as int, 0);
        }
        let mut updates: Vec<(Option<Size>, bool)> = Vec::new();
        let mut i: usize = 0;
        let mut k: usize = 0;
        while i < n
            invariant
                n == m.windows.len(),
                hp == has_parent@,
                hp.len() == n,
                pending@.len() == n,
                i <= n,
                k == count_tiled(hp.take(i as int)),
                configured@ == configures(lay, pipeline@, output_size, m, hp, n as int),
                configured@.len() == count_tiled(hp.take(n as int)),
                updates@.len() == i,
                forall|j: int|
                    0 <= j < i ==> #[trigger] updates@[j] == pending_update(
                        pending@[j],
                        wanted_pending(lay, pipeline@, output_size, m, hp, j),
                    ),
            decreases n - i,
        {
            proof {
                lemma_count_tiled_step(hp, i as int);
                lemma_count_tiled_monotone(hp, i as int + 1, n as int);
                lemma_configures_at(lay, pipeline@, output_size, m, hp, n as int, i as int);
            }
            let wanted = if has_parent[i] {
                None
            } else {
                let size = configured[k].1;
                k = k + 1;
                Some(size)
            };
            let changed = !same_pending(pending[i], wanted);
            updates.push((wanted, changed));
            i = i + 1;
        }
        updates
    }

    /// Whether the arrangement is within the bounds of
    /// `arrangement_bounded`, where `arrange_windows` and
    /// `arrange_and_configure` can run with `layout`.
    pub fn arrangement_fits(
        &self,
        layout: &MasterStackLayout,
        pipeline: &SurfaceTransformPipeline,
        output_size: SurfaceLogicalSize,
        has_parent: &Vec<bool>,
        content_sizes: &Vec<Option<Size>>,
    ) -> (b: bool)
        ensures
            b == arrangement_bounded(*layout, pipeline@, output_size, self@, has_parent@, content_sizes@),
            b ==> arrange_windows_requires(*layout, pipeline@, output_size, self@, has_parent@, content_sizes@),
    {
        let n = self.windows.len();
        if has_parent.len() != n || content_sizes.len() != n || n > 0x7fff_ffff {
            return false;
        }
        if output_size.w < 0 || output_size.w > 0x1000_0000 || output_size.h < 0 || output_size.h > 0x1000_0000 {
            return false;
        }
        let ow = output_size.w as i64;
        let p = layout.master_percent as i64;
        assert(-0x1000_0000_0000_0000 <= ow * p <= 0x1000_0000_0000_0000) by (nonlinear_arith)
            requires
                0 <= ow <= 0x1000_0000,
                i32::MIN <= p <= i32::MAX,
        ;
        let span = ow * p;
        if span < i32::MIN as i64 || span > i32::MAX as i64 {
            return false;
        }
        let master_w = span / 100;
        let rest = output_size.w as i64 - master_w;
        if rest < i32::MIN as i64 || rest > i32::MAX as i64 {
            return false;
        }
        assert(master_w == layout.master_width(output_size.w as int));
        let ts = pipeline.transformers();
        let ghost tseq = ts@;
        let mut total: i64 = 0;
        let mut i: usize = 0;
        while i < ts.len()
            invariant
                tseq == ts@,
                tseq == pipeline@,
                i <= tseq.len(),
                total == total_inset(tseq.take(i as int)),
                0 <= total <= 0x1000_0000,
            decreases tseq.len() - i,
        {
            assert(tseq.take(i + 1).drop_last() =~= tseq.take(i as int));
            let width: i32 = match &ts[i] {
                SurfaceTransform::Border(b) => b.width,
                SurfaceTransform::Gap(g) => g.gap,
            };
            let mag: i64 = if width < 0 {
                0 - (width as i64)
            } else {
                width as i64
            };
            let cut: i64 = 2 * mag;
            assert(tseq.take(i + 1).last() == tseq[i as int]);
            assert(cut == match tseq[i as int] {
                SurfaceTransform::Border(b) => 2 * magnitude(b.width as int),
                SurfaceTransform::Gap(g) => 2 * magnitude(g.gap as int),
            });
            assert(total_inset(tseq.take(i + 1)) == total + cut);
            if total + cut > 0x1000_0000 {
                proof {
                    lemma_total_inset_grows(tseq, i as int + 1);
                }
                return false;
            }
            total = total + cut;
            i = i + 1;
        }
        assert(tseq.take(tseq.len() as int) =~= tseq);
        let ghost m = self@;
        let mut j: usize = 0;
        while j < n
            invariant
                n == m.windows.len(),
                m == self@,
                content_sizes@.len() == n,
                j <= n,
                forall|k: int|
                    0 <= k < j ==> magnitude(#[trigger] content_size(m, content_sizes@, k).w as int) <= 0x1000_0000
                        && magnitude(content_size(m, content_sizes@, k).h as int) <= 0x1000_0000,
            decreases n - j,
        {
            let size = match content_sizes[j] {
                Some(s) => s,
                None => self.windows[j].geometry.size,
            };
            let w = size.w as i64;
            let h = size.h as i64;
            if w < -0x1000_0000 || w > 0x1000_0000 || h < -0x1000_0000 || h > 0x1000_0000 {
                assert(!(magnitude(content_size(m, content_sizes@, j as int).w as int) <= 0x1000_0000
                    && magnitude(content_size(m, content_sizes@, j as int).h as int) <= 0x1000_0000));
                return false;
            }
            j = j + 1;
        }
        proof {
            lemma_bounded_arrangement_fits(*layout, pipeline@, output_size, self@, has_parent@, content_sizes@);
        }
        true
    }
}

} // verus!
