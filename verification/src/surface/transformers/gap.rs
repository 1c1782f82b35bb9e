use vstd::prelude::*;

use crate::geometry::{Point, Rectangle, Size};
use crate::config::color::RgbaColor;
use crate::surface::{fills_view, ArrangeContext, Fill, SurfaceTransformer, WindowTransform};

verus! {

/// `a - b`, held to the range of `i32`.
pub open spec fn saturating_sub_spec(a: int, b: int) -> int {
    if a - b > i32::MAX {
        i32::MAX as int
    } else if a - b < i32::MIN {
        i32::MIN as int
    } else {
        a - b
    }
}

/// `a - b`, held to the range of `i32`, as `i32::saturating_sub` computes it.
pub fn saturating_sub(a: i32, b: i32) -> (r: i32)
    ensures
        r == saturating_sub_spec(a as int, b as int),
{
    match a.checked_sub(b) {
        Some(r) => r,
        None => if b > 0 {
            i32::MIN
        } else {
            i32::MAX
        },
    }
}

/// Leaves a gap of `gap` around the client on every side.
#[derive(Debug, Clone, Copy)]
pub struct SurfaceGapTransformer {
    pub gap: i32,
}

impl SurfaceTransformer for SurfaceGapTransformer {
    open spec fn can_arrange(&self, input: WindowTransform) -> bool {
        &&& i32::MIN <= input.client_rect.loc.x + self.gap <= i32::MAX
        &&& i32::MIN <= input.client_rect.loc.y + self.gap <= i32::MAX
        &&& i32::MIN <= 2 * self.gap <= i32::MAX
    }

    /// The client rectangle moves in by `gap` and shrinks by twice `gap`
    /// (held to the range of `i32`); the client is asked to take that size.
    open spec fn arranged(&self, input: WindowTransform, ctx: ArrangeContext) -> WindowTransform {
        let rect = input.client_rect;
        let client = Rectangle {
            loc: Point { x: (rect.loc.x + self.gap) as i32, y: (rect.loc.y + self.gap) as i32 },
            size: Size {
                w: saturating_sub_spec(rect.size.w as int, 2 * self.gap) as i32,
                h: saturating_sub_spec(rect.size.h as int, 2 * self.gap) as i32,
            },
        };
        WindowTransform { client_rect: client, configure_size: client.size, ..input }
    }

    open spec fn can_render(&self, t: WindowTransform) -> bool {
        true
    }

    /// Nothing: a gap is left empty.
    open spec fn pre_fills(&self, t: WindowTransform, focused: bool) -> Seq<(RgbaColor, Seq<Rectangle>)> {
        Seq::empty()
    }

    /// Nothing: a gap is left empty.
    open spec fn post_fills(&self, t: WindowTransform, focused: bool) -> Seq<(RgbaColor, Seq<Rectangle>)> {
        Seq::empty()
    }

    fn arrange(&self, input: WindowTransform, _ctx: &ArrangeContext) -> (output: WindowTransform) {
        let g = self.gap;
        let rect = input.client_rect;
        let client_rect = Rectangle {
            loc: Point { x: rect.loc.x + g, y: rect.loc.y + g },
            size: Size { w: saturating_sub(rect.size.w, g * 2), h: saturating_sub(rect.size.h, g * 2) },
        };
        WindowTransform { client_rect, configure_size: client_rect.size, ..input }
    }

    fn render_pre(&self, t: WindowTransform, focused: bool) -> (fills: Vec<Fill>) {
        let fills: Vec<Fill> = Vec::new();
        assert(fills_view(fills@) =~= self.pre_fills(t, focused));
        fills
    }

    fn render_post(&self, t: WindowTransform, focused: bool) -> (fills: Vec<Fill>) {
        let fills: Vec<Fill> = Vec::new();
        assert(fills_view(fills@) =~= self.post_fills(t, focused));
        fills
    }
}


/// Where the client rectangle has room for a nonnegative gap on both sides,
/// the gap leaves exactly `gap` free around the new client rectangle, within
/// the old one; the outer rectangle stays.
pub proof fn lemma_gap_frame(gap: SurfaceGapTransformer, input: WindowTransform, ctx: ArrangeContext)
    requires
        gap.can_arrange(input),
        gap.gap >= 0,
        input.client_rect.size.w >= 2 * gap.gap,
        input.client_rect.size.h >= 2 * gap.gap,
    ensures
        ({
            let out = gap.arranged(input, ctx);
            let r = input.client_rect;
            let c = out.client_rect;
            &&& c.loc.x == r.loc.x + gap.gap
            &&& c.loc.y == r.loc.y + gap.gap
            &&& c.loc.x + c.size.w == r.loc.x + r.size.w - gap.gap
            &&& c.loc.y + c.size.h == r.loc.y + r.size.h - gap.gap
            &&& out.configure_size == c.size
            &&& out.outer_rect == input.outer_rect
        }),
{
}

} // verus!
