pub mod pipeline;
pub mod transformers;
pub mod window;

pub use pipeline::{Arranged, PostRendered, PreRendered, SurfaceTransformPipeline, SurfaceTransformRun, Unarranged};
pub use transformers::border::{border_rects, SurfaceBorderTransformer};
pub use transformers::gap::SurfaceGapTransformer;
pub use window::Window;

use vstd::prelude::*;

use crate::config::color::RgbaColor;
use crate::geometry::{Rectangle, SurfaceGeometry, SurfaceLogicalRectangle, SurfaceLogicalSize, SurfacePhysicalRectangle};

verus! {

/// Stands for a Wayland surface: the number by which the library finds a
/// window again. The caller gives each surface a number of its own.
pub type SurfaceId = u64;

/// The rectangles of a window as the transformers shape it: the outer
/// rectangle that the layout gave, the rectangle where the client draws and
/// the size that the client is asked to take.
#[derive(Debug, Clone, Copy, PartialEq, Eq, Structural)]
pub struct WindowTransform {
    pub outer_rect: SurfaceLogicalRectangle,
    pub client_rect: SurfaceLogicalRectangle,
    pub configure_size: SurfaceLogicalSize,
}

impl WindowTransform {
    /// Before any transformer: the client fills the whole outer rectangle.
    pub open spec fn spec_from_geometry(geometry: SurfaceGeometry) -> WindowTransform {
        let rect = Rectangle { loc: geometry.position, size: geometry.size };
        WindowTransform { outer_rect: rect, client_rect: rect, configure_size: geometry.size }
    }

    pub fn from_geometry(geometry: SurfaceGeometry) -> (t: WindowTransform)
        ensures
            t == Self::spec_from_geometry(geometry),
    {
        let rect = Rectangle { loc: geometry.position, size: geometry.size };
        WindowTransform { outer_rect: rect, client_rect: rect, configure_size: geometry.size }
    }
}

/// What a transformer knows of the window it shapes.
#[derive(Debug, Clone, Copy, PartialEq, Eq, Structural)]
pub struct ArrangeContext {
    pub focused: bool,
    pub fullscreen: bool,
    pub floating: bool,
    pub output_rect: SurfaceLogicalRectangle,
}

/// A solid fill as a drawing step gives it: a color and the rectangles it
/// covers.
pub type Fill = (RgbaColor, Vec<SurfacePhysicalRectangle>);

/// What `fills` stand for: each fill's color and its rectangles.
pub open spec fn fills_view(fills: Seq<Fill>) -> Seq<(RgbaColor, Seq<Rectangle>)> {
    Seq::new(fills.len(), |i: int| (fills[i].0, fills[i].1@))
}

/// A step that reshapes a window's rectangles, such as a border or a gap,
/// and draws around the window: below the client before it is drawn and
/// above it after.
pub trait SurfaceTransformer {
    /// Whether `arrange` stays within machine integers on `input`.
    spec fn can_arrange(&self, input: WindowTransform) -> bool;

    /// What `arrange` gives back.
    spec fn arranged(&self, input: WindowTransform, ctx: ArrangeContext) -> WindowTransform;

    /// Whether `render_pre` and `render_post` stay within machine integers on
    /// a window shaped to `t`.
    spec fn can_render(&self, t: WindowTransform) -> bool;

    /// What `render_pre` draws below the client of a window shaped to `t`.
    spec fn pre_fills(&self, t: WindowTransform, focused: bool) -> Seq<(RgbaColor, Seq<Rectangle>)>;

    /// What `render_post` draws above the client of a window shaped to `t`.
    spec fn post_fills(&self, t: WindowTransform, focused: bool) -> Seq<(RgbaColor, Seq<Rectangle>)>;

    fn arrange(&self, input: WindowTransform, ctx: &ArrangeContext) -> (output: WindowTransform)
        requires
            self.can_arrange(input),
        ensures
            output == self.arranged(input, *ctx),
    ;

    fn render_pre(&self, t: WindowTransform, focused: bool) -> (fills: Vec<Fill>)
        requires
            self.can_render(t),
        ensures
            fills_view(fills@) == self.pre_fills(t, focused),
    ;

    fn render_post(&self, t: WindowTransform, focused: bool) -> (fills: Vec<Fill>)
        requires
            self.can_render(t),
        ensures
            fills_view(fills@) == self.post_fills(t, focused),
    ;
}

/// One of the transformers that a pipeline can hold.
#[derive(Debug, Clone)]
pub enum SurfaceTransform {
    Border(SurfaceBorderTransformer),
    Gap(SurfaceGapTransformer),
}

impl SurfaceTransformer for SurfaceTransform {
    open spec fn can_arrange(&self, input: WindowTransform) -> bool {
        match self {
            SurfaceTransform::Border(b) => b.can_arrange(input),
            SurfaceTransform::Gap(g) => g.can_arrange(input),
        }
    }

    open spec fn arranged(&self, input: WindowTransform, ctx: ArrangeContext) -> WindowTransform {
        match self {
            SurfaceTransform::Border(b) => b.arranged(input, ctx),
            SurfaceTransform::Gap(g) => g.arranged(input, ctx),
        }
    }

    open spec fn can_render(&self, t: WindowTransform) -> bool {
        match self {
            SurfaceTransform::Border(b) => b.can_render(t),
            SurfaceTransform::Gap(g) => g.can_render(t),
        }
    }

    open spec fn pre_fills(&self, t: WindowTransform, focused: bool) -> Seq<(RgbaColor, Seq<Rectangle>)> {
        match self {
            SurfaceTransform::Border(b) => b.pre_fills(t, focused),
            SurfaceTransform::Gap(g) => g.pre_fills(t, focused),
        }
    }

    open spec fn post_fills(&self, t: WindowTransform, focused: bool) -> Seq<(RgbaColor, Seq<Rectangle>)> {
        match self {
            SurfaceTransform::Border(b) => b.post_fills(t, focused),
            SurfaceTransform::Gap(g) => g.post_fills(t, focused),
        }
    }

    fn arrange(&self, input: WindowTransform, ctx: &ArrangeContext) -> (output: WindowTransform) {
        match self {
            SurfaceTransform::Border(b) => b.arrange(input, ctx),
            SurfaceTransform::Gap(g) => g.arrange(input, ctx),
        }
    }

    fn render_pre(&self, t: WindowTransform, focused: bool) -> (fills: Vec<Fill>) {
        match self {
            SurfaceTransform::Border(b) => b.render_pre(t, focused),
            SurfaceTransform::Gap(g) => g.render_pre(t, focused),
        }
    }

    fn render_post(&self, t: WindowTransform, focused: bool) -> (fills: Vec<Fill>) {
        match self {
            SurfaceTransform::Border(b) => b.render_post(t, focused),
            SurfaceTransform::Gap(g) => g.render_post(t, focused),
        }
    }
}

} // verus!
