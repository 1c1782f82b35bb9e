use vstd::prelude::*;

verus! {

/// A position in surface coordinates.
#[derive(Debug, Clone, Copy, PartialEq, Eq, Structural)]
pub struct Point {
    pub x: i32,
    pub y: i32,
}

impl Point {
    pub fn new(x: i32, y: i32) -> (p: Point)
        ensures
            p.x == x,
            p.y == y,
    {
        Point { x, y }
    }
}

/// A width and a height in surface coordinates.
#[derive(Debug, Clone, Copy, PartialEq, Eq, Structural)]
pub struct Size {
    pub w: i32,
    pub h: i32,
}

impl Size {
    pub fn new(w: i32, h: i32) -> (s: Size)
        ensures
            s.w == w,
            s.h == h,
    {
        Size { w, h }
    }
}

/// An axis-aligned rectangle: its top-left corner and its size.
#[derive(Debug, Clone, Copy, PartialEq, Eq, Structural)]
pub struct Rectangle {
    pub loc: Point,
    pub size: Size,
}

impl Rectangle {
    pub fn new(loc: Point, size: Size) -> (r: Rectangle)
        ensures
            r.loc == loc,
            r.size == size,
    {
        Rectangle { loc, size }
    }

    /// The rectangle `(x, y, w, h)`.
    pub open spec fn spec_xywh(x: int, y: int, w: int, h: int) -> Rectangle {
        Rectangle { loc: Point { x: x as i32, y: y as i32 }, size: Size { w: w as i32, h: h as i32 } }
    }
}

pub type SurfaceLogicalPosition = Point;

pub type SurfacePhysicalPosition = Point;

pub type SurfaceLogicalSize = Size;

pub type SurfacePhysicalSize = Size;

pub type SurfaceLogicalRectangle = Rectangle;

pub type SurfacePhysicalRectangle = Rectangle;

/// Where a window stands on the output and how large it is.
#[derive(Debug, Clone, Copy, PartialEq, Eq, Structural)]
pub struct SurfaceGeometry {
    pub position: Point,
    pub size: Size,
}

impl SurfaceGeometry {
    pub open spec fn spec_new(x: int, y: int, w: int, h: int) -> SurfaceGeometry {
        SurfaceGeometry {
            position: Point { x: x as i32, y: y as i32 },
            size: Size { w: w as i32, h: h as i32 },
        }
    }

    /// At the origin, of no size.
    pub open spec fn default_spec() -> SurfaceGeometry {
        SurfaceGeometry { position: Point { x: 0, y: 0 }, size: Size { w: 0, h: 0 } }
    }

    /// The rectangle that the geometry covers.
    pub fn rect(&self) -> (r: Rectangle)
        ensures
            r.loc == self.position,
            r.size == self.size,
    {
        Rectangle { loc: self.position, size: self.size }
    }
}

impl Default for SurfaceGeometry {
    fn default() -> (g: SurfaceGeometry)
        ensures
            g == SurfaceGeometry::default_spec(),
    {
        SurfaceGeometry { position: Point { x: 0, y: 0 }, size: Size { w: 0, h: 0 } }
    }
}

/// Division rounding toward zero, as `/` does on machine integers.
pub open spec fn trunc_div(a: int, b: int) -> int {
    if a >= 0 {
        a / b
    } else {
        -((-a) / b)
    }
}

/// The offset that centers a span of length `inner` inside a span of
/// length `outer`, and 0 where the inner span does not fit.
pub open spec fn center_offset(outer: int, inner: int) -> int {
    if outer - inner > 0 {
        (outer - inner) / 2
    } else {
        0
    }
}

/// The geometry of a box of `size` centered on an output of `output` size.
pub open spec fn centered_geometry_spec(output: Size, size: Size) -> SurfaceGeometry {
    SurfaceGeometry {
        position: Point {
            x: center_offset(output.w as int, size.w as int) as i32,
            y: center_offset(output.h as int, size.h as int) as i32,
        },
        size,
    }
}

/// Centers a box of `size` on an output of `output` size: each coordinate is
/// half of what is left over, or 0 where nothing is left over.
pub fn centered_geometry(output: Size, size: Size) -> (g: SurfaceGeometry)
    requires
        i32::MIN <= output.w - size.w <= i32::MAX,
        i32::MIN <= output.h - size.h <= i32::MAX,
    ensures
        g == centered_geometry_spec(output, size),
        0 <= g.position.x,
        0 <= g.position.y,
{
    let dx = output.w - size.w;
    let dy = output.h - size.h;
    let cx = if dx > 0 { dx } else { 0 } / 2;
    let cy = if dy > 0 { dy } else { 0 } / 2;
    SurfaceGeometry { position: Point { x: cx, y: cy }, size }
}

} // verus!
