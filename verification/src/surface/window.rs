use vstd::prelude::*;

use crate::geometry::{Point, Size, SurfaceGeometry};
use crate::surface::SurfaceId;

verus! {

/// A toplevel window: the surface it shows and where it stands.
#[derive(Debug, Clone, Copy, PartialEq, Eq, Structural)]
pub struct Window {
    pub surface: SurfaceId,
    pub geometry: SurfaceGeometry,
    pub fullscreen: bool,
    pub floating: bool,
}

impl Window {
    /// A new window for `surface`: at the origin, of no size, neither
    /// fullscreen nor floating.
    pub fn new(surface: SurfaceId) -> (w: Self)
        ensures
            w.surface == surface,
            w.geometry == (SurfaceGeometry { position: Point { x: 0, y: 0 }, size: Size { w: 0, h: 0 } }),
            !w.fullscreen,
            !w.floating,
    {
        Self { surface, geometry: SurfaceGeometry::default(), fullscreen: false, floating: false }
    }

    pub fn surface(&self) -> (s: SurfaceId)
        ensures
            s == self.surface,
    {
        self.surface
    }

    pub fn matches_surface(&self, surface: SurfaceId) -> (b: bool)
        ensures
            b == (self.surface == surface),
    {
        self.surface == surface
    }
}

} // verus!
