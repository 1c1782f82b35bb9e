pub mod master_stack;

pub use master_stack::{stack_slot, MasterStackLayout};

use vstd::prelude::*;

use crate::geometry::{SurfaceGeometry, SurfaceLogicalSize};

verus! {

/// Marks a daemon whose layout has been chosen.
pub struct LayoutSet;

/// Marks a daemon whose layout has not been chosen yet.
pub struct LayoutUnset;

/// What a layout arranges: the size of the output and the tiled windows, in
/// stacking order.
pub struct LayoutContext {
    pub output_size: SurfaceLogicalSize,
    pub windows: Vec<LayoutWindow>,
}

/// A tiled window as a layout sees it.
#[derive(Debug, Clone, Copy, PartialEq, Eq, Structural)]
pub struct LayoutWindow {
    pub geometry: SurfaceGeometry,
    pub focused: bool,
}

/// A layout whose main area can be made smaller.
pub trait Shrinkable {
    fn shrink(&mut self) {
    }
}

/// A layout whose main area can be made larger.
pub trait Growable {
    fn grow(&mut self) {
    }
}

/// A layout with a main ("master") area that holds a number of windows.
pub trait MasterWindow {
    /// Whether the master area can take one window more.
    spec fn can_increase_master_count(&self) -> bool;

    fn increase_master_count(&mut self)
        requires
            old(self).can_increase_master_count(),
    ;

    fn decrease_master_count(&mut self);
}

/// A way to place the tiled windows on the output.
pub trait Layout: Shrinkable + Growable {
    /// Whether `arrange` can place `count` windows on an output of `output_size`
    /// with machine integers.
    spec fn can_arrange(&self, output_size: SurfaceLogicalSize, count: nat) -> bool;

    /// Where `arrange` puts the window at `index` of `count` windows on an
    /// output of `output_size`.
    spec fn slot(&self, output_size: SurfaceLogicalSize, count: nat, index: int) -> SurfaceGeometry;

    /// Places every window at its slot; the output size and whether each
    /// window is focused stay as they were.
    fn arrange(&mut self, ctx: &mut LayoutContext)
        requires
            old(self).can_arrange(old(ctx).output_size, old(ctx).windows@.len()),
        ensures
            final(ctx).output_size == old(ctx).output_size,
            final(ctx).windows@.len() == old(ctx).windows@.len(),
            forall|i: int|
                0 <= i < final(ctx).windows@.len() ==> #[trigger] final(ctx).windows@[i] == (LayoutWindow {
                    geometry: old(self).slot(old(ctx).output_size, old(ctx).windows@.len(), i),
                    focused: old(ctx).windows@[i].focused,
                }),
    ;
}

} // verus!
