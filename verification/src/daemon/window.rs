use vstd::prelude::*;

verus! {

/// Acts on windows as a whole.
pub trait WindowManager {
    fn close_focused_window(&mut self) {
    }

    fn cycle_layout(&mut self);
}

/// The index of the layout after `active` among `count`, from the last back
/// to the first.
pub fn next_layout_index(active: usize, count: usize) -> (next: usize)
    requires
        count > 0,
        active < usize::MAX,
    ensures
        next == (active + 1) % (count as int),
        next < count,
{
    (active + 1) % count
}

} // verus!
