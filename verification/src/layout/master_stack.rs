use vstd::prelude::*;

use crate::geometry::{trunc_div, Point, Size, SurfaceGeometry, SurfaceLogicalSize};
use crate::layout::{Growable, Layout, LayoutContext, LayoutWindow, MasterWindow, Shrinkable};

verus! {

/// The geometry of the window at `index` in a column of `count` windows that
/// fills the box `(x, y, width, height)` from top to bottom: every window is
/// `height / count` high (rounded toward zero) and the last one takes what is
/// left.
pub open spec fn stack_slot(
    count: int,
    index: int,
    x: int,
    y: int,
    width: int,
    height: int,
) -> SurfaceGeometry {
    let base_h = trunc_div(height, count);
    let window_h = if index == count - 1 {
        height - index * base_h
    } else {
        base_h
    };
    SurfaceGeometry::spec_new(x, y + index * base_h, width, window_h)
}

/// Within a column of `count` windows over a height `height`, the offset of
/// the window at `index` lies between 0 and `height`, and so does the height
/// of the whole column without its last window.
pub proof fn lemma_stack_offset_bounds(count: int, index: int, height: int)
    requires
        0 <= index < count,
    ensures
        height >= 0 ==> 0 <= index * trunc_div(height, count) <= height,
        height < 0 ==> height <= index * trunc_div(height, count) <= 0,
        height >= 0 ==> 0 <= trunc_div(height, count) <= height,
        height < 0 ==> height <= trunc_div(height, count) <= 0,
        height >= 0 ==> (count - 1) * trunc_div(height, count) <= height - trunc_div(height, count),
{
    if height >= 0 {
        let b = height / count;
        assert(0 <= b <= height && count * b <= height) by (nonlinear_arith)
            requires
                height >= 0,
                count > 0,
                b == height / count,
        ;
        assert(0 <= index * b <= count * b) by (nonlinear_arith)
            requires
                0 <= index < count,
                b >= 0,
        ;
        assert((count - 1) * b == count * b - b) by (nonlinear_arith);
    } else {
        let m = -height;
        let b = m / count;
        assert(0 <= b <= m && count * b <= m) by (nonlinear_arith)
            requires
                m > 0,
                count > 0,
                b == m / count,
        ;
        assert(0 <= index * b <= count * b) by (nonlinear_arith)
            requires
                0 <= index < count,
                b >= 0,
        ;
        assert(index * (-b) == -(index * b)) by (nonlinear_arith);
    }
}

/// The master share after `shrink`: 5 points less, and no less than 10.
pub open spec fn shrunk_percent(p: int) -> int {
    if p - 5 > 10 {
        p - 5
    } else {
        10
    }
}

/// The master share after `grow`: 5 points more, and no more than 90.
pub open spec fn grown_percent(p: int) -> int {
    if p + 5 < 90 {
        p + 5
    } else {
        90
    }
}

/// The master count after `decrease_master_count`: one less, and no less
/// than 0.
pub open spec fn decreased_count(c: int) -> int {
    if c > 0 {
        c - 1
    } else {
        0
    }
}

/// Shrinking undoes growing where the share is between 10 and 85, growing
/// undoes shrinking where it is between 15 and 90, and both keep a share
/// between 10 and 90 there.
pub proof fn lemma_shrink_grow_inverse(p: int)
    ensures
        10 <= p <= 85 ==> shrunk_percent(grown_percent(p)) == p,
        15 <= p <= 90 ==> grown_percent(shrunk_percent(p)) == p,
        10 <= p <= 90 ==> 10 <= grown_percent(p) <= 90 && 10 <= shrunk_percent(p) <= 90,
{
}

/// Taking a window out of the master column undoes adding one.
pub proof fn lemma_decrease_undoes_increase(c: int)
    requires
        c >= 0,
    ensures
        decreased_count(c + 1) == c,
{
}

/// The windows of a column fill its box exactly: the first starts at the
/// top, each next one starts where the one before ends, the last ends at
/// the bottom, and each has the box's left edge and width.
pub proof fn lemma_stack_tiles_box(count: int, x: i32, y: i32, width: i32, height: i32)
    requires
        0 < count,
        i32::MIN <= y + height <= i32::MAX,
    ensures
        stack_slot(count, 0, x as int, y as int, width as int, height as int).position.y == y,
        forall|i: int|
            0 <= i < count - 1 ==> (#[trigger] stack_slot(count, i, x as int, y as int, width as int, height as int)).position.y
                + stack_slot(count, i, x as int, y as int, width as int, height as int).size.h
                == stack_slot(count, i + 1, x as int, y as int, width as int, height as int).position.y,
        stack_slot(count, count - 1, x as int, y as int, width as int, height as int).position.y
            + stack_slot(count, count - 1, x as int, y as int, width as int, height as int).size.h == y + height,
        forall|i: int|
            0 <= i < count ==> (#[trigger] stack_slot(count, i, x as int, y as int, width as int, height as int)).position.x
                == x && stack_slot(count, i, x as int, y as int, width as int, height as int).size.w == width,
{
    let b = trunc_div(height as int, count);
    lemma_stack_offset_bounds(count, 0, height as int);
    assert forall|i: int| 0 <= i < count - 1 implies (#[trigger] stack_slot(count, i, x as int, y as int, width as int, height as int)).position.y
        + stack_slot(count, i, x as int, y as int, width as int, height as int).size.h
        == stack_slot(count, i + 1, x as int, y as int, width as int, height as int).position.y by {
        lemma_stack_offset_bounds(count, i, height as int);
        lemma_stack_offset_bounds(count, i + 1, height as int);
        assert((i + 1) * b == i * b + b) by (nonlinear_arith);
    }
    lemma_stack_offset_bounds(count, count - 1, height as int);
}

/// The offset and height of the window at `index` in a column of `count`
/// over a nonnegative height `height` lie within `[0, height]`.
pub proof fn lemma_stack_slot_within(count: int, index: int, height: int)
    requires
        0 <= index < count,
        height >= 0,
    ensures
        0 <= index * trunc_div(height, count),
        0 <= trunc_div(height, count),
        index * trunc_div(height, count) <= height,
        index < count - 1 ==> index * trunc_div(height, count) + trunc_div(height, count) <= height,
{
    let b = trunc_div(height, count);
    lemma_stack_offset_bounds(count, index, height);
    if index < count - 1 {
        lemma_stack_offset_bounds(count, index + 1, height);
        assert((index + 1) * b == index * b + b) by (nonlinear_arith);
    }
}

/// The position and size of a window of a column over a box within 2^29 of
/// the origin lie within 2^29 too, where the height is nonnegative.
proof fn lemma_stack_slot_bounded(count: int, index: int, x: int, y: int, width: int, height: int)
    requires
        0 <= index < count,
        -0x2000_0000 <= x <= 0x2000_0000,
        y == 0,
        -0x2000_0000 <= width <= 0x2000_0000,
        0 <= height <= 0x2000_0000,
    ensures
        ({
            let g = stack_slot(count, index, x, y, width, height);
            &&& g.position.x == x
            &&& 0 <= g.position.y <= height
            &&& g.size.w == width
            &&& 0 <= g.size.h <= height
        }),
{
    lemma_stack_slot_within(count, index, height);
    lemma_stack_offset_bounds(count, index, height);
    if index == count - 1 {
        lemma_stack_offset_bounds(count, count - 1, height);
    }
}

/// On an output within 2^28 of nonnegative size, where the master column's
/// width can be computed, every window of the master-stack layout lies
/// within 2^29 of the origin, with a nonnegative height, whatever the share.
pub proof fn lemma_master_stack_slot_bounded(
    layout: MasterStackLayout,
    output: SurfaceLogicalSize,
    count: int,
    index: int,
)
    requires
        0 <= index < count,
        0 <= output.w <= 0x1000_0000,
        0 <= output.h <= 0x1000_0000,
        i32::MIN <= output.w * layout.master_percent <= i32::MAX,
    ensures
        ({
            let g = layout.master_stack_slot(output, count, index);
            &&& -0x2000_0000 <= g.position.x <= 0x2000_0000
            &&& 0 <= g.position.y <= output.h
            &&& -0x2000_0000 <= g.size.w <= 0x2000_0000
            &&& 0 <= g.size.h <= output.h
        }),
{
    let w = output.w as int;
    let a = w * layout.master_percent;
    let mw = layout.master_width(w);
    assert(-0x0200_0000 <= mw <= 0x0200_0000);
    let masters = layout.masters(count);
    if !layout.splits(count) {
        lemma_stack_slot_bounded(count, index, 0, 0, w, output.h as int);
    } else if index < masters {
        lemma_stack_slot_bounded(masters, index, 0, 0, mw, output.h as int);
    } else {
        lemma_stack_slot_bounded(count - masters, index - masters, mw, 0, w - mw, output.h as int);
    }
}

/// On an output of nonnegative size, with a master share between 0 and 100,
/// every window of the master-stack layout lies within the output and has a
/// nonnegative size.
pub proof fn lemma_master_stack_within_output(
    layout: MasterStackLayout,
    output: SurfaceLogicalSize,
    count: int,
    index: int,
)
    requires
        0 <= index < count,
        output.w >= 0,
        output.h >= 0,
        0 <= layout.master_percent <= 100,
    ensures
        ({
            let g = layout.master_stack_slot(output, count, index);
            &&& 0 <= g.position.x
            &&& 0 <= g.position.y
            &&& 0 <= g.size.w
            &&& 0 <= g.size.h
            &&& g.position.x + g.size.w <= output.w
            &&& g.position.y + g.size.h <= output.h
        }),
{
    let w = output.w as int;
    let p = layout.master_percent as int;
    let mw = layout.master_width(w);
    assert(0 <= w * p <= w * 100) by (nonlinear_arith)
        requires
            w >= 0,
            0 <= p <= 100,
    ;
    assert(0 <= mw <= w) by (nonlinear_arith)
        requires
            mw == (w * p) / 100,
            0 <= w * p <= w * 100,
    ;
    let masters = layout.masters(count);
    if !layout.splits(count) {
        lemma_stack_slot_within(count, index, output.h as int);
    } else if index < masters {
        lemma_stack_slot_within(masters, index, output.h as int);
    } else {
        lemma_stack_slot_within(count - masters, index - masters, output.h as int);
    }
}

/// A layout with a column of master windows on the left and a column with
/// the other windows on the right.
#[derive(Debug, Clone, Copy)]
pub struct MasterStackLayout {
    /// The share of the output width, in percent, that the master column takes.
    pub master_percent: i32,
    /// How many windows the master column holds at most.
    pub master_count: usize,
}

impl MasterStackLayout {
    pub fn new(master_percent: i32) -> (layout: Self)
        ensures
            layout.master_percent == master_percent,
            layout.master_count == 2,
    {
        Self { master_percent, master_count: 2 }
    }

    /// The number of windows that go to the master column.
    pub open spec fn masters(self, count: int) -> int {
        if (self.master_count as int) < count {
            self.master_count as int
        } else {
            count
        }
    }

    /// The width of the master column on an output `output_w` wide.
    pub open spec fn master_width(self, output_w: int) -> int {
        trunc_div(output_w * self.master_percent, 100)
    }

    /// Whether both columns are in use for `count` windows.
    pub open spec fn splits(self, count: int) -> bool {
        0 < self.masters(count) < count
    }

    /// Where the window at `index` of `count` tiled windows goes on an output
    /// of `output` size.
    pub open spec fn master_stack_slot(self, output: SurfaceLogicalSize, count: int, index: int) -> SurfaceGeometry {
        let masters = self.masters(count);
        if !self.splits(count) {
            stack_slot(count, index, 0, 0, output.w as int, output.h as int)
        } else {
            let master_w = self.master_width(output.w as int);
            if index < masters {
                stack_slot(masters, index, 0, 0, master_w, output.h as int)
            } else {
                stack_slot(
                    count - masters,
                    index - masters,
                    master_w,
                    0,
                    output.w - master_w,
                    output.h as int,
                )
            }
        }
    }

    /// Fills the box `(x, y, width, height)` with `windows`, from top to
    /// bottom, each `height / windows.len()` high (rounded toward zero) and the
    /// last one taking what is left. Whether a window is focused stays as it
    /// was.
    pub fn arrange_vertical_stack(
        windows: &mut [LayoutWindow],
        x: i32,
        y: i32,
        width: i32,
        height: i32,
    )
        requires
            old(windows)@.len() <= i32::MAX,
            old(windows)@.len() > 0 ==> i32::MIN <= y + height <= i32::MAX,
        ensures
            final(windows)@.len() == old(windows)@.len(),
            forall|i: int|
                0 <= i < final(windows)@.len() ==> #[trigger] final(windows)@[i] == (LayoutWindow {
                    geometry: stack_slot(old(windows)@.len() as int, i, x as int, y as int, width as int, height as int),
                    focused: old(windows)@[i].focused,
                }),
    {
        let count = windows.len();
        if count == 0 {
            return;
        }
        let ghost old_windows = windows@;
        let base_h = height / (count as i32);
        assert(base_h == trunc_div(height as int, count as int));
        let mut index: usize = 0;
        while index < count
            invariant
                count == windows@.len(),
                count == old_windows.len(),
                0 < count <= i32::MAX,
                index <= count,
                i32::MIN <= y + height <= i32::MAX,
                base_h == trunc_div(height as int, count as int),
                forall|i: int|
                    index <= i < count ==> #[trigger] windows@[i] == old_windows[i],
                forall|i: int|
                    0 <= i < index ==> #[trigger] windows@[i] == (LayoutWindow {
                        geometry: stack_slot(count as int, i, x as int, y as int, width as int, height as int),
                        focused: old_windows[i].focused,
                    }),
            decreases count - index,
        {
            proof {
                lemma_stack_offset_bounds(count as int, index as int, height as int);
            }
            let offset = (index as i32) * base_h;
            let window_y = y + offset;
            let window_h = if index == count - 1 {
                height - (window_y - y)
            } else {
                base_h
            };
            let focused = windows[index].focused;
            windows[index] = LayoutWindow {
                geometry: SurfaceGeometry {
                    position: Point { x, y: window_y },
                    size: Size { w: width, h: window_h },
                },
                focused,
            };
            index = index + 1;
        }
    }
}

impl MasterWindow for MasterStackLayout {
    open spec fn can_increase_master_count(&self) -> bool {
        self.master_count < usize::MAX
    }

    fn increase_master_count(&mut self)
        ensures
            final(self).master_count == old(self).master_count + 1,
            final(self).master_percent == old(self).master_percent,
    {
        self.master_count = self.master_count + 1;
    }

    fn decrease_master_count(&mut self)
        ensures
            final(self).master_count == decreased_count(old(self).master_count as int),
            final(self).master_percent == old(self).master_percent,
    {
        if self.master_count > 0 {
            self.master_count = self.master_count - 1;
        }
    }
}

impl Shrinkable for MasterStackLayout {
    /// Takes 5 points off the master share, down to no less than 10.
    fn shrink(&mut self)
        ensures
            final(self).master_percent == shrunk_percent(old(self).master_percent as int),
            final(self).master_count == old(self).master_count,
    {
        self.master_percent = if self.master_percent > 15 {
            self.master_percent - 5
        } else {
            10
        };
    }
}

impl Growable for MasterStackLayout {
    /// Adds 5 points to the master share, up to no more than 90.
    fn grow(&mut self)
        ensures
            final(self).master_percent == grown_percent(old(self).master_percent as int),
            final(self).master_count == old(self).master_count,
    {
        self.master_percent = if self.master_percent < 85 {
            self.master_percent + 5
        } else {
            90
        };
    }
}

/// Whether the windows at `lo` up to `hi` (of `count` on `output`) fill a
/// column from the top of the output to its bottom: the first starts at the
/// top, each next one starts where the one before ends, the last ends at
/// the bottom, and all share the first one's left edge and width.
pub open spec fn fills_column(layout: MasterStackLayout, output: SurfaceLogicalSize, count: int, lo: int, hi: int) -> bool {
    &&& lo < hi
    &&& layout.slot(output, count as nat, lo).position.y == 0
    &&& layout.slot(output, count as nat, hi - 1).position.y + layout.slot(output, count as nat, hi - 1).size.h
        == output.h
    &&& forall|i: int|
        lo <= i < hi - 1 ==> (#[trigger] layout.slot(output, count as nat, i)).position.y + layout.slot(
            output,
            count as nat,
            i,
        ).size.h == layout.slot(output, count as nat, i + 1).position.y
    &&& forall|i: int|
        lo <= i < hi ==> (#[trigger] layout.slot(output, count as nat, i)).position.x == layout.slot(
            output,
            count as nat,
            lo,
        ).position.x && layout.slot(output, count as nat, i).size.w == layout.slot(output, count as nat, lo).size.w
}

proof fn lemma_column_fills(
    layout: MasterStackLayout,
    output: SurfaceLogicalSize,
    count: int,
    lo: int,
    hi: int,
    x: i32,
    width: i32,
)
    requires
        0 <= lo < hi <= count,
        output.h >= 0,
        forall|i: int|
            lo <= i < hi ==> #[trigger] layout.slot(output, count as nat, i) == stack_slot(
                hi - lo,
                i - lo,
                x as int,
                0,
                width as int,
                output.h as int,
            ),
    ensures
        fills_column(layout, output, count, lo, hi),
        layout.slot(output, count as nat, lo).position.x == x,
        layout.slot(output, count as nat, lo).size.w == width,
{
    let c = hi - lo;
    lemma_stack_tiles_box(c, x, 0, width, output.h);
    assert(layout.slot(output, count as nat, lo) == stack_slot(c, 0, x as int, 0, width as int, output.h as int));
    assert(layout.slot(output, count as nat, hi - 1) == stack_slot(c, c - 1, x as int, 0, width as int, output.h as int));
    assert forall|i: int| lo <= i < hi - 1 implies (#[trigger] layout.slot(output, count as nat, i)).position.y
        + layout.slot(output, count as nat, i).size.h == layout.slot(output, count as nat, i + 1).position.y by {
        assert(layout.slot(output, count as nat, i) == stack_slot(c, i - lo, x as int, 0, width as int, output.h as int));
        assert(layout.slot(output, count as nat, i + 1) == stack_slot(c, i + 1 - lo, x as int, 0, width as int, output.h as int));
    }
    assert forall|i: int| lo <= i < hi implies (#[trigger] layout.slot(output, count as nat, i)).position.x
        == layout.slot(output, count as nat, lo).position.x && layout.slot(output, count as nat, i).size.w
        == layout.slot(output, count as nat, lo).size.w by {
        assert(layout.slot(output, count as nat, i) == stack_slot(c, i - lo, x as int, 0, width as int, output.h as int));
    }
}

/// The master-stack layout tiles the output: where both columns are in use,
/// the master windows fill a column at the left edge and the other windows
/// fill the column that starts where the master column ends and reaches the
/// right edge; otherwise all windows fill one column as wide as the output.
/// Each column is split from the top of the output to its bottom, so no two
/// windows of a column overlap.
pub proof fn lemma_master_stack_tiles_output(layout: MasterStackLayout, output: SurfaceLogicalSize, count: int)
    requires
        0 < count <= i32::MAX,
        output.w >= 0,
        output.h >= 0,
        layout.can_arrange(output, count as nat),
    ensures
        ({
            let m = if (layout.master_count as int) < count {
                layout.master_count as int
            } else {
                count
            };
            &&& (m == 0 || m == count) ==> {
                &&& fills_column(layout, output, count, 0, count)
                &&& layout.slot(output, count as nat, 0).position.x == 0
                &&& layout.slot(output, count as nat, 0).size.w == output.w
            }
            &&& 0 < m < count ==> {
                &&& fills_column(layout, output, count, 0, m)
                &&& fills_column(layout, output, count, m, count)
                &&& layout.slot(output, count as nat, 0).position.x == 0
                &&& layout.slot(output, count as nat, m).position.x == layout.slot(output, count as nat, 0).size.w
                &&& layout.slot(output, count as nat, m).position.x + layout.slot(output, count as nat, m).size.w
                    == output.w
            }
        }),
{
    let m = layout.masters(count);
    if !layout.splits(count) {
        lemma_column_fills(layout, output, count, 0, count, 0, output.w);
    } else {
        let mw = layout.master_width(output.w as int);
        let w = output.w as int;
        let p = layout.master_percent as int;
        assert(i32::MIN <= mw <= i32::MAX);
        lemma_column_fills(layout, output, count, 0, m, 0, mw as i32);
        lemma_column_fills(layout, output, count, m, count, mw as i32, (w - mw) as i32);
    }
}

impl Layout for MasterStackLayout {
    /// The arithmetic stays within `i32`: the column heights always do; where
    /// both columns are in use, `output.w * master_percent` and the width of
    /// the stack column must fit too.
    open spec fn can_arrange(&self, output_size: SurfaceLogicalSize, count: nat) -> bool {
        &&& count <= i32::MAX
        &&& self.splits(count as int) ==> {
            &&& i32::MIN <= output_size.w * self.master_percent <= i32::MAX
            &&& i32::MIN <= output_size.w - self.master_width(output_size.w as int) <= i32::MAX
        }
    }

    open spec fn slot(&self, output_size: SurfaceLogicalSize, count: nat, index: int) -> SurfaceGeometry {
        self.master_stack_slot(output_size, count as int, index)
    }

    /// Places every window at its slot (see `master_stack_slot`); the layout
    /// itself does not change.
    fn arrange(&mut self, ctx: &mut LayoutContext)
        ensures
            *final(self) == *old(self),
    {
        let count = ctx.windows.len();
        if count == 0 {
            return;
        }
        let output_w = ctx.output_size.w;
        let output_h = ctx.output_size.h;
        let master_count = if self.master_count < count {
            self.master_count
        } else {
            count
        };
        let stack_count = count - master_count;

        if master_count == 0 {
            Self::arrange_vertical_stack(ctx.windows.as_mut_slice(), 0, 0, output_w, output_h);
            return;
        }
        if stack_count == 0 {
            let (masters, _rest) = ctx.windows.as_mut_slice().split_at_mut(master_count);
            Self::arrange_vertical_stack(masters, 0, 0, output_w, output_h);
            return;
        }

        let master_w = output_w * self.master_percent / 100;
        assert(master_w == self.master_width(output_w as int));
        let stack_w = output_w - master_w;
        let (masters, stack) = ctx.windows.as_mut_slice().split_at_mut(master_count);
        Self::arrange_vertical_stack(masters, 0, 0, master_w, output_h);
        Self::arrange_vertical_stack(stack, master_w, 0, stack_w, output_h);
    }
}

} // verus!
