use vstd::prelude::*;

use crate::config::color::{parse_hex_color, RgbaColor};
use crate::geometry::{Point, Rectangle, Size, SurfaceLogicalRectangle, SurfacePhysicalRectangle};
use crate::surface::{fills_view, ArrangeContext, Fill, SurfaceTransformer, WindowTransform};

verus! {

/// Draws a border of `width` around the client; the border takes
/// `focused_color` when the window is focused and `unfocused_color` otherwise.
#[derive(Debug, Clone, Copy)]
pub struct SurfaceBorderTransformer {
    pub width: i32,
    pub focused_color: RgbaColor,
    pub unfocused_color: RgbaColor,
}

/// The color of "#009999ff", teal.
pub open spec fn default_focused_color() -> RgbaColor {
    RgbaColor { r: 0x00, g: 0x99, b: 0x99, a: 0xff }
}

/// The color of "#999999ff", grey.
pub open spec fn default_unfocused_color() -> RgbaColor {
    RgbaColor { r: 0x99, g: 0x99, b: 0x99, a: 0xff }
}

impl Default for SurfaceBorderTransformer {
    /// A border 2 wide, teal ("#009999ff") when focused and grey
    /// ("#999999ff") otherwise.
    fn default() -> (t: Self)
        ensures
            t.width == 2,
            t.focused_color == default_focused_color(),
            t.unfocused_color == default_unfocused_color(),
            Some(t.focused_color) == parse_hex_color("#009999ff"@),
            Some(t.unfocused_color) == parse_hex_color("#999999ff"@),
    {
        proof {
            reveal_strlit("#009999ff");
            reveal_strlit("#999999ff");
        }
        Self::new(
            2,
            RgbaColor { r: 0x00, g: 0x99, b: 0x99, a: 0xff },
            RgbaColor { r: 0x99, g: 0x99, b: 0x99, a: 0xff },
        )
    }
}

impl SurfaceBorderTransformer {
    /// A border `width` wide in the given colors.
    pub fn new(width: i32, focused_color: RgbaColor, unfocused_color: RgbaColor) -> (t: Self)
        ensures
            t.width == width,
            t.focused_color == focused_color,
            t.unfocused_color == unfocused_color,
    {
        Self { width, focused_color, unfocused_color }
    }

    /// The border with the focused color of the hex string `color` (see
    /// `RgbaColor::from_hex`).
    pub fn focused_color(self, color: &str) -> (t: Self)
        requires
            parse_hex_color(color@) is Some,
        ensures
            t.width == self.width,
            Some(t.focused_color) == parse_hex_color(color@),
            t.unfocused_color == self.unfocused_color,
    {
        match RgbaColor::from_hex(color) {
            Some(c) => Self { focused_color: c, ..self },
            None => self,
        }
    }

    /// The border with the unfocused color of the hex string `color` (see
    /// `RgbaColor::from_hex`).
    pub fn unfocused_color(self, color: &str) -> (t: Self)
        requires
            parse_hex_color(color@) is Some,
        ensures
            t.width == self.width,
            t.focused_color == self.focused_color,
            Some(t.unfocused_color) == parse_hex_color(color@),
    {
        match RgbaColor::from_hex(color) {
            Some(c) => Self { unfocused_color: c, ..self },
            None => self,
        }
    }

    pub fn width(self, width: i32) -> (t: Self)
        ensures
            t.width == width,
            t.focused_color == self.focused_color,
            t.unfocused_color == self.unfocused_color,
    {
        Self { width, ..self }
    }

    /// The border width that is drawn: `width`, or 0 where `width` is negative.
    pub open spec fn drawn_width(&self) -> int {
        if self.width > 0 {
            self.width as int
        } else {
            0
        }
    }
}

/// `a`, or `lo` where `a` is below `lo`.
pub open spec fn at_least(a: int, lo: int) -> int {
    if a < lo {
        lo
    } else {
        a
    }
}

impl SurfaceTransformer for SurfaceBorderTransformer {
    open spec fn can_arrange(&self, input: WindowTransform) -> bool {
        let b = self.drawn_width();
        let rect = input.client_rect;
        &&& 2 * b <= i32::MAX
        &&& rect.loc.x + b <= i32::MAX
        &&& rect.loc.y + b <= i32::MAX
        &&& i32::MIN <= rect.size.w - 2 * b
        &&& i32::MIN <= rect.size.h - 2 * b
    }

    /// The client rectangle moves in by the drawn width on every side and
    /// keeps at least 1 of width and height; the client is asked to take
    /// that size.
    open spec fn arranged(&self, input: WindowTransform, ctx: ArrangeContext) -> WindowTransform {
        let b = self.drawn_width();
        let rect = input.client_rect;
        let client = Rectangle {
            loc: Point { x: (rect.loc.x + b) as i32, y: (rect.loc.y + b) as i32 },
            size: Size {
                w: at_least(rect.size.w - 2 * b, 1) as i32,
                h: at_least(rect.size.h - 2 * b, 1) as i32,
            },
        };
        WindowTransform { client_rect: client, configure_size: client.size, ..input }
    }

    open spec fn can_render(&self, t: WindowTransform) -> bool {
        border_rects_requires(t.outer_rect, t.client_rect)
    }

    /// The strips between the outer and the client rectangle, in the focused
    /// color where the window is focused and the unfocused one otherwise.
    open spec fn pre_fills(&self, t: WindowTransform, focused: bool) -> Seq<(RgbaColor, Seq<Rectangle>)> {
        seq![
            (
                if focused {
                    self.focused_color
                } else {
                    self.unfocused_color
                },
                keep_nonempty(border_candidates(t.outer_rect, t.client_rect)),
            ),
        ]
    }

    /// Nothing: the border lies below the client.
    open spec fn post_fills(&self, t: WindowTransform, focused: bool) -> Seq<(RgbaColor, Seq<Rectangle>)> {
        Seq::empty()
    }

    fn arrange(&self, input: WindowTransform, _ctx: &ArrangeContext) -> (output: WindowTransform) {
        let b = if self.width > 0 {
            self.width
        } else {
            0
        };
        let rect = input.client_rect;
        let w = rect.size.w - b * 2;
        let h = rect.size.h - b * 2;
        let client_width = if w < 1 {
            1
        } else {
            w
        };
        let client_height = if h < 1 {
            1
        } else {
            h
        };
        let client_rect = Rectangle::new(
            Point::new(rect.loc.x + b, rect.loc.y + b),
            Size::new(client_width, client_height),
        );
        WindowTransform { client_rect, configure_size: client_rect.size, ..input }
    }

    fn render_pre(&self, t: WindowTransform, focused: bool) -> (fills: Vec<Fill>) {
        let color = if focused {
            self.focused_color
        } else {
            self.unfocused_color
        };
        let fills = vec![(color, border_rects(t.outer_rect, t.client_rect))];
        assert(fills_view(fills@) =~= self.pre_fills(t, focused));
        fills
    }

    fn render_post(&self, t: WindowTransform, focused: bool) -> (fills: Vec<Fill>) {
        let fills: Vec<Fill> = Vec::new();
        assert(fills_view(fills@) =~= self.post_fills(t, focused));
        fills
    }
}

/// Where the client rectangle has room for the border on both sides, the
/// border leaves a frame exactly as wide as its drawn width around the new
/// client rectangle, within the old one; the outer rectangle stays.
pub proof fn lemma_border_frame(border: SurfaceBorderTransformer, input: WindowTransform, ctx: ArrangeContext)
    requires
        border.can_arrange(input),
        input.client_rect.size.w >= 2 * border.drawn_width() + 1,
        input.client_rect.size.h >= 2 * border.drawn_width() + 1,
    ensures
        ({
            let out = border.arranged(input, ctx);
            let r = input.client_rect;
            let c = out.client_rect;
            let b = border.drawn_width();
            &&& c.loc.x == r.loc.x + b
            &&& c.loc.y == r.loc.y + b
            &&& c.loc.x + c.size.w == r.loc.x + r.size.w - b
            &&& c.loc.y + c.size.h == r.loc.y + r.size.h - b
            &&& out.configure_size == c.size
            &&& out.outer_rect == input.outer_rect
        }),
{
}

/// `a` held to `[lo, hi]`.
pub open spec fn clamp_spec(a: int, lo: int, hi: int) -> int {
    if a < lo {
        lo
    } else if a > hi {
        hi
    } else {
        a
    }
}

/// `a` held to `[lo, hi]`, as `i32::clamp` computes it (which panics where
/// `lo > hi`).
pub fn clamp(a: i32, lo: i32, hi: i32) -> (r: i32)
    requires
        lo <= hi,
    ensures
        r == clamp_spec(a as int, lo as int, hi as int),
{
    if a < lo {
        lo
    } else if a > hi {
        hi
    } else {
        a
    }
}

/// The four strips of `outer` around `client` (clipped to `outer`): above,
/// below, left of and right of the client, each as `(x, y, w, h)`.
pub open spec fn border_candidates(outer: Rectangle, client: Rectangle) -> Seq<Rectangle> {
    let left = outer.loc.x as int;
    let top = outer.loc.y as int;
    let right = outer.loc.x + outer.size.w;
    let bottom = outer.loc.y + outer.size.h;
    let client_left = clamp_spec(client.loc.x as int, left, right);
    let client_top = clamp_spec(client.loc.y as int, top, bottom);
    let client_right = clamp_spec(client.loc.x + client.size.w, left, right);
    let client_bottom = clamp_spec(client.loc.y + client.size.h, top, bottom);
    seq![
        Rectangle::spec_xywh(left, top, outer.size.w as int, client_top - top),
        Rectangle::spec_xywh(left, client_bottom, outer.size.w as int, bottom - client_bottom),
        Rectangle::spec_xywh(left, client_top, client_left - left, client_bottom - client_top),
        Rectangle::spec_xywh(client_right, client_top, right - client_right, client_bottom - client_top),
    ]
}

/// Whether a rectangle has positive width and height.
pub open spec fn is_nonempty(r: Rectangle) -> bool {
    r.size.w > 0 && r.size.h > 0
}

/// The rectangles of `s` that are not empty, in order.
pub open spec fn keep_nonempty(s: Seq<Rectangle>) -> Seq<Rectangle>
    decreases s.len(),
{
    if s.len() == 0 {
        Seq::empty()
    } else {
        let rest = keep_nonempty(s.drop_last());
        if is_nonempty(s.last()) {
            rest.push(s.last())
        } else {
            rest
        }
    }
}

/// The machine integers of `border_rects` stay in range: the right and bottom
/// edges of both rectangles fit in `i32`, and `outer` has no negative size
/// (clamping to it asks for that).
pub open spec fn border_rects_requires(outer: Rectangle, client: Rectangle) -> bool {
    &&& outer.size.w >= 0
    &&& outer.size.h >= 0
    &&& outer.loc.x + outer.size.w <= i32::MAX
    &&& outer.loc.y + outer.size.h <= i32::MAX
    &&& i32::MIN <= client.loc.x + client.size.w <= i32::MAX
    &&& i32::MIN <= client.loc.y + client.size.h <= i32::MAX
}

fn push_if_nonempty(rects: &mut Vec<SurfacePhysicalRectangle>, x: i32, y: i32, w: i32, h: i32)
    ensures
        final(rects)@ == if w > 0 && h > 0 {
            old(rects)@.push(Rectangle { loc: Point { x, y }, size: Size { w, h } })
        } else {
            old(rects)@
        },
{
    if w > 0 && h > 0 {
        rects.push(Rectangle::new(Point::new(x, y), Size::new(w, h)));
    }
}

/// The parts of `outer` that the border covers: the strips above, below, left
/// of and right of `client` (clipped to `outer`), in that order, leaving out
/// those without area.
pub fn border_rects(outer: SurfaceLogicalRectangle, client: SurfaceLogicalRectangle) -> (rects: Vec<
    SurfacePhysicalRectangle,
>)
    requires
        border_rects_requires(outer, client),
    ensures
        rects@ == keep_nonempty(border_candidates(outer, client)),
{
    let left = outer.loc.x;
    let top = outer.loc.y;
    let right = outer.loc.x + outer.size.w;
    let bottom = outer.loc.y + outer.size.h;

    let client_left = clamp(client.loc.x, left, right);
    let client_top = clamp(client.loc.y, top, bottom);
    let client_right = clamp(client.loc.x + client.size.w, left, right);
    let client_bottom = clamp(client.loc.y + client.size.h, top, bottom);

    let ghost cands = border_candidates(outer, client);
    let mut rects: Vec<SurfacePhysicalRectangle> = Vec::new();
    assert(keep_nonempty(cands.take(0)) =~= Seq::<Rectangle>::empty());
    push_if_nonempty(&mut rects, left, top, outer.size.w, client_top - top);
    assert(cands.take(1).drop_last() =~= cands.take(0));
    assert(cands.take(1).last() == cands[0]);
    assert(rects@ == keep_nonempty(cands.take(1)));
    push_if_nonempty(&mut rects, left, client_bottom, outer.size.w, bottom - client_bottom);
    assert(cands.take(2).drop_last() =~= cands.take(1));
    assert(cands.take(2).last() == cands[1]);
    assert(rects@ == keep_nonempty(cands.take(2)));
    push_if_nonempty(&mut rects, left, client_top, client_left - left, client_bottom - client_top);
    assert(cands.take(3).drop_last() =~= cands.take(2));
    assert(cands.take(3).last() == cands[2]);
    assert(rects@ == keep_nonempty(cands.take(3)));
    push_if_nonempty(
        &mut rects,
        client_right,
        client_top,
        right - client_right,
        client_bottom - client_top,
    );
    assert(cands.take(4).drop_last() =~= cands.take(3));
    assert(cands.take(4).last() == cands[3]);
    assert(cands.take(4) =~= cands);
    rects
}


/// Whether the point `(px, py)` lies in `r`.
pub open spec fn contains_point(r: Rectangle, px: int, py: int) -> bool {
    &&& r.loc.x <= px < r.loc.x + r.size.w
    &&& r.loc.y <= py < r.loc.y + r.size.h
}

/// Whether the rectangles of `s` lie in `outer`, miss `client`, together
/// cover every point of `outer` outside `client`, and do not overlap.
pub open spec fn tiles_border(s: Seq<Rectangle>, outer: Rectangle, client: Rectangle) -> bool {
    &&& forall|i: int, px: int, py: int|
        0 <= i < s.len() && #[trigger] contains_point(s[i], px, py) ==> contains_point(outer, px, py)
            && !contains_point(client, px, py)
    &&& forall|px: int, py: int|
        #[trigger] contains_point(outer, px, py) && !contains_point(client, px, py) ==> exists|i: int|
            0 <= i < s.len() && #[trigger] contains_point(s[i], px, py)
    &&& forall|i: int, j: int, px: int, py: int|
        0 <= i < s.len() && 0 <= j < s.len() && i != j && #[trigger] contains_point(s[i], px, py)
            ==> !#[trigger] contains_point(s[j], px, py)
}

/// The four strips tile the border.
proof fn lemma_candidates_tile(outer: Rectangle, client: Rectangle)
    requires
        border_rects_requires(outer, client),
        client.size.w >= 0,
        client.size.h >= 0,
    ensures
        tiles_border(border_candidates(outer, client), outer, client),
{
    let c = border_candidates(outer, client);
    let left = outer.loc.x as int;
    let top = outer.loc.y as int;
    let right = outer.loc.x + outer.size.w;
    let bottom = outer.loc.y + outer.size.h;
    let cl = clamp_spec(client.loc.x as int, left, right);
    let ct = clamp_spec(client.loc.y as int, top, bottom);
    let cr = clamp_spec(client.loc.x + client.size.w, left, right);
    let cb = clamp_spec(client.loc.y + client.size.h, top, bottom);
    assert(c[0] == Rectangle::spec_xywh(left, top, outer.size.w as int, ct - top));
    assert(c[0].loc.x == left && c[0].loc.y == top && c[0].size.w == outer.size.w && c[0].size.h == ct - top);
    assert(c[1].loc.x == left && c[1].loc.y == cb && c[1].size.w == outer.size.w && c[1].size.h == bottom - cb);
    assert(c[2].loc.x == left && c[2].loc.y == ct && c[2].size.w == cl - left && c[2].size.h == cb - ct);
    assert(c[3].loc.x == cr && c[3].loc.y == ct && c[3].size.w == right - cr && c[3].size.h == cb - ct);
    assert forall|px: int, py: int|
        #[trigger] contains_point(outer, px, py) && !contains_point(client, px, py) implies exists|i: int|
            0 <= i < c.len() && #[trigger] contains_point(c[i], px, py) by {
        if py < ct {
            assert(contains_point(c[0], px, py));
        } else if py >= cb {
            assert(contains_point(c[1], px, py));
        } else if px < cl {
            assert(contains_point(c[2], px, py));
        } else {
            assert(contains_point(c[3], px, py));
        }
    }
}

/// Leaving out empty rectangles keeps the points that the rectangles cover.
proof fn lemma_keep_nonempty_points(s: Seq<Rectangle>, px: int, py: int)
    ensures
        (exists|i: int| 0 <= i < keep_nonempty(s).len() && #[trigger] contains_point(keep_nonempty(s)[i], px, py))
            <==> (exists|j: int| 0 <= j < s.len() && #[trigger] contains_point(s[j], px, py)),
        forall|i: int|
            #![trigger keep_nonempty(s)[i]]
            0 <= i < keep_nonempty(s).len() ==> exists|j: int|
                0 <= j < s.len() && #[trigger] s[j] == keep_nonempty(s)[i],
    decreases s.len(),
{
    if s.len() > 0 {
        let d = s.drop_last();
        lemma_keep_nonempty_points(d, px, py);
        let k = keep_nonempty(s);
        let kd = keep_nonempty(d);
        assert forall|i: int| #![trigger k[i]] 0 <= i < k.len() implies exists|j: int|
            0 <= j < s.len() && #[trigger] s[j] == k[i] by {
            if i < kd.len() {
                let j = choose|j: int| 0 <= j < d.len() && #[trigger] d[j] == kd[i];
                assert(s[j] == k[i]);
            } else {
                assert(s[s.len() - 1] == k[i]);
            }
        }
        if exists|j: int| 0 <= j < s.len() && #[trigger] contains_point(s[j], px, py) {
            let j = choose|j: int| 0 <= j < s.len() && #[trigger] contains_point(s[j], px, py);
            if j < s.len() - 1 {
                assert(contains_point(d[j], px, py));
                let i = choose|i: int| 0 <= i < kd.len() && #[trigger] contains_point(kd[i], px, py);
                assert(contains_point(k[i], px, py));
            } else {
                assert(is_nonempty(s.last()));
                assert(contains_point(k[k.len() - 1], px, py));
            }
        }
        if exists|i: int| 0 <= i < k.len() && #[trigger] contains_point(k[i], px, py) {
            let i = choose|i: int| 0 <= i < k.len() && #[trigger] contains_point(k[i], px, py);
            if i < kd.len() {
                assert(contains_point(kd[i], px, py));
                let j = choose|j: int| 0 <= j < d.len() && #[trigger] contains_point(d[j], px, py);
                assert(contains_point(s[j], px, py));
            } else {
                assert(contains_point(s[s.len() - 1], px, py));
            }
        }
    }
}

/// Leaving out empty rectangles keeps rectangles that do not overlap apart.
proof fn lemma_keep_nonempty_disjoint(s: Seq<Rectangle>)
    requires
        forall|i: int, j: int, px: int, py: int|
            0 <= i < s.len() && 0 <= j < s.len() && i != j && #[trigger] contains_point(s[i], px, py)
                ==> !#[trigger] contains_point(s[j], px, py),
    ensures
        forall|i: int, j: int, px: int, py: int|
            0 <= i < keep_nonempty(s).len() && 0 <= j < keep_nonempty(s).len() && i != j
                && #[trigger] contains_point(keep_nonempty(s)[i], px, py) ==> !#[trigger] contains_point(
                keep_nonempty(s)[j],
                px,
                py,
            ),
    decreases s.len(),
{
    if s.len() > 0 {
        let d = s.drop_last();
        assert forall|i: int, j: int, px: int, py: int|
            0 <= i < d.len() && 0 <= j < d.len() && i != j && #[trigger] contains_point(d[i], px, py)
                implies !#[trigger] contains_point(d[j], px, py) by {
            assert(contains_point(s[i], px, py));
        }
        lemma_keep_nonempty_disjoint(d);
        let k = keep_nonempty(s);
        let kd = keep_nonempty(d);
        if is_nonempty(s.last()) {
            assert forall|i: int, j: int, px: int, py: int|
                0 <= i < k.len() && 0 <= j < k.len() && i != j && #[trigger] contains_point(k[i], px, py)
                    implies !#[trigger] contains_point(k[j], px, py) by {
                if i < kd.len() && j < kd.len() {
                    assert(contains_point(kd[i], px, py));
                } else {
                    let a = if i < kd.len() { i } else { j };
                    lemma_keep_nonempty_points(d, px, py);
                    if contains_point(k[j], px, py) {
                        assert(contains_point(kd[a], px, py));
                        let jj = choose|jj: int| 0 <= jj < d.len() && #[trigger] contains_point(d[jj], px, py);
                        assert(contains_point(s[jj], px, py));
                        assert(contains_point(s[s.len() - 1], px, py));
                    }
                }
            }
        }
    }
}

/// The rectangles of `border_rects` tile the border: they lie in `outer`,
/// miss `client`, cover every point of `outer` outside `client`, and do not
/// overlap (for a client of nonnegative size).
pub proof fn lemma_border_rects_tile(outer: Rectangle, client: Rectangle)
    requires
        border_rects_requires(outer, client),
        client.size.w >= 0,
        client.size.h >= 0,
    ensures
        tiles_border(keep_nonempty(border_candidates(outer, client)), outer, client),
{
    let c = border_candidates(outer, client);
    let k = keep_nonempty(c);
    lemma_candidates_tile(outer, client);
    lemma_keep_nonempty_disjoint(c);
    assert forall|i: int, px: int, py: int|
        0 <= i < k.len() && #[trigger] contains_point(k[i], px, py) implies contains_point(outer, px, py)
            && !contains_point(client, px, py) by {
        lemma_keep_nonempty_points(c, px, py);
        let j = choose|j: int| 0 <= j < c.len() && #[trigger] c[j] == k[i];
        assert(contains_point(c[j], px, py));
    }
    assert forall|px: int, py: int|
        #[trigger] contains_point(outer, px, py) && !contains_point(client, px, py) implies exists|i: int|
            0 <= i < k.len() && #[trigger] contains_point(k[i], px, py) by {
        lemma_keep_nonempty_points(c, px, py);
        let j = choose|j: int| 0 <= j < c.len() && #[trigger] contains_point(c[j], px, py);
    }
}

} // verus!
