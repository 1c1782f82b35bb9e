use vstd::prelude::*;

use crate::geometry::SurfaceGeometry;
use crate::surface::{SurfaceId, Window};

verus! {

/// The index of the first window of `ws` that shows `surface`, or -1 where
/// none does.
pub open spec fn first_index(ws: Seq<Window>, surface: SurfaceId) -> int
    decreases ws.len(),
{
    if ws.len() == 0 {
        -1
    } else if ws[0].surface == surface {
        0
    } else {
        let rest = first_index(ws.drop_first(), surface);
        if rest < 0 {
            -1
        } else {
            rest + 1
        }
    }
}

/// `first_index` is the first window that shows the surface, and -1 only
/// where no window does.
pub proof fn lemma_first_index(ws: Seq<Window>, surface: SurfaceId)
    ensures
        -1 <= first_index(ws, surface) < ws.len(),
        first_index(ws, surface) >= 0 ==> ws[first_index(ws, surface)].surface == surface,
        forall|j: int|
            0 <= j < ws.len() && (first_index(ws, surface) < 0 || j < first_index(ws, surface))
                ==> #[trigger] ws[j].surface != surface,
    decreases ws.len(),
{
    if ws.len() > 0 && ws[0].surface != surface {
        lemma_first_index(ws.drop_first(), surface);
        assert forall|j: int|
            0 <= j < ws.len() && (first_index(ws, surface) < 0 || j < first_index(ws, surface))
                implies #[trigger] ws[j].surface != surface by {
            if j > 0 {
                assert(ws[j] == ws.drop_first()[j - 1]);
            }
        }
    }
}

/// A window whose surface no earlier window shows is found at its index.
pub proof fn lemma_first_index_at(ws: Seq<Window>, i: int)
    requires
        0 <= i < ws.len(),
        forall|j: int| 0 <= j < i ==> #[trigger] ws[j].surface != ws[i].surface,
    ensures
        first_index(ws, ws[i].surface) == i,
{
    lemma_first_index(ws, ws[i].surface);
}

/// Whether some window of `ws` shows `surface`.
pub open spec fn shows(ws: Seq<Window>, surface: SurfaceId) -> bool {
    exists|i: int| 0 <= i < ws.len() && #[trigger] ws[i].surface == surface
}

/// Whether no two windows of `ws` show the same surface.
pub open spec fn surfaces_unique(ws: Seq<Window>) -> bool {
    forall|i: int, j: int|
        0 <= i < ws.len() && 0 <= j < ws.len() && i != j ==> #[trigger] ws[i].surface != #[trigger] ws[j].surface
}

/// The windows of the server from bottom to top, the focused surface and
/// whether the layout must be recomputed.
pub ghost struct WindowStack {
    pub windows: Seq<Window>,
    pub focused: Option<SurfaceId>,
    pub layout_dirty: bool,
}

/// The window to focus once the window at `removed_index` is gone from what
/// is now `ws`: the one that took its place, or the new top one where it was
/// the top one, or none where no window is left.
pub open spec fn focus_after_removal(ws: Seq<Window>, removed_index: int) -> Option<SurfaceId> {
    if ws.len() == 0 {
        None
    } else if removed_index < ws.len() {
        Some(ws[removed_index].surface)
    } else {
        Some(ws.last().surface)
    }
}

impl WindowStack {
    /// Whether the focused surface, if any, is shown by a window.
    pub open spec fn focus_valid(self) -> bool {
        self.focused matches Some(s) ==> shows(self.windows, s)
    }

    /// The stack once `window` is added on top and focused.
    pub open spec fn added(self, window: Window) -> WindowStack {
        WindowStack { windows: self.windows.push(window), focused: Some(window.surface), layout_dirty: true }
    }

    /// What the focus is once the first window that shows `surface` is removed.
    pub open spec fn removal_focus(self, surface: SurfaceId) -> Option<SurfaceId> {
        let i = first_index(self.windows, surface);
        if i < 0 {
            None
        } else if self.focused == Some(surface) {
            focus_after_removal(self.windows.remove(i), i)
        } else {
            self.focused
        }
    }

    /// The stack once the first window that shows `surface` is removed; where
    /// it was focused, the focus goes to the window that took its place.
    pub open spec fn removed(self, surface: SurfaceId) -> WindowStack {
        let i = first_index(self.windows, surface);
        if i < 0 {
            self
        } else {
            WindowStack {
                windows: self.windows.remove(i),
                focused: self.removal_focus(surface),
                layout_dirty: true,
            }
        }
    }

    /// The stack once the window that shows `surface` is focused and raised
    /// to the top; unchanged where no window shows it.
    pub open spec fn raised(self, surface: SurfaceId) -> WindowStack {
        let i = first_index(self.windows, surface);
        if i < 0 {
            self
        } else {
            WindowStack {
                windows: self.windows.remove(i).push(self.windows[i]),
                focused: Some(surface),
                layout_dirty: true,
            }
        }
    }

    /// The stack once the geometry of the window that shows `surface` is
    /// `geometry`; unchanged where no window shows it.
    pub open spec fn with_geometry(self, surface: SurfaceId, geometry: SurfaceGeometry) -> WindowStack {
        let i = first_index(self.windows, surface);
        if i < 0 {
            self
        } else {
            WindowStack {
                windows: self.windows.update(i, Window { geometry, ..self.windows[i] }),
                ..self
            }
        }
    }

    /// The stack once focus moves to `surface` (without raising it).
    pub open spec fn focused_on(self, surface: SurfaceId) -> WindowStack {
        WindowStack { focused: Some(surface), layout_dirty: true, ..self }
    }

    /// The stack once focus moves to the next window up, from the top back to
    /// the bottom; unchanged where nothing is focused or the focused surface
    /// has no window.
    pub open spec fn next_focused(self) -> WindowStack {
        match self.focused {
            None => self,
            Some(f) => {
                let i = first_index(self.windows, f);
                if i < 0 {
                    self
                } else {
                    self.focused_on(self.windows[(i + 1) % (self.windows.len() as int)].surface)
                }
            },
        }
    }

    /// The stack once focus moves to the next window down, from the bottom
    /// back to the top; unchanged where nothing is focused or the focused
    /// surface has no window.
    pub open spec fn prev_focused(self) -> WindowStack {
        match self.focused {
            None => self,
            Some(f) => {
                let i = first_index(self.windows, f);
                if i < 0 {
                    self
                } else if i == 0 {
                    self.focused_on(self.windows.last().surface)
                } else {
                    self.focused_on(self.windows[i - 1].surface)
                }
            },
        }
    }

    /// The stack once nothing is focused; unchanged where nothing was.
    pub open spec fn unfocused(self) -> WindowStack {
        if self.focused is None {
            self
        } else {
            WindowStack { focused: None, layout_dirty: true, ..self }
        }
    }
}

/// The windows of `ws` whose flag in `alive` is set, in order.
pub open spec fn kept_windows(ws: Seq<Window>, alive: Seq<bool>) -> Seq<Window>
    decreases ws.len(),
{
    if ws.len() == 0 {
        Seq::empty()
    } else {
        let rest = kept_windows(ws.drop_last(), alive);
        if alive[ws.len() - 1] {
            rest.push(ws.last())
        } else {
            rest
        }
    }
}

/// The surfaces of the windows of `ws` whose flag in `alive` is not set, in
/// order.
pub open spec fn dropped_surfaces(ws: Seq<Window>, alive: Seq<bool>) -> Seq<SurfaceId>
    decreases ws.len(),
{
    if ws.len() == 0 {
        Seq::empty()
    } else {
        let rest = dropped_surfaces(ws.drop_last(), alive);
        if alive[ws.len() - 1] {
            rest
        } else {
            rest.push(ws.last().surface)
        }
    }
}

impl WindowStack {
    /// The stack once the windows whose flag in `alive` is not set are gone;
    /// the layout is dirty where any went.
    pub open spec fn pruned(self, alive: Seq<bool>) -> WindowStack {
        WindowStack {
            windows: kept_windows(self.windows, alive),
            layout_dirty: self.layout_dirty || dropped_surfaces(self.windows, alive).len() > 0,
            ..self
        }
    }
}

/// Under unique surfaces, the window that shows the surface of the window at
/// `i` is the one at `i`.
pub proof fn lemma_unique_index(ws: Seq<Window>, i: int)
    requires
        surfaces_unique(ws),
        0 <= i < ws.len(),
    ensures
        first_index(ws, ws[i].surface) == i,
{
    assert forall|j: int| 0 <= j < i implies #[trigger] ws[j].surface != ws[i].surface by {
        assert(ws[j].surface != ws[i].surface);
    }
    lemma_first_index_at(ws, i);
}

/// Removing a window that was just added gives back the windows as they
/// were, where no window showed its surface before.
pub proof fn lemma_remove_undoes_add(m: WindowStack, window: Window)
    requires
        !shows(m.windows, window.surface),
    ensures
        m.added(window).removed(window.surface).windows == m.windows,
{
    let ws = m.windows.push(window);
    assert forall|j: int| 0 <= j < m.windows.len() implies #[trigger] ws[j].surface != ws[m.windows.len() as int].surface by {
        assert(ws[j] == m.windows[j]);
    }
    lemma_first_index_at(ws, m.windows.len() as int);
    assert(ws.remove(m.windows.len() as int) =~= m.windows);
}

/// With unique surfaces and a focused window, moving the focus down undoes
/// moving it up, and moving it up undoes moving it down.
pub proof fn lemma_prev_undoes_next(m: WindowStack)
    requires
        surfaces_unique(m.windows),
        m.focused is Some,
        m.focus_valid(),
    ensures
        m.next_focused().prev_focused().focused == m.focused,
        m.prev_focused().next_focused().focused == m.focused,
{
    let f = m.focused.unwrap();
    let ws = m.windows;
    let n = ws.len() as int;
    let k = choose|k: int| 0 <= k < n && #[trigger] ws[k].surface == f;
    lemma_unique_index(ws, k);
    lemma_mod_next(k, n);
    let nx = (k + 1) % n;
    lemma_unique_index(ws, nx);
    let pv = if k == 0 { n - 1 } else { k - 1 };
    lemma_unique_index(ws, pv);
    lemma_mod_next(pv, n);
    assert(m.next_focused().focused == Some(ws[nx].surface));
    if nx == 0 {
        assert(k == n - 1);
        assert(m.next_focused().prev_focused().focused == Some(ws[n - 1].surface));
    } else {
        assert(m.next_focused().prev_focused().focused == Some(ws[nx - 1].surface));
    }
    assert(m.prev_focused().focused == Some(ws[pv].surface));
}

/// The index after `k` among `n`, from the last back to the first.
pub proof fn lemma_mod_next(k: int, n: int)
    requires
        0 <= k < n,
    ensures
        (k + 1) % n == if k + 1 == n {
            0
        } else {
            k + 1
        },
{
    if k + 1 == n {
        assert((k + 1) % n == 0) by (nonlinear_arith)
            requires
                k + 1 == n,
                n > 0,
        ;
    } else {
        assert((k + 1) % n == k + 1) by (nonlinear_arith)
            requires
                0 <= k + 1 < n,
        ;
    }
}

/// Each change of the stack keeps the focus on a window that is there:
/// adding, removing, raising, moving the focus, setting a geometry and
/// dropping the focus.
pub proof fn lemma_focus_valid_preserved(
    m: WindowStack,
    window: Window,
    surface: SurfaceId,
    geometry: SurfaceGeometry,
)
    requires
        m.focus_valid(),
    ensures
        m.added(window).focus_valid(),
        m.removed(surface).focus_valid(),
        m.raised(surface).focus_valid(),
        m.next_focused().focus_valid(),
        m.prev_focused().focus_valid(),
        m.with_geometry(surface, geometry).focus_valid(),
        m.unfocused().focus_valid(),
{
    let ws = m.windows;
    lemma_first_index(ws, surface);
    let ws2 = ws.push(window);
    assert(ws2[ws.len() as int].surface == window.surface);
    if first_index(ws, surface) >= 0 {
        let i = first_index(ws, surface);
        let raised = ws.remove(i).push(ws[i]);
        assert(raised[ws.len() - 1].surface == surface);
    }
    if let Some(f) = m.focused {
        let k = choose|k: int| 0 <= k < ws.len() && #[trigger] ws[k].surface == f;
        assert(ws2[k].surface == f);
        let i = first_index(ws, surface);
        if i >= 0 {
            let r = ws.remove(i);
            if f != surface {
                if k < i {
                    assert(r[k].surface == f);
                } else {
                    assert(r[k - 1].surface == f);
                }
            } else {
                let nf = focus_after_removal(r, i);
                if r.len() > 0 {
                    if i < r.len() {
                        assert(r[i].surface == nf.unwrap());
                    } else {
                        assert(r[r.len() - 1].surface == nf.unwrap());
                    }
                }
            }
            let raised = r.push(ws[i]);
            assert(raised[r.len() as int].surface == surface);
            let upd = ws.update(i, Window { geometry, ..ws[i] });
            assert(upd[k].surface == f);
        }
        let j = first_index(ws, f);
        lemma_first_index(ws, f);
        if j >= 0 {
            let nx = (j + 1) % (ws.len() as int);
            assert(ws[nx].surface == m.next_focused().focused.unwrap());
            if j == 0 {
                assert(ws[ws.len() - 1].surface == m.prev_focused().focused.unwrap());
            } else {
                assert(ws[j - 1].surface == m.prev_focused().focused.unwrap());
            }
        }
    }
}

/// After removing the window of a surface, no window shows it, where no two
/// windows showed the same surface.
pub proof fn lemma_removed_gone(m: WindowStack, surface: SurfaceId)
    requires
        surfaces_unique(m.windows),
    ensures
        !shows(m.removed(surface).windows, surface),
{
    let ws = m.windows;
    lemma_first_index(ws, surface);
    let i = first_index(ws, surface);
    if i >= 0 {
        let r = ws.remove(i);
        assert forall|j: int| 0 <= j < r.len() implies #[trigger] r[j].surface != surface by {
            if j < i {
                assert(r[j] == ws[j]);
            } else {
                assert(r[j] == ws[j + 1]);
            }
        }
    }
}

/// Raising a window puts it on top, focused, and keeps the same surfaces
/// shown.
pub proof fn lemma_raised_on_top(m: WindowStack, surface: SurfaceId)
    requires
        shows(m.windows, surface),
    ensures
        m.raised(surface).windows.len() == m.windows.len(),
        m.raised(surface).windows.last().surface == surface,
        m.raised(surface).focused == Some(surface),
        forall|t: SurfaceId| shows(m.raised(surface).windows, t) <==> shows(m.windows, t),
{
    let ws = m.windows;
    lemma_first_index(ws, surface);
    let i = first_index(ws, surface);
    let r = ws.remove(i);
    let up = r.push(ws[i]);
    assert forall|t: SurfaceId| shows(up, t) <==> shows(ws, t) by {
        if shows(ws, t) {
            let k = choose|k: int| 0 <= k < ws.len() && #[trigger] ws[k].surface == t;
            if k < i {
                assert(up[k].surface == t);
            } else if k == i {
                assert(up[r.len() as int].surface == t);
            } else {
                assert(up[k - 1].surface == t);
            }
        }
        if shows(up, t) {
            let k = choose|k: int| 0 <= k < up.len() && #[trigger] up[k].surface == t;
            if k < i {
                assert(ws[k].surface == t);
            } else if k == r.len() {
                assert(ws[i].surface == t);
            } else {
                assert(ws[k + 1].surface == t);
            }
        }
    }
}

/// The index among `ws` of the kept window at `i`.
pub open spec fn kept_origin(ws: Seq<Window>, alive: Seq<bool>, i: int) -> int
    decreases ws.len(),
{
    if ws.len() == 0 {
        0
    } else if i < kept_windows(ws.drop_last(), alive).len() {
        kept_origin(ws.drop_last(), alive, i)
    } else {
        ws.len() - 1
    }
}

/// Every kept window is the window at its origin, and origins go up with the
/// kept windows.
pub proof fn lemma_kept_from(ws: Seq<Window>, alive: Seq<bool>)
    requires
        alive.len() >= ws.len(),
    ensures
        kept_windows(ws, alive).len() <= ws.len(),
        forall|i: int|
            0 <= i < kept_windows(ws, alive).len() ==> 0 <= #[trigger] kept_origin(ws, alive, i) < ws.len()
                && ws[kept_origin(ws, alive, i)] == kept_windows(ws, alive)[i],
        forall|a: int, b: int|
            0 <= a < b < kept_windows(ws, alive).len() ==> #[trigger] kept_origin(ws, alive, a)
                < #[trigger] kept_origin(ws, alive, b),
    decreases ws.len(),
{
    if ws.len() > 0 {
        let d = ws.drop_last();
        lemma_kept_from(d, alive);
        let k = kept_windows(ws, alive);
        let kd = kept_windows(d, alive);
        assert forall|i: int| 0 <= i < k.len() implies 0 <= #[trigger] kept_origin(ws, alive, i) < ws.len()
            && ws[kept_origin(ws, alive, i)] == k[i] by {
            if i < kd.len() {
                assert(kept_origin(d, alive, i) < d.len());
                assert(d[kept_origin(d, alive, i)] == ws[kept_origin(d, alive, i)]);
            }
        }
        assert forall|a: int, b: int| 0 <= a < b < k.len() implies #[trigger] kept_origin(ws, alive, a)
            < #[trigger] kept_origin(ws, alive, b) by {
            if b < kd.len() {
                assert(kept_origin(d, alive, a) < kept_origin(d, alive, b));
            } else {
                assert(kept_origin(d, alive, a) < d.len());
            }
        }
    }
}

/// Kept windows show distinct surfaces where the windows do.
pub proof fn lemma_kept_unique(ws: Seq<Window>, alive: Seq<bool>)
    requires
        alive.len() >= ws.len(),
        surfaces_unique(ws),
    ensures
        surfaces_unique(kept_windows(ws, alive)),
{
    lemma_kept_from(ws, alive);
    let k = kept_windows(ws, alive);
    assert forall|a: int, b: int|
        0 <= a < k.len() && 0 <= b < k.len() && a != b implies #[trigger] k[a].surface != #[trigger] k[b].surface by {
        let oa = kept_origin(ws, alive, a);
        let ob = kept_origin(ws, alive, b);
        if a < b {
            assert(oa < ob);
        } else {
            assert(ob < oa);
        }
        assert(ws[oa].surface != ws[ob].surface);
    }
}

/// A window whose flag is set is kept; the surface of one whose flag is not
/// set is among the dropped ones.
pub proof fn lemma_pruned_membership(ws: Seq<Window>, alive: Seq<bool>, j: int)
    requires
        alive.len() >= ws.len(),
        0 <= j < ws.len(),
    ensures
        alive[j] ==> shows(kept_windows(ws, alive), ws[j].surface),
        !alive[j] ==> dropped_surfaces(ws, alive).contains(ws[j].surface),
    decreases ws.len(),
{
    let d = ws.drop_last();
    let k = kept_windows(ws, alive);
    let kd = kept_windows(d, alive);
    let dr = dropped_surfaces(ws, alive);
    let drd = dropped_surfaces(d, alive);
    if j < ws.len() - 1 {
        lemma_pruned_membership(d, alive, j);
        assert(d[j] == ws[j]);
        if alive[j] {
            let i = choose|i: int| 0 <= i < kd.len() && #[trigger] kd[i].surface == ws[j].surface;
            assert(k[i] == kd[i]);
        } else {
            let i = choose|i: int| 0 <= i < drd.len() && drd[i] == ws[j].surface;
            assert(dr[i] == drd[i]);
        }
    } else {
        if alive[j] {
            assert(k[k.len() - 1] == ws[j]);
        } else {
            assert(dr[dr.len() - 1] == ws[j].surface);
        }
    }
}

/// The stack once the focus has moved up `k` times.
pub open spec fn next_focused_times(m: WindowStack, k: nat) -> WindowStack
    decreases k,
{
    if k == 0 {
        m
    } else {
        next_focused_times(m, (k - 1) as nat).next_focused()
    }
}

/// Moving the focus up `k` times from the window at `i` focuses the window
/// at `(i + k) mod n`, where no two windows show the same surface.
pub proof fn lemma_next_focused_times(m: WindowStack, i: int, k: nat)
    requires
        surfaces_unique(m.windows),
        0 <= i < m.windows.len(),
        m.focused == Some(m.windows[i].surface),
    ensures
        next_focused_times(m, k).windows == m.windows,
        next_focused_times(m, k).focused == Some(m.windows[(i + k) % (m.windows.len() as int)].surface),
    decreases k,
{
    let n = m.windows.len() as int;
    if k == 0 {
        vstd::arithmetic::div_mod::lemma_small_mod(i as nat, n as nat);
    } else {
        lemma_next_focused_times(m, i, (k - 1) as nat);
        let p = (i + k - 1) % n;
        assert(0 <= p < n) by {
            vstd::arithmetic::div_mod::lemma_mod_bound(i + k - 1, n);
        }
        lemma_unique_index(m.windows, p);
        vstd::arithmetic::div_mod::lemma_add_mod_noop_right(1, i + k - 1, n);
        assert(1 + p == p + 1);
        assert(1 + (i + k - 1) == i + k);
    }
}

/// Moving the focus up once per window brings it back to where it was,
/// where the focus is on a window and no two windows show the same surface.
pub proof fn lemma_focus_next_cycles(m: WindowStack)
    requires
        surfaces_unique(m.windows),
        m.focused is Some,
        m.focus_valid(),
    ensures
        next_focused_times(m, m.windows.len()).focused == m.focused,
{
    let f = m.focused.unwrap();
    let i = choose|i: int| 0 <= i < m.windows.len() && #[trigger] m.windows[i].surface == f;
    lemma_next_focused_times(m, i, m.windows.len());
    let n = m.windows.len() as int;
    vstd::arithmetic::div_mod::lemma_add_mod_noop_right(i, n, n);
    vstd::arithmetic::div_mod::lemma_mod_self_0(n);
    vstd::arithmetic::div_mod::lemma_small_mod(i as nat, n as nat);
}

/// Each change of the stack keeps its surfaces unique: removing, raising,
/// setting a geometry, moving the focus and pruning; adding too, where the
/// new window's surface was not shown.
pub proof fn lemma_unique_preserved(
    m: WindowStack,
    window: Window,
    surface: SurfaceId,
    geometry: SurfaceGeometry,
    alive: Seq<bool>,
)
    requires
        surfaces_unique(m.windows),
    ensures
        surfaces_unique(m.removed(surface).windows),
        surfaces_unique(m.raised(surface).windows),
        surfaces_unique(m.with_geometry(surface, geometry).windows),
        surfaces_unique(m.next_focused().windows),
        surfaces_unique(m.prev_focused().windows),
        !shows(m.windows, window.surface) ==> surfaces_unique(m.added(window).windows),
        alive.len() == m.windows.len() ==> surfaces_unique(m.pruned(alive).windows),
{
    let ws = m.windows;
    lemma_first_index(ws, surface);
    let i = first_index(ws, surface);
    if i >= 0 {
        let r = ws.remove(i);
        assert forall|a: int, b: int|
            0 <= a < r.len() && 0 <= b < r.len() && a != b implies #[trigger] r[a].surface
                != #[trigger] r[b].surface by {
            let a2 = if a < i { a } else { a + 1 };
            let b2 = if b < i { b } else { b + 1 };
            assert(r[a] == ws[a2] && r[b] == ws[b2]);
        }
        let up = r.push(ws[i]);
        assert forall|a: int, b: int|
            0 <= a < up.len() && 0 <= b < up.len() && a != b implies #[trigger] up[a].surface
                != #[trigger] up[b].surface by {
            let a2 = if a == r.len() { i } else if a < i { a } else { a + 1 };
            let b2 = if b == r.len() { i } else if b < i { b } else { b + 1 };
            assert(up[a] == ws[a2] && up[b] == ws[b2]);
        }
        let g = ws.update(i, Window { geometry, ..ws[i] });
        assert forall|a: int, b: int|
            0 <= a < g.len() && 0 <= b < g.len() && a != b implies #[trigger] g[a].surface
                != #[trigger] g[b].surface by {
            assert(g[a].surface == ws[a].surface && g[b].surface == ws[b].surface);
        }
    }
    let ad = ws.push(window);
    if !shows(ws, window.surface) {
        assert forall|a: int, b: int|
            0 <= a < ad.len() && 0 <= b < ad.len() && a != b implies #[trigger] ad[a].surface
                != #[trigger] ad[b].surface by {
            if a < ws.len() && b < ws.len() {
                assert(ad[a] == ws[a] && ad[b] == ws[b]);
            } else if a < ws.len() {
                assert(ad[a] == ws[a]);
            } else {
                assert(ad[b] == ws[b]);
            }
        }
    }
    if alive.len() == ws.len() {
        lemma_kept_unique(ws, alive);
    }
}

/// The windows of the compositor, which of them is focused and whether the
/// layout must be recomputed.
pub struct ServerState {
    /// The windows from bottom to top.
    pub windows: Vec<Window>,
    pub focused_window: Option<SurfaceId>,
    pub layout_dirty: bool,
}

impl View for ServerState {
    type V = WindowStack;

    open spec fn view(&self) -> WindowStack {
        WindowStack { windows: self.windows@, focused: self.focused_window, layout_dirty: self.layout_dirty }
    }
}

impl ServerState {
    /// No windows, nothing focused, a layout to compute.
    pub fn new() -> (s: Self)
        ensures
            s@.windows == Seq::<Window>::empty(),
            s@.focused is None,
            s@.layout_dirty,
    {
        ServerState { windows: Vec::new(), focused_window: None, layout_dirty: true }
    }

    /// The index of the first window that shows `surface`.
    pub fn position(&self, surface: SurfaceId) -> (r: Option<usize>)
        ensures
            r is None <==> first_index(self@.windows, surface) < 0,
            r matches Some(i) ==> i == first_index(self@.windows, surface) && i < self@.windows.len()
                && self@.windows[i as int].surface == surface,
    {
        proof {
            lemma_first_index(self@.windows, surface);
        }
        let n = self.windows.len();
        let mut i: usize = 0;
        while i < n
            invariant
                n == self.windows@.len(),
                i <= n,
                forall|j: int| 0 <= j < i ==> #[trigger] self.windows@[j].surface != surface,
            decreases n - i,
        {
            if self.windows[i].surface == surface {
                proof {
                    lemma_first_index_at(self.windows@, i as int);
                }
                return Some(i);
            }
            i = i + 1;
        }
        None
    }

    /// Takes out the windows whose flag in `alive` (one per window, in
    /// order) is not set and hands back their surfaces; marks the layout
    /// dirty where any went. The focus stays as it was.
    pub fn prune(&mut self, alive: &Vec<bool>) -> (removed: Vec<SurfaceId>)
        requires
            alive@.len() == old(self).windows@.len(),
        ensures
            final(self)@ == old(self)@.pruned(alive@),
            removed@ == dropped_surfaces(old(self)@.windows, alive@),
    {
        let ghost ws = self.windows@;
        let n = self.windows.len();
        let mut kept: Vec<Window> = Vec::new();
        let mut removed: Vec<SurfaceId> = Vec::new();
        let mut i: usize = 0;
        while i < n
            invariant
                n == ws.len(),
                ws == self.windows@,
                alive@.len() == n,
                i <= n,
                kept@ == kept_windows(ws.take(i as int), alive@),
                removed@ == dropped_surfaces(ws.take(i as int), alive@),
            decreases n - i,
        {
            proof {
                assert(ws.take(i + 1).drop_last() =~= ws.take(i as int));
            }
            let w = self.windows[i];
            if alive[i] {
                kept.push(w);
            } else {
                removed.push(w.surface);
            }
            i = i + 1;
        }
        assert(ws.take(n as int) =~= ws);
        self.windows = kept;
        if removed.len() > 0 {
            self.mark_layout_dirty();
        }
        removed
    }

    /// Adds `window` on top and focuses it.
    pub fn add_window(&mut self, window: Window)
        ensures
            final(self)@ == old(self)@.added(window),
    {
        self.focused_window = Some(window.surface);
        self.windows.push(window);
        self.mark_layout_dirty();
    }

    /// Removes the first window that shows `surface` and hands back what is
    /// focused then; where it was focused, the focus goes to the window that
    /// took its place, or to the new top window where it was the top one.
    /// Where no window shows `surface`, nothing changes and the result is
    /// `None`.
    pub fn remove_window_by_surface(&mut self, surface: SurfaceId) -> (focus: Option<SurfaceId>)
        ensures
            final(self)@ == old(self)@.removed(surface),
            focus == old(self)@.removal_focus(surface),
    {
        let removed_index = match self.position(surface) {
            Some(i) => i,
            None => return None,
        };
        let removed_was_focused = match self.focused_window {
            Some(f) => f == surface,
            None => false,
        };
        self.windows.remove(removed_index);
        let new_focus = if removed_was_focused {
            match self.focus_target_after_removal_prefer_next(removed_index) {
                Some(window) => Some(window.surface()),
                None => None,
            }
        } else {
            self.focused_window
        };
        self.focused_window = new_focus;
        self.mark_layout_dirty();
        new_focus
    }

    fn focus_target_after_removal_prefer_next(&self, removed_index: usize) -> (w: Option<&Window>)
        ensures
            focus_after_removal(self@.windows, removed_index as int) matches Some(s) ==> w matches Some(
                win,
            ) && win.surface == s,
            focus_after_removal(self@.windows, removed_index as int) is None ==> w is None,
    {
        if self.windows.len() == 0 {
            return None;
        }
        let focus_index = if removed_index < self.windows.len() {
            removed_index
        } else {
            self.windows.len() - 1
        };
        Some(&self.windows[focus_index])
    }

    /// The first window that shows `surface`.
    pub fn window_for_surface(&self, surface: SurfaceId) -> (w: Option<&Window>)
        ensures
            first_index(self@.windows, surface) < 0 ==> w is None,
            first_index(self@.windows, surface) >= 0 ==> w == Some(
                &self@.windows[first_index(self@.windows, surface)],
            ),
    {
        match self.position(surface) {
            Some(i) => Some(&self.windows[i]),
            None => None,
        }
    }

    /// The first window that shows `surface`, to change in place.
    pub fn window_for_surface_mut(&mut self, surface: SurfaceId) -> (w: Option<&mut Window>)
        ensures
            first_index(old(self)@.windows, surface) < 0 ==> w is None && *final(self) == *old(self),
            first_index(old(self)@.windows, surface) >= 0 ==> {
                let i = first_index(old(self)@.windows, surface);
                &&& w is Some
                &&& *w.unwrap() == old(self)@.windows[i]
                &&& final(self).windows@ == old(self).windows@.update(i, *final(w.unwrap()))
                &&& final(self).focused_window == old(self).focused_window
                &&& final(self).layout_dirty == old(self).layout_dirty
            },
    {
        match self.position(surface) {
            Some(i) => Some(&mut self.windows[i]),
            None => None,
        }
    }

    /// The geometry of the first window that shows `surface`.
    pub fn geometry_for_surface(&self, surface: SurfaceId) -> (g: Option<SurfaceGeometry>)
        ensures
            first_index(self@.windows, surface) < 0 ==> g is None,
            first_index(self@.windows, surface) >= 0 ==> g == Some(
                self@.windows[first_index(self@.windows, surface)].geometry,
            ),
    {
        match self.window_for_surface(surface) {
            Some(window) => Some(window.geometry),
            None => None,
        }
    }

    /// The geometry of the first window that shows `surface`, or the default
    /// geometry (at the origin, of no size) where no window shows it.
    pub fn geometry_for_surface_or_default(&self, surface: SurfaceId) -> (g: SurfaceGeometry)
        ensures
            first_index(self@.windows, surface) < 0 ==> g == SurfaceGeometry::default_spec(),
            first_index(self@.windows, surface) >= 0 ==> g == self@.windows[first_index(
                self@.windows,
                surface,
            )].geometry,
    {
        match self.geometry_for_surface(surface) {
            Some(g) => g,
            None => SurfaceGeometry::default(),
        }
    }

    /// Gives the first window that shows `surface` the geometry `geometry`;
    /// nothing changes where no window shows it.
    pub fn set_geometry_for_surface(&mut self, surface: SurfaceId, geometry: SurfaceGeometry)
        ensures
            final(self)@ == old(self)@.with_geometry(surface, geometry),
    {
        match self.position(surface) {
            Some(i) => {
                let window = self.windows[i];
                self.windows.set(i, Window { geometry, ..window });
            },
            None => {},
        }
    }

    pub fn is_focused(&self, surface: SurfaceId) -> (b: bool)
        ensures
            b == (self@.focused == Some(surface)),
    {
        match self.focused_window {
            Some(f) => f == surface,
            None => false,
        }
    }

    pub fn set_focused_surface(&mut self, surface: Option<SurfaceId>)
        ensures
            final(self)@ == (WindowStack { focused: surface, ..old(self)@ }),
    {
        self.focused_window = surface;
    }

    /// Focuses the window that shows `surface` and raises it to the top;
    /// nothing changes where no window shows it.
    pub fn focus_window(&mut self, surface: SurfaceId)
        ensures
            final(self)@ == old(self)@.raised(surface),
    {
        match self.position(surface) {
            Some(index) => {
                self.focused_window = Some(surface);
                let window = self.windows.remove(index);
                self.windows.push(window);
                self.mark_layout_dirty();
            },
            None => {},
        }
    }

    /// The windows from bottom to top.
    pub fn iter_windows_bottom_to_top(&self) -> (ws: Vec<Window>)
        ensures
            ws@ == self@.windows,
    {
        self.windows.clone()
    }

    /// The windows from top to bottom.
    pub fn iter_windows_top_to_bottom(&self) -> (ws: Vec<Window>)
        ensures
            ws@ == self@.windows.reverse(),
    {
        let n = self.windows.len();
        let mut ws: Vec<Window> = Vec::new();
        let mut i: usize = n;
        while i > 0
            invariant
                n == self.windows@.len(),
                i <= n,
                ws@ == self.windows@.subrange(i as int, n as int).reverse(),
            decreases i,
        {
            i = i - 1;
            ws.push(self.windows[i]);
            assert(ws@ =~= self.windows@.subrange(i as int, n as int).reverse());
        }
        assert(self.windows@.subrange(0, n as int) =~= self.windows@);
        ws
    }

    /// A layer surface is gone: the focus goes where it was on it, and the
    /// layout is dirty.
    pub fn layer_destroyed(&mut self, surface: SurfaceId)
        ensures
            final(self)@ == (WindowStack {
                focused: if old(self)@.focused == Some(surface) {
                    None
                } else {
                    old(self)@.focused
                },
                layout_dirty: true,
                ..old(self)@
            }),
    {
        if self.is_focused(surface) {
            self.set_focused_surface(None);
        }
        self.mark_layout_dirty();
    }

    pub fn mark_layout_dirty(&mut self)
        ensures
            final(self)@ == (WindowStack { layout_dirty: true, ..old(self)@ }),
    {
        self.layout_dirty = true;
    }
}

} // verus!
