use vstd::prelude::*;

use crate::server::state::{first_index, lemma_first_index, lemma_focus_valid_preserved, WindowStack};
use crate::server::ServerState;
use crate::surface::SurfaceId;

verus! {

/// Whether the window at `i` shows the focused surface and is alive.
pub open spec fn focused_alive_at(m: WindowStack, alive: Seq<bool>, i: int) -> bool {
    &&& 0 <= i < m.windows.len()
    &&& m.focused == Some(m.windows[i].surface)
    &&& alive[i]
}

/// Whether some window shows the focused surface and is alive.
pub open spec fn focus_still_valid(m: WindowStack, alive: Seq<bool>) -> bool {
    exists|i: int| #[trigger] focused_alive_at(m, alive, i)
}

/// What the focus becomes when the window manager makes sure that a window is
/// focused: nothing where there are no clients; otherwise, where the focused
/// window is gone or dead, the next one up.
pub open spec fn ensured_focus(m: WindowStack, has_clients: bool, alive: Seq<bool>) -> WindowStack {
    if !has_clients {
        m.unfocused()
    } else if focus_still_valid(m, alive) {
        m
    } else {
        m.next_focused()
    }
}

/// Making sure that a window is focused keeps the focus on a window that is
/// there, and leaves a focus on a live window as it is.
pub proof fn lemma_ensured_focus_valid(m: WindowStack, has_clients: bool, alive: Seq<bool>)
    ensures
        m.focus_valid() ==> ensured_focus(m, has_clients, alive).focus_valid(),
        has_clients && focus_still_valid(m, alive) ==> ensured_focus(m, has_clients, alive) == m,
        !has_clients ==> ensured_focus(m, has_clients, alive).focused is None,
{
    if m.focus_valid() {
        lemma_focus_valid_preserved(m, m.windows[0], 0, crate::geometry::SurfaceGeometry::default_spec());
    }
}

/// Moves the keyboard focus between windows.
pub trait FocusHandler {
    fn ensure_a_window_is_focused(&mut self) {
    }

    fn focus_next(&mut self) {
    }

    fn focus_prev(&mut self) {
    }
}

impl ServerState {
    /// Focuses `surface` without raising it and marks the layout dirty.
    pub fn focus_surface(&mut self, surface: SurfaceId)
        ensures
            final(self)@ == old(self)@.focused_on(surface),
    {
        self.set_focused_surface(Some(surface));
        self.mark_layout_dirty();
    }

    /// Drops the focus and marks the layout dirty; nothing changes where
    /// nothing is focused.
    pub fn clear_focus(&mut self)
        ensures
            final(self)@ == old(self)@.unfocused(),
    {
        if self.focused_window.is_none() {
            return;
        }
        self.set_focused_surface(None);
        self.mark_layout_dirty();
    }

    /// Whether a window shows the focused surface and is alive (`alive` holds
    /// one flag per window, in order).
    pub fn focused_window_still_valid(&self, alive: &Vec<bool>) -> (b: bool)
        requires
            alive@.len() == self@.windows.len(),
        ensures
            b == focus_still_valid(self@, alive@),
    {
        let focused = match self.focused_window {
            Some(f) => f,
            None => return false,
        };
        let n = self.windows.len();
        let mut i: usize = 0;
        while i < n
            invariant
                n == self@.windows.len(),
                alive@.len() == n,
                i <= n,
                self@.focused == Some(focused),
                forall|j: int| 0 <= j < i ==> !#[trigger] focused_alive_at(self@, alive@, j),
            decreases n - i,
        {
            if self.windows[i].surface == focused && alive[i] {
                assert(focused_alive_at(self@, alive@, i as int));
                return true;
            }
            i = i + 1;
        }
        false
    }

    /// Makes sure that a window is focused: drops the focus where there are
    /// no clients, and moves it to the next window up where the focused
    /// window is gone or dead.
    pub fn ensure_focus(&mut self, has_clients: bool, alive: &Vec<bool>)
        requires
            alive@.len() == old(self)@.windows.len(),
        ensures
            final(self)@ == ensured_focus(old(self)@, has_clients, alive@),
    {
        if !has_clients {
            return self.clear_focus();
        }
        if !self.focused_window_still_valid(alive) {
            self.focus_next();
        }
    }

    /// The surface of the focused window, which the caller is to close; none
    /// where nothing is focused or no window shows the focused surface.
    pub fn close_focused_window(&self) -> (s: Option<SurfaceId>)
        ensures
            s == (match self@.focused {
                Some(f) => if first_index(self@.windows, f) >= 0 {
                    Some(f)
                } else {
                    None
                },
                None => None,
            }),
    {
        let focused = match self.focused_window {
            Some(f) => f,
            None => return None,
        };
        proof {
            lemma_first_index(self@.windows, focused);
        }
        match self.window_for_surface(focused) {
            Some(window) => Some(window.surface()),
            None => None,
        }
    }
}

impl ServerState {
    /// Focuses the next window up, from the top back to the bottom.
    pub fn focus_next(&mut self)
        ensures
            final(self)@ == old(self)@.next_focused(),
    {
        let focused = match self.focused_window {
            Some(f) => f,
            None => return,
        };
        let current_index = match self.position(focused) {
            Some(i) => i,
            None => return,
        };
        assert(current_index < self.windows.len());
        let next_index = (current_index + 1) % self.windows.len();
        let next_surface = self.windows[next_index].surface;
        self.focus_surface(next_surface);
    }

    /// Focuses the next window down, from the bottom back to the top.
    pub fn focus_prev(&mut self)
        ensures
            final(self)@ == old(self)@.prev_focused(),
    {
        let focused = match self.focused_window {
            Some(f) => f,
            None => return,
        };
        match self.position(focused) {
            Some(0) => {
                let last_index = self.windows.len() - 1;
                let previous_surface = self.windows[last_index].surface;
                self.focus_surface(previous_surface);
            },
            Some(i) => {
                let previous_surface = self.windows[i - 1].surface;
                self.focus_surface(previous_surface);
            },
            None => {},
        }
    }
}

} // verus!
