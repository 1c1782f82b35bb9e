pub mod client;
pub mod event;
pub mod executor;
pub mod focus;
pub mod keyboard;
pub mod layout;
pub mod window;

pub use client::ClientConnectionManager;
pub use event::EventProcessor;
pub use executor::{CommandEffect, CommandExecutor};
pub use focus::FocusHandler;
pub use keyboard::Keybinds;
pub use layout::WindowArranger;
pub use window::WindowManager;

use vstd::prelude::*;

use crate::server::state::{dropped_surfaces, lemma_pruned_membership, shows, WindowStack};
use crate::server::ServerState;

verus! {

/// Why the daemon stopped.
#[derive(Debug, Clone, Copy, PartialEq, Eq, Structural)]
pub enum DaemonExit {
    Requested(i32),
}

/// Why the daemon could not run.
#[derive(Debug)]
pub enum DaemonRunError {
    SignalInit(std::io::Error),
}

/// The stack once the windows whose flag in `alive` is not set are gone and,
/// where the focused one was among them, nothing is focused.
pub open spec fn pruned_dead(m: WindowStack, alive: Seq<bool>) -> WindowStack {
    let p = m.pruned(alive);
    match m.focused {
        Some(f) => if dropped_surfaces(m.windows, alive).contains(f) {
            p.unfocused()
        } else {
            p
        },
        None => p,
    }
}

impl ServerState {
    /// Takes out the windows whose flag in `alive` (one per window, in order)
    /// is not set and drops the focus where it was on one of them; tells
    /// whether the focus was dropped.
    pub fn prune_dead_windows(&mut self, alive: &Vec<bool>) -> (focus_cleared: bool)
        requires
            alive@.len() == old(self)@.windows.len(),
        ensures
            final(self)@ == pruned_dead(old(self)@, alive@),
            focus_cleared == (old(self)@.focused matches Some(f) && dropped_surfaces(
                old(self)@.windows,
                alive@,
            ).contains(f)),
    {
        let removed = self.prune(alive);
        let mut cleared = false;
        let n = removed.len();
        let mut i: usize = 0;
        while i < n
            invariant
                n == removed@.len(),
                i <= n,
                self@.windows == old(self)@.pruned(alive@).windows,
                self@.layout_dirty == old(self)@.pruned(alive@).layout_dirty || cleared,
                cleared ==> self@.focused is None && self@.layout_dirty,
                cleared == (old(self)@.focused matches Some(f) && removed@.take(i as int).contains(f)),
                !cleared ==> self@.focused == old(self)@.focused,
            decreases n - i,
        {
            let surface = removed[i];
            let hit = match self.focused_window {
                Some(f) => f == surface,
                None => false,
            };
            if hit {
                self.clear_focus();
                cleared = true;
            }
            proof {
                assert(removed@.take(i + 1) =~= removed@.take(i as int).push(surface));
                if !cleared {
                    if let Some(f) = old(self)@.focused {
                        assert(!removed@.take(i as int).contains(f));
                        assert(f != surface);
                        assert(!removed@.take(i + 1).contains(f));
                    }
                } else if let Some(f) = old(self)@.focused {
                    if removed@.take(i as int).contains(f) {
                        let w = choose|w: int| 0 <= w < i && removed@.take(i as int)[w] == f;
                        assert(removed@.take(i + 1)[w] == f);
                    } else {
                        assert(removed@.take(i + 1)[i as int] == f);
                    }
                }
            }
            i = i + 1;
        }
        assert(removed@.take(n as int) =~= removed@);
        if removed.len() > 0 {
            self.mark_layout_dirty();
        }
        cleared
    }
}

/// Pruning dead windows keeps the focus on a window that is there: where the
/// focused window was dead, nothing is focused after.
pub proof fn lemma_pruned_dead_focus_valid(m: WindowStack, alive: Seq<bool>)
    requires
        m.focus_valid(),
        alive.len() == m.windows.len(),
    ensures
        pruned_dead(m, alive).focus_valid(),
{
    if let Some(f) = m.focused {
        if !dropped_surfaces(m.windows, alive).contains(f) {
            let j = choose|j: int| 0 <= j < m.windows.len() && #[trigger] m.windows[j].surface == f;
            lemma_pruned_membership(m.windows, alive, j);
        }
    }
}

} // verus!
