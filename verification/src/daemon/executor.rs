use vstd::prelude::*;

use crate::cmd::{Cmd, LayoutCmd};
use crate::server::state::{first_index, WindowStack};
use crate::server::ServerState;
use crate::surface::SurfaceId;

verus! {

/// Runs commands.
pub trait CommandExecutor<C> {
    fn execute(&mut self, command: &C);
}

/// The command that runs once every confirmation is given: the prompt always
/// agrees (see `Cmd::show_prompt`), so a confirmed command is its inner one.
pub open spec fn resolved(c: Cmd) -> Cmd
    decreases c,
{
    match c {
        Cmd::ConfirmCommand(_, next) => resolved(*next),
        _ => c,
    }
}

/// Whether the window manager can run the command: focus moves, spawning,
/// closing and exiting; the other layout and workspace commands are not
/// implemented.
pub open spec fn executable(c: Cmd) -> bool {
    match resolved(c) {
        Cmd::Layout(l) => l == LayoutCmd::FocusNext || l == LayoutCmd::FocusPrev,
        Cmd::GoToWorkSpace(_) => false,
        Cmd::MoveFocusedWindowToWorkSpace(_) => false,
        _ => true,
    }
}

/// What running the command does to the windows: focus moves for the focus
/// commands, nothing for the others.
pub open spec fn executed(m: WindowStack, c: Cmd) -> WindowStack {
    match resolved(c) {
        Cmd::Layout(LayoutCmd::FocusNext) => m.next_focused(),
        Cmd::Layout(LayoutCmd::FocusPrev) => m.prev_focused(),
        _ => m,
    }
}

/// The window to close for `CloseFocused`: the focused one, where a window
/// shows it.
pub open spec fn close_target(m: WindowStack) -> Option<SurfaceId> {
    match m.focused {
        Some(f) => if first_index(m.windows, f) >= 0 {
            Some(f)
        } else {
            None
        },
        None => None,
    }
}

/// What the caller is to do outside the window list after a command.
#[derive(Debug)]
pub enum CommandEffect<'a> {
    Nothing,
    /// Start the program of these segments.
    Spawn(&'a Vec<String>),
    /// Ask the client of this surface to close its window.
    Close(SurfaceId),
}

impl Cmd {
    /// The command that runs once every confirmation is given.
    pub fn resolve(&self) -> (c: &Cmd)
        ensures
            *c == resolved(*self),
        decreases self,
    {
        match self {
            Cmd::ConfirmCommand(prompt, next) => {
                if Cmd::show_prompt(prompt.as_str()) {
                    next.resolve()
                } else {
                    self
                }
            },
            _ => self,
        }
    }
}

impl ServerState {
    /// Runs `command`: focus commands move the focus; `Spawn` and
    /// `CloseFocused` hand back what the caller is to do; a confirmed command
    /// runs its inner one; `Exit` does nothing here.
    pub fn execute_command<'a>(&mut self, command: &'a Cmd) -> (effect: CommandEffect<'a>)
        requires
            executable(*command),
        ensures
            final(self)@ == executed(old(self)@, *command),
            resolved(*command) matches Cmd::Spawn(args) ==> (effect matches CommandEffect::Spawn(a) && *a
                == args),
            resolved(*command) is CloseFocused ==> (match close_target(old(self)@) {
                Some(s) => effect == CommandEffect::Close(s),
                None => effect == CommandEffect::Nothing,
            }),
            !(resolved(*command) is Spawn) && !(resolved(*command) is CloseFocused) ==> effect
                == CommandEffect::Nothing,
    {
        let command = command.resolve();
        match command {
            Cmd::Spawn(args) => CommandEffect::Spawn(args),
            Cmd::Layout(LayoutCmd::FocusNext) => {
                self.focus_next();
                CommandEffect::Nothing
            },
            Cmd::Layout(LayoutCmd::FocusPrev) => {
                self.focus_prev();
                CommandEffect::Nothing
            },
            Cmd::CloseFocused => match self.close_focused_window() {
                Some(s) => CommandEffect::Close(s),
                None => CommandEffect::Nothing,
            },
            _ => CommandEffect::Nothing,
        }
    }
}

} // verus!
