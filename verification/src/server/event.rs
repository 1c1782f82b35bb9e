use vstd::prelude::*;

use crate::cmd::Cmd;
use crate::geometry::SurfacePhysicalSize;

verus! {

/// An input event, with what the window manager reads of it.
#[derive(Debug, Clone, Copy, PartialEq, Eq, Structural)]
pub enum InputEvent {
    Keyboard { time: u64, key: u32, pressed: bool },
    PointerAxis { time: u64 },
    PointerButton { time: u64, button_code: u32, pressed: bool },
    PointerMotionAbsolute { time: u64 },
    Unimplemented,
}

/// An event from the backend.
#[derive(Debug, Clone, Copy, PartialEq, Eq, Structural)]
pub enum BackendEvent {
    Resize { size: SurfacePhysicalSize },
    FocusGained,
    FocusLost,
    Input(InputEvent),
    Redraw,
    CloseRequested,
}

/// What to do with an event from the backend.
#[derive(Debug)]
pub enum EventAction {
    /// Nothing.
    Ignore,
    /// Pass a key to the keyboard; its bindings decide whether a command
    /// comes of it.
    Keyboard { time: u64, key: u32, pressed: bool },
    /// Run a command.
    Command(Cmd),
}

/// What each event from the backend leads to: a key goes to the keyboard, a
/// request to close the backend window is the command to exit with 0, and
/// the others (resize, focus, redraw, pointer) lead to nothing.
pub fn route_backend_event(event: &BackendEvent) -> (action: EventAction)
    ensures
        event matches BackendEvent::Input(InputEvent::Keyboard { time, key, pressed }) ==> action
            == (EventAction::Keyboard { time: *time, key: *key, pressed: *pressed }),
        (event matches BackendEvent::CloseRequested) ==> (action matches EventAction::Command(Cmd::Exit(0))),
        !(event matches BackendEvent::Input(InputEvent::Keyboard { .. })) && !(event matches BackendEvent::CloseRequested)
            ==> (action matches EventAction::Ignore),
{
    match event {
        BackendEvent::Input(InputEvent::Keyboard { time, key, pressed }) => EventAction::Keyboard {
            time: *time,
            key: *key,
            pressed: *pressed,
        },
        BackendEvent::CloseRequested => EventAction::Command(Cmd::Exit(0)),
        _ => EventAction::Ignore,
    }
}

/// Handles the events of the backend; by default an event leads to no
/// command.
pub trait BackendEventHandler {
    fn handle_backend_event(&mut self, _event: &BackendEvent) -> (c: Option<Cmd>)
        default_ensures
            c is None,
    {
        None
    }
}

} // verus!
