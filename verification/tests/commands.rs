use geswm::cmd::{Cmd, CommandExecutionError, LayoutCmd};
use geswm::server::event::{route_backend_event, EventAction};
use geswm::server::{BackendEvent, InputEvent};
use geswm::geometry::Size;

#[test]
fn spawn_from_args() {
    let cmd = Cmd::from(vec!["rofi", "-show", "drun"]);
    match cmd {
        Cmd::Spawn(args) => assert_eq!(args, vec!["rofi", "-show", "drun"]),
        _ => panic!("expected spawn"),
    }
    match Cmd::from("alacritty") {
        Cmd::Spawn(args) => assert_eq!(args, vec!["alacritty"]),
        _ => panic!("expected spawn"),
    }
}

#[test]
fn command_line_splits_program_and_args() {
    let segments = vec!["rofi".to_string(), "-show".to_string(), "drun".to_string()];
    let (command, args) = Cmd::command_and_args(&segments).unwrap();
    assert_eq!(command, "rofi");
    assert_eq!(args, &["-show".to_string(), "drun".to_string()]);
}

#[test]
fn empty_command_line_is_no_command() {
    let segments: Vec<String> = Vec::new();
    assert!(matches!(Cmd::command_and_args(&segments), Err(CommandExecutionError::NoCommand)));
}

#[test]
fn prompt_always_agrees() {
    assert!(Cmd::show_prompt("really?"));
}

#[test]
fn command_texts() {
    assert_eq!(Cmd::from(vec!["rofi", "-show", "drun"]).to_string(), "Spawn('rofi -show drun')");
    assert_eq!(Cmd::Layout(LayoutCmd::SendDown).to_string(), "Layout::SendDown");
    assert_eq!(Cmd::CloseFocused.to_string(), "CloseFocused");
    assert_eq!(Cmd::Exit(-3).to_string(), "Exit(-3)");
    assert_eq!(Cmd::GoToWorkSpace(12).to_string(), "GoToWorkSpace(12)");
    assert_eq!(Cmd::MoveFocusedWindowToWorkSpace(0).to_string(), "MoveFocusedWindowToWorkSpace(0)");
    assert_eq!(Cmd::Exit(i32::MIN).to_string(), "Exit(-2147483648)");
}

#[test]
fn command_texts_match_debug() {
    let confirmed = Cmd::ConfirmCommand(
        "say \"yes\"".to_string(),
        Box::new(Cmd::Spawn(vec!["a b".to_string(), "c".to_string()])),
    );
    assert_eq!(confirmed.to_string(), format!("{:?}", confirmed));
    assert_eq!(confirmed.to_string(), "ConfirmCommand(\"say \\\"yes\\\"\", Spawn([\"a b\", \"c\"]))");
    let nested = Cmd::ConfirmCommand("x".to_string(), Box::new(Cmd::Layout(LayoutCmd::Grow)));
    assert_eq!(nested.to_string(), format!("{:?}", nested));
}

#[test]
fn events_route_to_keyboard_or_exit() {
    let key = BackendEvent::Input(InputEvent::Keyboard { time: 5000, key: 36, pressed: true });
    match route_backend_event(&key) {
        EventAction::Keyboard { time, key, pressed } => {
            assert_eq!((time, key, pressed), (5000, 36, true));
        }
        _ => panic!("expected keyboard"),
    }
    assert!(matches!(route_backend_event(&BackendEvent::CloseRequested), EventAction::Command(Cmd::Exit(0))));
    assert!(matches!(route_backend_event(&BackendEvent::Redraw), EventAction::Ignore));
    assert!(matches!(
        route_backend_event(&BackendEvent::Resize { size: Size { w: 1, h: 1 } }),
        EventAction::Ignore
    ));
    assert!(matches!(
        route_backend_event(&BackendEvent::Input(InputEvent::PointerAxis { time: 1 })),
        EventAction::Ignore
    ));
}
