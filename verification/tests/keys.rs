use geswm::cmd::{Cmd, LayoutCmd};
use geswm::daemon::Keybinds;
use geswm::input::{Key, KeyModifiers};

fn mods(shift: bool, ctrl: bool, alt: bool, logo: bool) -> KeyModifiers {
    KeyModifiers { shift, ctrl, alt, logo }
}

#[test]
fn with_modifiers_sets_bits() {
    assert_eq!(Key::with_modifiers(Key::Return, &mods(false, false, false, false)), 36);
    assert_eq!(Key::with_modifiers(Key::Return, &mods(true, false, false, false)), 36 | Key::Shift);
    assert_eq!(
        Key::with_modifiers(Key::D, &mods(true, true, true, true)),
        40 | Key::Shift | Key::Ctrl | Key::Alt | Key::Super
    );
}

#[test]
fn display_plain_key() {
    assert_eq!(Key::display(Key::Return), "0x0024");
    assert_eq!(Key::display(0), "0x0000");
    assert_eq!(Key::display(0xabcde), "0xabcde");
    assert_eq!(Key::display(0x123), "0x0123");
}

#[test]
fn display_with_modifiers_in_order() {
    assert_eq!(Key::display(Key::Return | Key::Shift), "Shift+0x0024");
    assert_eq!(Key::display(Key::Q | Key::Shift | Key::Super), "Super+Shift+0x0018");
    assert_eq!(
        Key::display(Key::A | Key::Shift | Key::Ctrl | Key::Alt | Key::Super),
        "Super+Alt+Ctrl+Shift+0x0026"
    );
}

#[test]
fn display_keeps_low_24_bits() {
    assert_eq!(Key::display(0x0F12_3456), "0x123456");
}

#[test]
fn display_of_key_read_with_modifiers() {
    let key = Key::with_modifiers(Key::D, &mods(true, false, true, false));
    assert_eq!(Key::display(key), "Alt+Shift+0x0028");
}

#[test]
fn bind_then_press_gives_command() {
    let mut binds = Keybinds::new();
    let key = Key::Q | Key::Shift;
    assert!(!binds.bind(key, Cmd::CloseFocused));
    let cmd = binds.on_key(true, Key::Q, &mods(true, false, false, false));
    assert!(matches!(cmd, Some(Cmd::CloseFocused)));
    assert!(binds.on_key(false, Key::Q, &mods(true, false, false, false)).is_none());
    assert!(binds.on_key(true, Key::Q, &mods(false, false, false, false)).is_none());
}

#[test]
fn rebinding_replaces_command() {
    let mut binds = Keybinds::new();
    binds.bind(Key::J, Cmd::Layout(LayoutCmd::FocusNext));
    binds.bind(Key::K, Cmd::Layout(LayoutCmd::FocusPrev));
    assert!(binds.bind(Key::J, Cmd::Exit(1)));
    assert!(matches!(binds.get(Key::J), Some(Cmd::Exit(1))));
    assert!(matches!(binds.get(Key::K), Some(Cmd::Layout(LayoutCmd::FocusPrev))));
    assert!(binds.get(Key::L).is_none());
}

#[test]
fn display_ignores_only_bits_24_to_27() {
    let key = 0x8000_0024u32;
    assert_eq!(Key::display(key), Key::display(key | 0x0F00_0000));
    assert_eq!(Key::display(key), Key::display(key | 0x0100_0000));
    assert_ne!(Key::display(key), Key::display(key | 0x1000_0000));
    assert_ne!(Key::display(key), Key::display(key ^ 0x0000_0001));
    assert_ne!(Key::display(0x10), Key::display(0x100));
}
