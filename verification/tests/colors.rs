use geswm::cmd::{Cmd, LayoutCmd};
use geswm::config::RgbaColor;

#[test]
fn six_digit_color_is_opaque() {
    assert_eq!(RgbaColor::from_hex("#009999"), Some(RgbaColor { r: 0, g: 0x99, b: 0x99, a: 255 }));
}

#[test]
fn eight_digit_color_has_alpha() {
    assert_eq!(RgbaColor::from_hex("#999999ff"), Some(RgbaColor { r: 0x99, g: 0x99, b: 0x99, a: 0xff }));
    assert_eq!(RgbaColor::from_hex("#0D0d0880"), Some(RgbaColor { r: 0x0d, g: 0x0d, b: 0x08, a: 0x80 }));
}

#[test]
fn malformed_colors_are_refused() {
    assert_eq!(RgbaColor::from_hex(""), None);
    assert_eq!(RgbaColor::from_hex("009999"), None);
    assert_eq!(RgbaColor::from_hex("#00999"), None);
    assert_eq!(RgbaColor::from_hex("#00999g"), None);
    assert_eq!(RgbaColor::from_hex("#0099990"), None);
    assert_eq!(RgbaColor::from_hex("#00999900f"), None);
}

#[test]
fn duplicated_command_is_the_same() {
    let confirmed = Cmd::ConfirmCommand("really?".to_string(), Box::new(Cmd::Spawn(vec!["foot".to_string()])));
    assert_eq!(format!("{:?}", confirmed.duplicate()), format!("{:?}", confirmed));
    let layout = Cmd::Layout(LayoutCmd::Grow);
    assert_eq!(format!("{:?}", layout.duplicate()), format!("{:?}", layout));
}

#[test]
fn cloned_command_is_the_same() {
    let confirmed = Cmd::ConfirmCommand("sure?".to_string(), Box::new(Cmd::Exit(3)));
    assert_eq!(format!("{:?}", confirmed.clone()), format!("{:?}", confirmed));
}
