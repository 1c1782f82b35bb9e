pub mod color;
pub mod window_rule;

pub use color::RgbaColor;
pub use window_rule::{WindowProperties, WindowRule};
