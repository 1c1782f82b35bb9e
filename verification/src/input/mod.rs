pub mod keyboard;

pub use keyboard::{Key, KeyModifiers};
