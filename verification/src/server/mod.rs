pub mod event;
pub mod state;

pub use event::{BackendEvent, BackendEventHandler, InputEvent};
pub use state::{ServerState, WindowStack};
