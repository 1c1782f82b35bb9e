pub mod border;
pub mod gap;
