pub mod error;
pub mod handler;
pub mod util;
