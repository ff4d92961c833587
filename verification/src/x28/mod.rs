//! X.28: the dialogue between a terminal's user and the PAD.

pub mod command;
pub mod selection;
pub mod signal;

pub use self::command::X28Command;
pub use self::selection::{X28Addr, X28Selection};
pub use self::signal::X28Signal;
