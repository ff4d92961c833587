//! X.25 over TCP packet assembler/disassembler: the virtual circuit engine,
//! the PAD character/packet adapter and the codecs they share.

pub mod buf;
pub mod pad;
pub mod pad_params;
pub mod text;
pub mod user_pad;
pub mod user_x3;
pub mod x121;
pub mod x25;
pub mod x28;
pub mod x29;
pub mod x3;
pub mod xot;
