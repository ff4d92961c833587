//! X.25 packet layer.

pub mod codec;
pub mod facility;
pub mod laws;
pub mod model;
pub mod negotiate;
pub mod packet;
pub mod params;
pub mod seq;
pub mod state;
pub mod vc;
pub mod wire;

pub use self::facility::X25Facility;
pub use self::params::X25Params;
pub use self::seq::{next_seq, Window, X25Modulo};
