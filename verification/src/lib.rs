//! RIPEMD-160 message digest, verified against a mathematical model of the
//! algorithm.

pub mod words;
pub mod outside;
pub mod rotation;
pub mod compress;
pub mod compress_laws;
pub mod message;
pub mod message_laws;
pub mod hasher;

pub use compress::process_msg_block;
pub use rotation::circular_shift;
pub use hasher::Ripemd160;
