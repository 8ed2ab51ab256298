//! Decoding of binary protocol frames: the fixed header, the flag-driven
//! extended body sections and the primitive wire readers they rest on.

pub mod error;
pub mod frame;
pub mod lemmas;
pub mod parser;
pub mod wire;
