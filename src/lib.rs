//! An open enumeration for protocol-buffer style wire encoding: a value that
//! is either a recognised variant of a symbolic type or the raw 32-bit code
//! that was seen on the wire, kept unchanged so that it survives re-encoding.

pub mod buf;
pub mod encoding;
pub mod open_enum;

pub use encoding::{DecodeError, WireType};
pub use open_enum::OpenEnum;
