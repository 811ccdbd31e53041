//! A binary RPC transport stack for byte-oriented links: a bounds-checked
//! cursor over caller-owned buffers, a typed little-endian codec built on it,
//! a CRC16-protected length-prefixed framing layer over an underlying byte
//! channel, and a request/response layer that ties them together.

pub mod codec;
pub mod cursor;
pub mod framed_transport;
pub mod request;
pub mod wire;
