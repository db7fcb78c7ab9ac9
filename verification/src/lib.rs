//! The primary header of the CCSDS Space Packet Protocol, and a parser that
//! cuts packets out of a stream of bytes.
//!
//! The primary header is the fixed six-byte header of every space packet. It
//! is used in space applications, among them the International Space Station
//! and many cubesats. [`primary_header`] decodes it from bytes, encodes it to
//! bytes and gives access to its fields; [`byte_order`] holds the byte order
//! of its words, which some deployments choose against the standard.
//!
//! [`parser`] holds the parser: a buffer that is fed bytes as they arrive, in
//! pieces of any size, and that gives the packets one by one, discarding the
//! bytes at which no packet begins. What it does is stated in [`framing`]
//! over plain sequences of bytes, and [`laws`] holds what follows from that.
//! [`validation`] is for checks of the caller's own, such as a checksum, and
//! [`buffer`] tells what is taken for granted of the buffer type.

pub mod buffer;
pub mod byte_order;
pub mod framing;
pub mod laws;
pub mod parser;
pub mod primary_header;
pub mod validation;
