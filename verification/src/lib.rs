//! Transport core for the Polar watch file-transfer protocol (PFTP).
//!
//! The protocol exchanges framed, multi-packet messages with the watch over a
//! USB interrupt pipe: application payloads are fragmented across fixed-size
//! 64-byte packets with a bit-packed header, reassembled on the way back, and
//! a small file-system command set (read, write-with-verify, list, delete,
//! mkdir) is layered on top.  Everything that decides or computes lives here;
//! the USB reads and writes themselves are driven by the binary around this
//! library.

pub mod codec;
pub mod commands;
pub mod errors;
pub mod fragment;
pub mod plans;
pub mod proto;
pub mod reader;
pub mod session;
pub mod text;
pub mod training;
