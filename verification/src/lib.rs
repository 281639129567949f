//! Verified core of a network-segmentation test tool.
//!
//! A scanner probes whether ports on a remote host are reachable, while a
//! listener sits behind a deliberately leaky firewall redirect and records
//! every connection attempt that reaches it.  This crate holds the logic of
//! that tool: packet decoding and classification, the JSON event log format,
//! firewall rule rendering, scan planning, and the listener lifecycle.
//! The surrounding binary performs the actual socket, process and file I/O.

pub mod capture;
pub mod event;
pub mod firewall;
pub mod flags;
pub mod lifecycle;
pub mod log;
pub mod scan;
pub mod text;

pub use flags::tcp_flags_to_iter;
