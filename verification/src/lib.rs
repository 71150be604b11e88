//! Small verified building blocks for a handful of home-lab tools: a decoder
//! for the framed serial protocol of an LD2410C presence radar, a parser for
//! lines of the kernel mount table, the path confinement rule of a static file
//! server and the batching rule of an object-store sweeper.
//!
//! Everything here computes on plain values. Reading from a serial port, the
//! file system or the network is left to the caller.

pub mod text;
pub mod paths;
pub mod radar;
pub mod mounts;
pub mod serve;
pub mod sweep;
