//! The LD2410C report protocol: an outer frame (header, length, payload,
//! trailer) that carries one fixed-layout measurement record.
//!
//! [`reader`] reads frames without touching a transport, [`record`] decodes
//! their payload, and [`stream`] does both on bytes held in memory.

pub mod endian;
pub mod frame;
pub mod record;
pub mod reader;
pub mod stream;
