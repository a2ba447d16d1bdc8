//! A vfio-user protocol library: the wire layout of the protocol's
//! messages, the VFIO structures they carry, and the decisions that a
//! vfio-user client and server take around their socket I/O.

pub mod le;
pub mod bindings;
pub mod proto;
pub mod error;
pub mod outside;
pub mod caps;
pub mod client;
pub mod server;
pub mod scm;
