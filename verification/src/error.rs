//! The errors of the vfio-user client and server.

use vstd::prelude::*;

use crate::proto::Command;

verus! {

/// What can go wrong while talking vfio-user. It carries `serde_json::Error`,
/// and is named apart from it.
#[derive(Debug)]
pub enum ProtocolError {
    Connect(std::io::Error),
    SerializeCapabilites(serde_json::Error),
    DeserializeCapabilites(serde_json::Error),
    StreamWrite(std::io::Error),
    StreamRead(std::io::Error),
    StreamShutdown(std::io::Error),
    NotPciDevice,
    SocketBind(std::io::Error),
    SocketAccept(std::io::Error),
    UnsupportedCommand(Command),
    UnrecognizedCommand(u16),
    UnsupportedFeature,
    Backend(std::io::Error),
    InvalidInput,
}

} // verus!
