//! The decisions of a vfio-user server: which requests it serves, what each
//! one asks of the device backend, and the reply that it gets.

use vstd::prelude::*;

use crate::bindings::{
    vfio_region_info, VFIO_DEVICE_FLAGS_PCI, VFIO_DEVICE_FLAGS_RESET, VFIO_IRQ_SET_DATA_BOOL,
};
use crate::error::ProtocolError;
use crate::proto::{
    command_of, lemma_command_code, lemma_device_get_info_wire,
    lemma_dma_unmap_split, lemma_get_irq_info_split, lemma_region_access_split, lemma_device_get_region_info_wire,
    lemma_dma_unmap_wire, lemma_get_irq_info_wire, lemma_header_prefix, lemma_header_wire,
    lemma_region_access_wire, lemma_version_wire, message_bytes, Command, DeviceGetInfo, DeviceGetRegionInfo,
    DmaMap, DmaMapFlags, DmaUnmap, DmaUnmapFlags, GetIrqInfo, Header, HeaderFlags, RegionAccess,
    SetIrqs, Version, DEVICE_GET_INFO_SIZE, DEVICE_GET_REGION_INFO_SIZE, DMA_MAP_SIZE,
    DMA_UNMAP_SIZE, GET_IRQ_INFO_SIZE, HEADER_SIZE, REGION_ACCESS_SIZE, SET_IRQS_SIZE,
    VERSION_SIZE,
};

verus! {

/// The interrupts of one index of the device.
#[derive(Debug, Clone, Copy, PartialEq, Eq)]
pub struct IrqInfo {
    pub index: u32,
    pub flags: u32,
    pub count: u32,
}

/// The errno value that an error reply carries for invalid input.
///
/// Calls nothing but reads `libc::EINVAL`. The contract claims only that
/// the value is not zero, which holds on every target that `libc` defines
/// it for; which value it is depends on the target and is not stated.
#[verifier::external_body]
fn einval() -> (r: u32)
    ensures
        r != 0,
{
    libc::EINVAL as u32
}

/// The commands that the server serves.
pub open spec fn is_served(c: Command) -> bool {
    !(c is Unknown || c is GetRegionIoFds || c is DmaRead || c is DmaWrite || c is UserDirtyPages)
}

/// The number of bytes that follow the header of a request for `c`, before
/// any data.
pub open spec fn payload_len(c: Command) -> nat {
    match c {
        Command::Version => (VERSION_SIZE - HEADER_SIZE) as nat,
        Command::DmaMap => (DMA_MAP_SIZE - HEADER_SIZE) as nat,
        Command::DmaUnmap => (DMA_UNMAP_SIZE - HEADER_SIZE) as nat,
        Command::DeviceGetInfo => (DEVICE_GET_INFO_SIZE - HEADER_SIZE) as nat,
        Command::DeviceGetRegionInfo => (DEVICE_GET_REGION_INFO_SIZE - HEADER_SIZE) as nat,
        Command::GetIrqInfo => (GET_IRQ_INFO_SIZE - HEADER_SIZE) as nat,
        Command::SetIrqs => (SET_IRQS_SIZE - HEADER_SIZE) as nat,
        Command::RegionRead => (REGION_ACCESS_SIZE - HEADER_SIZE) as nat,
        Command::RegionWrite => (REGION_ACCESS_SIZE - HEADER_SIZE) as nat,
        _ => 0,
    }
}

/// The header of the reply to `request`, for command `c`.
pub open spec fn reply_header(request: Header, c: Command, message_size: u32) -> Header {
    Header {
        message_id: request.message_id,
        command: c.code(),
        message_size,
        flags: HeaderFlags::Reply.bits(),
        error: 0,
    }
}

/// Builds the header of the reply to `request`.
pub fn make_reply_header(request: &Header, c: Command, message_size: u32) -> (r: Header)
    ensures
        r == reply_header(*request, c, message_size),
{
    Header {
        message_id: request.message_id,
        command: u16::from(c),
        message_size,
        flags: u32::from(HeaderFlags::Reply),
        error: 0,
    }
}

/// What a request asks of the device backend.
#[derive(Debug)]
pub enum BackendRequest {
    DmaMap { flags: DmaMapFlags, offset: u64, address: u64, size: u64 },
    DmaUnmap { flags: DmaUnmapFlags, address: u64, size: u64 },
    SetIrqs { index: u32, flags: u32, start: u32, count: u32 },
    RegionRead { region: u32, offset: u64, count: u32 },
    RegionWrite { region: u32, offset: u64, count: u32 },
    Reset,
}

/// What the server does next with a request.
#[derive(Debug)]
pub enum Action {
    /// Send these bytes back; the request is served.
    Reply(Vec<u8>),
    /// Read this many more bytes of the request, then hand them to
    /// [`Server::handle_data`].
    ReadData(usize),
    /// Ask the backend (the DMA map request takes the file sent along, if
    /// any), then reply with [`Server::backend_reply`].
    Backend(BackendRequest),
    /// Parse the client's capabilities from this JSON text, then reply with
    /// [`Server::version_reply`].
    ParseCapabilities(Vec<u8>),
}

/// The bytes hold a C string: they end with their only NUL.
pub open spec fn is_c_string(b: Seq<u8>) -> bool {
    &&& b.len() > 0
    &&& b.last() == 0
    &&& forall|i: int| 0 <= i < b.len() - 1 ==> b[i] != 0
}

/// Whether `b` holds a C string: it ends with its only NUL.
pub fn c_string(b: &[u8]) -> (r: bool)
    ensures
        r == is_c_string(b@),
{
    if b.len() == 0 {
        return false;
    }
    let mut i: usize = 0;
    while i < b.len() - 1
        invariant
            b@.len() > 0,
            i < b@.len(),
            forall|j: int| 0 <= j < i ==> b@[j] != 0,
        decreases b@.len() - i,
    {
        if b[i] == 0 {
            return false;
        }
        i = i + 1;
    }
    b[b.len() - 1] == 0
}

/// The device that a vfio-user server offers: whether it can be reset, its
/// interrupts and its regions.
pub struct Server {
    resettable: bool,
    irqs: Vec<IrqInfo>,
    regions: Vec<vfio_region_info>,
}

impl Server {
    pub closed spec fn is_resettable(&self) -> bool {
        self.resettable
    }

    pub closed spec fn irqs(&self) -> Seq<IrqInfo> {
        self.irqs@
    }

    pub closed spec fn regions(&self) -> Seq<vfio_region_info> {
        self.regions@
    }

    /// A server for a device with these interrupts and regions.
    pub fn new(resettable: bool, irqs: Vec<IrqInfo>, regions: Vec<vfio_region_info>) -> (r:
        Server)
        ensures
            r.is_resettable() == resettable,
            r.irqs() == irqs@,
            r.regions() == regions@,
    {
        Server { resettable, irqs, regions }
    }

    /// The command that a request header asks for: an error for a number
    /// that stands for no command, and for a command that is not served.
    pub fn command(header: &Header) -> (r: Result<Command, ProtocolError>)
        ensures
            header.command == 1 || header.command == 2 || header.command == 3 || header.command
                == 4 || header.command == 5 || header.command == 7 || header.command == 8
                || header.command == 9 || header.command == 10 || header.command == 13 ==> (r matches Ok(
                c) && c.code() == header.command),
            header.command == 0 || header.command == 6 || header.command == 11 || header.command
                == 12 || header.command == 14 ==> (r matches Err(ProtocolError::UnsupportedCommand(c))
                && c.code() == header.command),
            header.command > 14 ==> (r matches Err(ProtocolError::UnrecognizedCommand(v)) && v
                == header.command),
            match command_of(header.command) {
                Err(v) => r matches Err(ProtocolError::UnrecognizedCommand(x)) && x == v,
                Ok(c) => if is_served(c) {
                    r matches Ok(d) && d == c
                } else {
                    r matches Err(ProtocolError::UnsupportedCommand(d)) && d == c
                },
            },
    {
        let parsed = match Command::try_from(header.command) {
            Ok(c) => c,
            Err(v) => {
                return Err(ProtocolError::UnrecognizedCommand(v));
            },
        };
        match parsed {
            Command::Unknown
            | Command::GetRegionIoFds
            | Command::DmaRead
            | Command::DmaWrite
            | Command::UserDirtyPages => Err(ProtocolError::UnsupportedCommand(parsed)),
            _ => Ok(parsed),
        }
    }

    /// The number of bytes of a request for `c` that follow its header,
    /// before any data.
    pub fn payload_size(c: Command) -> (r: usize)
        ensures
            r == payload_len(c),
    {
        match c {
            Command::Version => VERSION_SIZE - HEADER_SIZE,
            Command::DmaMap => DMA_MAP_SIZE - HEADER_SIZE,
            Command::DmaUnmap => DMA_UNMAP_SIZE - HEADER_SIZE,
            Command::DeviceGetInfo => DEVICE_GET_INFO_SIZE - HEADER_SIZE,
            Command::DeviceGetRegionInfo => DEVICE_GET_REGION_INFO_SIZE - HEADER_SIZE,
            Command::GetIrqInfo => GET_IRQ_INFO_SIZE - HEADER_SIZE,
            Command::SetIrqs => SET_IRQS_SIZE - HEADER_SIZE,
            Command::RegionRead => REGION_ACCESS_SIZE - HEADER_SIZE,
            Command::RegionWrite => REGION_ACCESS_SIZE - HEADER_SIZE,
            _ => 0,
        }
    }
}

impl Server {
    /// The reply to the device info request `request`: a PCI device, with
    /// the reset flag when the device is resettable, and the numbers of its
    /// regions and interrupts.
    pub open spec fn device_info_reply(self, request: Header) -> DeviceGetInfo {
        DeviceGetInfo {
            header: reply_header(request, Command::DeviceGetInfo, DEVICE_GET_INFO_SIZE as u32),
            argsz: (DEVICE_GET_INFO_SIZE - HEADER_SIZE) as u32,
            flags: VFIO_DEVICE_FLAGS_PCI | (if self.is_resettable() {
                VFIO_DEVICE_FLAGS_RESET
            } else {
                0
            }),
            num_regions: self.regions().len() as u32,
            num_irqs: self.irqs().len() as u32,
        }
    }

    /// The reply to the request `request` for the description of region
    /// `index`.
    pub open spec fn region_info_reply(self, request: Header, index: u32) -> DeviceGetRegionInfo {
        DeviceGetRegionInfo {
            header: reply_header(
                request,
                Command::DeviceGetRegionInfo,
                DEVICE_GET_REGION_INFO_SIZE as u32,
            ),
            region_info: self.regions()[index as int],
        }
    }

    /// The reply to the request `request` for the interrupts of `index`.
    pub open spec fn irq_info_reply(self, request: Header, index: u32) -> GetIrqInfo {
        GetIrqInfo {
            header: reply_header(request, Command::GetIrqInfo, GET_IRQ_INFO_SIZE as u32),
            argsz: (GET_IRQ_INFO_SIZE - HEADER_SIZE) as u32,
            index: self.irqs()[index as int].index,
            flags: self.irqs()[index as int].flags,
            count: self.irqs()[index as int].count,
        }
    }

    /// Decides on a request once its fixed part has been read: `payload` is
    /// what follows the header, and `num_fds` the number of files sent
    /// along. The request is refused when it names a region or an interrupt
    /// index that the device lacks, when a DMA map request comes with more
    /// than one file, and when interrupts are to be set from booleans.
    pub fn handle_payload(&self, header: &Header, c: Command, payload: &[u8], num_fds: usize) -> (r:
        Result<Action, ProtocolError>)
        requires
            is_served(c),
            payload@.len() == payload_len(c),
            c is Version ==> header.message_size >= VERSION_SIZE,
        ensures
            ({
                let m = header.wire() + payload@;
                match c {
                    Command::Version => r matches Ok(Action::ReadData(n)) && n
                        == header.message_size - VERSION_SIZE,
                    Command::DmaMap => if num_fds > 1 {
                        r matches Err(ProtocolError::InvalidInput)
                    } else {
                        r matches Ok(
                            Action::Backend(BackendRequest::DmaMap { flags, offset, address, size }),
                        ) && flags.spec_bits() == DmaMap::from_wire(m).flags && offset
                            == DmaMap::from_wire(m).offset && address == DmaMap::from_wire(m).address
                            && size == DmaMap::from_wire(m).size
                    },
                    Command::DmaUnmap => r matches Ok(
                        Action::Backend(BackendRequest::DmaUnmap { flags, address, size }),
                    ) && flags.spec_bits() == DmaUnmap::from_wire(m).flags && address
                        == DmaUnmap::from_wire(m).address && size == DmaUnmap::from_wire(m).size,
                    Command::DeviceGetInfo => r matches Ok(Action::Reply(b)) && b@
                        == self.device_info_reply(*header).wire() && DeviceGetInfo::from_wire(
                        b@,
                    ).num_regions == self.regions().len() as u32 && DeviceGetInfo::from_wire(
                        b@,
                    ).num_irqs == self.irqs().len() as u32,
                    Command::DeviceGetRegionInfo => {
                        let index = DeviceGetRegionInfo::from_wire(m).region_info.index;
                        if index >= self.regions().len() {
                            r matches Err(ProtocolError::InvalidInput)
                        } else {
                            r matches Ok(Action::Reply(b)) && b@ == self.region_info_reply(
                                *header,
                                index,
                            ).wire()
                        }
                    },
                    Command::GetIrqInfo => {
                        let index = GetIrqInfo::from_wire(m).index;
                        if index >= self.irqs().len() {
                            r matches Err(ProtocolError::InvalidInput)
                        } else {
                            r matches Ok(Action::Reply(b)) && b@ == self.irq_info_reply(
                                *header,
                                index,
                            ).wire()
                        }
                    },
                    Command::SetIrqs => {
                        let s = SetIrqs::from_wire(m);
                        if s.index >= self.irqs().len() {
                            r matches Err(ProtocolError::InvalidInput)
                        } else if s.flags & VFIO_IRQ_SET_DATA_BOOL > 0 {
                            r matches Err(ProtocolError::UnsupportedFeature)
                        } else {
                            r matches Ok(
                                Action::Backend(BackendRequest::SetIrqs { index, flags, start, count }),
                            ) && index == s.index && flags == s.flags && start == s.start && count
                                == s.count
                        }
                    },
                    Command::RegionRead => {
                        let a = RegionAccess::from_wire(m);
                        if a.region >= self.regions().len() {
                            r matches Err(ProtocolError::InvalidInput)
                        } else {
                            r matches Ok(
                                Action::Backend(BackendRequest::RegionRead { region, offset, count }),
                            ) && region == a.region && offset == a.offset && count == a.count
                        }
                    },
                    Command::RegionWrite => {
                        let a = RegionAccess::from_wire(m);
                        if a.region >= self.regions().len() {
                            r matches Err(ProtocolError::InvalidInput)
                        } else {
                            r matches Ok(Action::ReadData(n)) && n == a.count
                        }
                    },
                    Command::DeviceReset => r matches Ok(Action::Backend(BackendRequest::Reset)),
                    _ => true,
                }
            }),
    {
        let msg = message_bytes(header, payload);
        proof {
            lemma_header_wire(*header);
        }
        match c {
            Command::Version => {
                Ok(Action::ReadData(header.message_size as usize - VERSION_SIZE))
            },
            Command::DmaMap => {
                assert(msg@.subrange(0, DMA_MAP_SIZE as int) =~= msg@);
                let d = DmaMap::read_from(&msg, 0);
                if num_fds > 1 {
                    return Err(ProtocolError::InvalidInput);
                }
                Ok(
                    Action::Backend(
                        BackendRequest::DmaMap {
                            flags: DmaMapFlags::from_bits_truncate(d.flags),
                            offset: d.offset,
                            address: d.address,
                            size: d.size,
                        },
                    ),
                )
            },
            Command::DmaUnmap => {
                assert(msg@.subrange(0, DMA_UNMAP_SIZE as int) =~= msg@);
                let d = DmaUnmap::read_from(&msg, 0);
                Ok(
                    Action::Backend(
                        BackendRequest::DmaUnmap {
                            flags: DmaUnmapFlags::from_bits_truncate(d.flags),
                            address: d.address,
                            size: d.size,
                        },
                    ),
                )
            },
            Command::DeviceGetInfo => {
                proof {
                    lemma_device_get_info_wire(self.device_info_reply(*header));
                }
                let flags = VFIO_DEVICE_FLAGS_PCI | if self.resettable {
                    VFIO_DEVICE_FLAGS_RESET
                } else {
                    0
                };
                let reply = DeviceGetInfo {
                    header: make_reply_header(
                        header,
                        Command::DeviceGetInfo,
                        DEVICE_GET_INFO_SIZE as u32,
                    ),
                    argsz: (DEVICE_GET_INFO_SIZE - HEADER_SIZE) as u32,
                    flags,
                    num_regions: self.regions.len() as u32,
                    num_irqs: self.irqs.len() as u32,
                };
                Ok(Action::Reply(reply.to_bytes()))
            },
            Command::DeviceGetRegionInfo => {
                assert(msg@.subrange(0, DEVICE_GET_REGION_INFO_SIZE as int) =~= msg@);
                let d = DeviceGetRegionInfo::read_from(&msg, 0);
                let index = d.region_info.index;
                if index as usize >= self.regions.len() {
                    return Err(ProtocolError::InvalidInput);
                }
                let reply = DeviceGetRegionInfo {
                    header: make_reply_header(
                        header,
                        Command::DeviceGetRegionInfo,
                        DEVICE_GET_REGION_INFO_SIZE as u32,
                    ),
                    region_info: self.regions[index as usize],
                };
                Ok(Action::Reply(reply.to_bytes()))
            },
            Command::GetIrqInfo => {
                assert(msg@.subrange(0, GET_IRQ_INFO_SIZE as int) =~= msg@);
                let d = GetIrqInfo::read_from(&msg, 0);
                let index = d.index;
                if index as usize >= self.irqs.len() {
                    return Err(ProtocolError::InvalidInput);
                }
                let irq = &self.irqs[index as usize];
                let reply = GetIrqInfo {
                    header: make_reply_header(header, Command::GetIrqInfo, GET_IRQ_INFO_SIZE as u32),
                    argsz: (GET_IRQ_INFO_SIZE - HEADER_SIZE) as u32,
                    index: irq.index,
                    flags: irq.flags,
                    count: irq.count,
                };
                Ok(Action::Reply(reply.to_bytes()))
            },
            Command::SetIrqs => {
                assert(msg@.subrange(0, SET_IRQS_SIZE as int) =~= msg@);
                let s = SetIrqs::read_from(&msg, 0);
                if s.index as usize >= self.irqs.len() {
                    return Err(ProtocolError::InvalidInput);
                }
                if s.flags & VFIO_IRQ_SET_DATA_BOOL > 0 {
                    return Err(ProtocolError::UnsupportedFeature);
                }
                Ok(
                    Action::Backend(
                        BackendRequest::SetIrqs {
                            index: s.index,
                            flags: s.flags,
                            start: s.start,
                            count: s.count,
                        },
                    ),
                )
            },
            Command::RegionRead => {
                assert(msg@.subrange(0, REGION_ACCESS_SIZE as int) =~= msg@);
                let a = RegionAccess::read_from(&msg, 0);
                if a.region as usize >= self.regions.len() {
                    return Err(ProtocolError::InvalidInput);
                }
                Ok(
                    Action::Backend(
                        BackendRequest::RegionRead {
                            region: a.region,
                            offset: a.offset,
                            count: a.count,
                        },
                    ),
                )
            },
            Command::RegionWrite => {
                assert(msg@.subrange(0, REGION_ACCESS_SIZE as int) =~= msg@);
                let a = RegionAccess::read_from(&msg, 0);
                if a.region as usize >= self.regions.len() {
                    return Err(ProtocolError::InvalidInput);
                }
                Ok(Action::ReadData(a.count as usize))
            },
            Command::DeviceReset => Ok(Action::Backend(BackendRequest::Reset)),
            _ => Err(ProtocolError::UnsupportedCommand(c)),
        }
    }
}

/// The commands whose requests go to the backend.
pub open spec fn goes_to_backend(c: Command) -> bool {
    c is DmaMap || c is DmaUnmap || c is SetIrqs || c is RegionRead || c is RegionWrite
        || c is DeviceReset
}

/// The reply to `request` for command `c`, once the backend has done what
/// it asked; `payload` is what followed the header of the request, and
/// `read` the bytes that the backend read for a region read.
pub open spec fn backend_reply_bytes(request: Header, c: Command, payload: Seq<u8>, read: Seq<u8>) -> Seq<u8> {
    let m = request.wire() + payload;
    match c {
        Command::DmaMap => reply_header(request, c, HEADER_SIZE as u32).wire(),
        Command::DmaUnmap => (DmaUnmap {
            header: reply_header(request, c, DMA_UNMAP_SIZE as u32),
            ..DmaUnmap::from_wire(m)
        }).wire(),
        Command::SetIrqs => reply_header(request, c, HEADER_SIZE as u32).wire(),
        Command::RegionRead => (RegionAccess {
            header: reply_header(
                request,
                c,
                (REGION_ACCESS_SIZE + RegionAccess::from_wire(m).count) as u32,
            ),
            ..RegionAccess::from_wire(m)
        }).wire() + read,
        Command::RegionWrite => (RegionAccess {
            header: reply_header(request, c, REGION_ACCESS_SIZE as u32),
            ..RegionAccess::from_wire(m)
        }).wire(),
        Command::DeviceReset => reply_header(request, c, HEADER_SIZE as u32).wire(),
        _ => Seq::empty(),
    }
}

/// The reply to the version request `request`: the server's version 0.0,
/// then its capabilities as NUL-terminated JSON text.
pub open spec fn version_reply_bytes(request: Header, json: Seq<u8>) -> Seq<u8> {
    (Version {
        header: reply_header(
            request,
            Command::Version,
            (VERSION_SIZE + json.len() + 1) as u32,
        ),
        major: 0,
        minor: 0,
    }).wire() + json + seq![0u8]
}

/// The reply to `request` when it failed: its id and command, the reply and
/// error flags (`0x21`), a bare header's size, and `errno` as the error only
/// when the input was invalid.
pub open spec fn error_reply_header(request: Header, invalid_input: bool, errno: u32) -> Header {
    Header {
        message_id: request.message_id,
        command: request.command,
        message_size: HEADER_SIZE as u32,
        flags: 0x21,
        error: if invalid_input {
            errno
        } else {
            0
        },
    }
}

/// An error reply answers the failed request: read back from its bytes, it
/// carries the request's id and command, the reply and error flags, and a
/// message size equal to its length.
pub proof fn lemma_error_reply_frames(request: Header, invalid_input: bool, errno: u32)
    ensures
        ({
            let h = error_reply_header(request, invalid_input, errno);
            &&& Header::from_wire(h.wire()) == h
            &&& h.wire().len() == h.message_size
            &&& h.message_id == request.message_id
            &&& h.command == request.command
            &&& h.flags == HeaderFlags::Reply.bits() | HeaderFlags::Error.bits()
        }),
{
    let h = error_reply_header(request, invalid_input, errno);
    lemma_header_wire(h);
    assert(1u32 | 0x20u32 == 0x21u32) by (bit_vector);
}

impl Server {
    /// Decides on the data that followed a version or region write request:
    /// the client's capabilities, without the NUL that ends them, are to be
    /// parsed; the written bytes go to the backend.
    pub fn handle_data(&self, header: &Header, c: Command, payload: &[u8], data: &[u8]) -> (r:
        Action)
        requires
            c is Version || c is RegionWrite,
            payload@.len() == payload_len(c),
            c is Version ==> is_c_string(data@),
        ensures
            c is Version ==> (r matches Action::ParseCapabilities(j) && j@ == data@.take(
                data@.len() - 1,
            )),
            c is RegionWrite ==> ({
                let a = RegionAccess::from_wire(header.wire() + payload@);
                r matches Action::Backend(BackendRequest::RegionWrite { region, offset, count })
                    && region == a.region && offset == a.offset && count == a.count
            }),
    {
        if let Command::Version = c {
            let mut json: Vec<u8> = Vec::new();
            json.extend_from_slice(&data[0..data.len() - 1]);
            assert(json@ =~= data@.take(data@.len() - 1));
            Action::ParseCapabilities(json)
        } else {
            let msg = message_bytes(header, payload);
            proof {
                lemma_header_wire(*header);
            }
            assert(msg@.subrange(0, REGION_ACCESS_SIZE as int) =~= msg@);
            let a = RegionAccess::read_from(&msg, 0);
            Action::Backend(
                BackendRequest::RegionWrite { region: a.region, offset: a.offset, count: a.count },
            )
        }
    }

    /// The reply to a request for command `c` once the backend has done
    /// what it asked; `read` holds the bytes that the backend read for a
    /// region read.
    pub fn backend_reply(header: &Header, c: Command, payload: &[u8], read: &[u8]) -> (r: Vec<u8>)
        requires
            goes_to_backend(c),
            payload@.len() == payload_len(c),
            c is RegionRead ==> ({
                let a = RegionAccess::from_wire(header.wire() + payload@);
                &&& read@.len() == a.count
                &&& a.count + REGION_ACCESS_SIZE <= u32::MAX
            }),
        ensures
            r@ == backend_reply_bytes(*header, c, payload@, read@),
    {
        let msg = message_bytes(header, payload);
        proof {
            lemma_header_wire(*header);
        }
        match c {
            Command::DmaMap => make_reply_header(header, c, HEADER_SIZE as u32).to_bytes(),
            Command::DmaUnmap => {
                assert(msg@.subrange(0, DMA_UNMAP_SIZE as int) =~= msg@);
                let d = DmaUnmap::read_from(&msg, 0);
                let reply = DmaUnmap {
                    header: make_reply_header(header, c, DMA_UNMAP_SIZE as u32),
                    ..d
                };
                reply.to_bytes()
            },
            Command::SetIrqs => make_reply_header(header, c, HEADER_SIZE as u32).to_bytes(),
            Command::RegionRead => {
                assert(msg@.subrange(0, REGION_ACCESS_SIZE as int) =~= msg@);
                let a = RegionAccess::read_from(&msg, 0);
                let reply = RegionAccess {
                    header: make_reply_header(header, c, REGION_ACCESS_SIZE as u32 + a.count),
                    ..a
                };
                let mut buf = reply.to_bytes();
                let ghost head = buf@;
                buf.extend_from_slice(read);
                assert(buf@ =~= head + read@);
                buf
            },
            Command::RegionWrite => {
                assert(msg@.subrange(0, REGION_ACCESS_SIZE as int) =~= msg@);
                let a = RegionAccess::read_from(&msg, 0);
                let reply = RegionAccess {
                    header: make_reply_header(header, c, REGION_ACCESS_SIZE as u32),
                    ..a
                };
                reply.to_bytes()
            },
            _ => make_reply_header(header, c, HEADER_SIZE as u32).to_bytes(),
        }
    }

    /// The reply to a version request, carrying the server's capabilities
    /// as the JSON text `json`.
    pub fn version_reply(header: &Header, json: &[u8]) -> (r: Vec<u8>)
        requires
            json.len() + VERSION_SIZE + 1 <= usize::MAX,
            forall|i: int| 0 <= i < json@.len() ==> json@[i] != 0,
        ensures
            r@ == version_reply_bytes(*header, json@),
    {
        let size = (VERSION_SIZE + json.len() + 1) as u32;
        let version = Version {
            header: make_reply_header(header, Command::Version, size),
            major: 0,
            minor: 0,
        };
        let mut buf = version.to_bytes();
        let ghost head = buf@;
        buf.extend_from_slice(json);
        buf.push(0u8);
        assert(buf@ =~= head + json@ + seq![0u8]);
        buf
    }

    /// The reply to a request that failed with `err`, when invalid input is
    /// answered with the errno value `errno`: the request's id and command,
    /// the reply and error flags, and the errno only for invalid input.
    pub fn error_reply_errno(header: &Header, err: &ProtocolError, errno: u32) -> (r: Header)
        ensures
            r == error_reply_header(*header, *err is InvalidInput, errno),
    {
        assert(1u32 | 0x20u32 == 0x21u32) by (bit_vector);
        let error = if let ProtocolError::InvalidInput = err {
            errno
        } else {
            0
        };
        Header {
            message_id: header.message_id,
            command: header.command,
            flags: u32::from(HeaderFlags::Reply) | u32::from(HeaderFlags::Error),
            message_size: HEADER_SIZE as u32,
            error,
        }
    }

    /// The reply to a request that failed with `err`: invalid input is
    /// answered with the target's `EINVAL`.
    pub fn error_reply(header: &Header, err: &ProtocolError) -> (r: Header)
        ensures
            r == error_reply_header(*header, *err is InvalidInput, r.error),
            r.message_id == header.message_id,
            r.command == header.command,
            r.flags == HeaderFlags::Reply.bits() | HeaderFlags::Error.bits(),
            r.flags == 0x21,
            r.message_size == HEADER_SIZE,
            *err is InvalidInput ==> r.error != 0,
            !(*err is InvalidInput) ==> r.error == 0,
    {
        assert(1u32 | 0x20u32 == 0x21u32) by (bit_vector);
        Self::error_reply_errno(header, err, einval())
    }
}

/// Every reply to a request that went to the backend answers it: read back
/// from the front of the reply, its header carries the request's message id,
/// the command, the reply flag and no error, and its message size is the
/// length of the reply in bytes.
#[verifier::spinoff_prover]
pub proof fn lemma_backend_reply_frames(request: Header, c: Command, payload: Seq<u8>, read: Seq<u8>)
    requires
        goes_to_backend(c),
        payload.len() == payload_len(c),
        c is RegionRead ==> ({
            let a = RegionAccess::from_wire(request.wire() + payload);
            &&& read.len() == a.count
            &&& a.count + REGION_ACCESS_SIZE <= u32::MAX
        }),
    ensures
        ({
            let b = backend_reply_bytes(request, c, payload, read);
            Header::from_wire(b) == reply_header(request, c, b.len() as u32)
        }),
{
    let m = request.wire() + payload;
    let b = backend_reply_bytes(request, c, payload, read);
    match c {
        Command::DmaUnmap => {
            let x = DmaUnmap { header: reply_header(request, c, DMA_UNMAP_SIZE as u32), ..DmaUnmap::from_wire(m) };
            lemma_dma_unmap_wire(x);
            lemma_header_prefix(x.header, b.subrange(HEADER_SIZE as int, b.len() as int));
            assert(b =~= x.header.wire() + b.subrange(HEADER_SIZE as int, b.len() as int));
        },
        Command::RegionRead => {
            let a = RegionAccess::from_wire(m);
            let x = RegionAccess {
                header: reply_header(request, c, (REGION_ACCESS_SIZE + a.count) as u32),
                ..a
            };
            lemma_region_access_wire(x);
            lemma_header_prefix(x.header, b.subrange(HEADER_SIZE as int, b.len() as int));
            assert(b =~= x.header.wire() + b.subrange(HEADER_SIZE as int, b.len() as int));
        },
        Command::RegionWrite => {
            let a = RegionAccess::from_wire(m);
            let x = RegionAccess { header: reply_header(request, c, REGION_ACCESS_SIZE as u32), ..a };
            lemma_region_access_wire(x);
            lemma_header_prefix(x.header, b.subrange(HEADER_SIZE as int, b.len() as int));
            assert(b =~= x.header.wire() + b.subrange(HEADER_SIZE as int, b.len() as int));
        },
        _ => {
            lemma_header_wire(reply_header(request, c, HEADER_SIZE as u32));
        },
    }
}

/// The reply to a version request answers it, as every reply does, as long
/// as its length fits the 32-bit message size.
pub proof fn lemma_version_reply_frames(request: Header, json: Seq<u8>)
    requires
        json.len() + VERSION_SIZE + 1 <= u32::MAX,
    ensures
        ({
            let b = version_reply_bytes(request, json);
            Header::from_wire(b) == reply_header(request, Command::Version, b.len() as u32)
        }),
{
    let b = version_reply_bytes(request, json);
    let x = Version {
        header: reply_header(request, Command::Version, (VERSION_SIZE + json.len() + 1) as u32),
        major: 0,
        minor: 0,
    };
    lemma_version_wire(x);
    lemma_header_prefix(x.header, b.subrange(HEADER_SIZE as int, b.len() as int));
    assert(b =~= x.header.wire() + b.subrange(HEADER_SIZE as int, b.len() as int));
}

/// The replies that the server gives without the backend answer their
/// requests, as every reply does.
pub proof fn lemma_info_replies_frame(server: Server, request: Header, index: u32)
    ensures
        ({
            let b = server.device_info_reply(request).wire();
            Header::from_wire(b) == reply_header(request, Command::DeviceGetInfo, b.len() as u32)
        }),
        ({
            let b = server.region_info_reply(request, index).wire();
            Header::from_wire(b) == reply_header(
                request,
                Command::DeviceGetRegionInfo,
                b.len() as u32,
            )
        }),
        ({
            let b = server.irq_info_reply(request, index).wire();
            Header::from_wire(b) == reply_header(request, Command::GetIrqInfo, b.len() as u32)
        }),
{
    let x = server.device_info_reply(request);
    let b = x.wire();
    lemma_device_get_info_wire(x);
    lemma_header_prefix(x.header, b.subrange(HEADER_SIZE as int, b.len() as int));
    assert(b =~= x.header.wire() + b.subrange(HEADER_SIZE as int, b.len() as int));
    let y = server.region_info_reply(request, index);
    let c = y.wire();
    lemma_device_get_region_info_wire(y);
    lemma_header_prefix(y.header, c.subrange(HEADER_SIZE as int, c.len() as int));
    assert(c =~= y.header.wire() + c.subrange(HEADER_SIZE as int, c.len() as int));
    let z = server.irq_info_reply(request, index);
    let d = z.wire();
    lemma_get_irq_info_wire(z);
    lemma_header_prefix(z.header, d.subrange(HEADER_SIZE as int, d.len() as int));
    assert(d =~= z.header.wire() + d.subrange(HEADER_SIZE as int, d.len() as int));
}

/// The capabilities that a client sends with its version request reach the
/// server unchanged: the server, reading the header first, learns from its
/// message size how many bytes follow the fixed part, those bytes hold a C
/// string, and without its NUL it is the client's JSON text.
pub proof fn lemma_version_exchange(id: u16, json: Seq<u8>)
    requires
        json.len() + VERSION_SIZE + 1 <= u32::MAX,
        forall|i: int| 0 <= i < json.len() ==> json[i] != 0,
    ensures
        ({
            let v = Version {
                header: crate::client::request_header(
                    id,
                    Command::Version,
                    (VERSION_SIZE + json.len() + 1) as u32,
                ),
                major: 0,
                minor: 1,
            };
            let b = v.wire() + json + seq![0u8];
            let header = Header::from_wire(b);
            let data = b.subrange(VERSION_SIZE as int, b.len() as int);
            &&& header == v.header
            &&& command_of(header.command) == Ok::<Command, u16>(Command::Version)
            &&& header.message_size >= VERSION_SIZE
            &&& data.len() == header.message_size - VERSION_SIZE
            &&& is_c_string(data)
            &&& data.take(data.len() - 1) == json
        }),
{
    let v = Version {
        header: crate::client::request_header(
            id,
            Command::Version,
            (VERSION_SIZE + json.len() + 1) as u32,
        ),
        major: 0,
        minor: 1,
    };
    lemma_version_wire(v);
    let b = v.wire() + json + seq![0u8];
    let rest = b.subrange(HEADER_SIZE as int, b.len() as int);
    assert(b =~= v.header.wire() + rest);
    lemma_header_prefix(v.header, rest);
    let data = b.subrange(VERSION_SIZE as int, b.len() as int);
    assert(data =~= json + seq![0u8]);
    assert(data.take(data.len() - 1) =~= json);
}

/// The request that the client sends for a region read reaches the server as
/// sent, and the server's reply, once the backend has read `d`, hands the
/// client `d` right after the fixed part of the reply, which answers the
/// request with its own offset, region and count.
#[verifier::spinoff_prover]
#[verifier::rlimit(30)]
pub proof fn lemma_region_read_exchange(id: u16, region: u32, offset: u64, len: usize, d: Seq<u8>)
    requires
        d.len() == len as u32,
        (len as u32) + REGION_ACCESS_SIZE <= u32::MAX,
    ensures
        ({
            let r = RegionAccess {
                header: crate::client::request_header(
                    id,
                    Command::RegionRead,
                    REGION_ACCESS_SIZE as u32,
                ),
                offset,
                region,
                count: len as u32,
            };
            let b = r.wire();
            let header = Header::from_wire(b);
            let payload = b.subrange(HEADER_SIZE as int, REGION_ACCESS_SIZE as int);
            let reply = backend_reply_bytes(header, Command::RegionRead, payload, d);
            &&& command_of(header.command) == Ok::<Command, u16>(Command::RegionRead)
            &&& payload.len() == payload_len(Command::RegionRead)
            &&& RegionAccess::from_wire(header.wire() + payload) == r
            &&& reply.len() == REGION_ACCESS_SIZE + d.len()
            &&& reply.subrange(REGION_ACCESS_SIZE as int, reply.len() as int) == d
            &&& RegionAccess::from_wire(reply) == (RegionAccess {
                header: reply_header(
                    header,
                    Command::RegionRead,
                    (REGION_ACCESS_SIZE + len as u32) as u32,
                ),
                ..r
            })
        }),
{
    let r = RegionAccess {
        header: crate::client::request_header(id, Command::RegionRead, REGION_ACCESS_SIZE as u32),
        offset,
        region,
        count: len as u32,
    };
    lemma_region_access_split(r);
    lemma_command_code(Command::RegionRead);
    let b = r.wire();
    let header = Header::from_wire(b);
    let payload = b.subrange(HEADER_SIZE as int, REGION_ACCESS_SIZE as int);
    let x = RegionAccess {
        header: reply_header(header, Command::RegionRead, (REGION_ACCESS_SIZE + len as u32) as u32),
        ..r
    };
    lemma_region_access_wire(x);
    let reply = backend_reply_bytes(header, Command::RegionRead, payload, d);
    assert(reply == x.wire() + d);
    assert(reply.subrange(REGION_ACCESS_SIZE as int, reply.len() as int) =~= d);
    assert(reply.subrange(0, REGION_ACCESS_SIZE as int) =~= x.wire());
    crate::le::lemma_at_subrange(reply, 0, REGION_ACCESS_SIZE as int, 16);
    crate::le::lemma_at_subrange(reply, 0, REGION_ACCESS_SIZE as int, 24);
    crate::le::lemma_at_subrange(reply, 0, REGION_ACCESS_SIZE as int, 28);
    assert(reply.subrange(0, REGION_ACCESS_SIZE as int).subrange(0, HEADER_SIZE as int)
        =~= reply.subrange(0, HEADER_SIZE as int));
}

/// The request that the client sends for a region write reaches the server
/// as sent, and its message size tells the server how many bytes of data
/// follow: as many as the count it carries.
#[verifier::spinoff_prover]
#[verifier::rlimit(30)]
pub proof fn lemma_region_write_exchange(id: u16, region: u32, offset: u64, len: usize)
    requires
        len + REGION_ACCESS_SIZE <= u32::MAX,
    ensures
        ({
            let r = RegionAccess {
                header: crate::client::request_header(
                    id,
                    Command::RegionWrite,
                    (REGION_ACCESS_SIZE + len) as u32,
                ),
                offset,
                region,
                count: len as u32,
            };
            let b = r.wire();
            let header = Header::from_wire(b);
            let payload = b.subrange(HEADER_SIZE as int, REGION_ACCESS_SIZE as int);
            &&& command_of(header.command) == Ok::<Command, u16>(Command::RegionWrite)
            &&& payload.len() == payload_len(Command::RegionWrite)
            &&& RegionAccess::from_wire(header.wire() + payload) == r
            &&& header.message_size - REGION_ACCESS_SIZE == r.count
            &&& r.count == len
        }),
{
    let r = RegionAccess {
        header: crate::client::request_header(
            id,
            Command::RegionWrite,
            (REGION_ACCESS_SIZE + len) as u32,
        ),
        offset,
        region,
        count: len as u32,
    };
    lemma_region_access_split(r);
    lemma_command_code(Command::RegionWrite);
}

/// The DMA unmap request that the client sends reaches the server as sent,
/// and the server's reply, once the backend has unmapped, echoes it under a
/// reply header.
#[verifier::spinoff_prover]
#[verifier::rlimit(30)]
pub proof fn lemma_dma_unmap_exchange(id: u16, address: u64, size: u64)
    ensures
        ({
            let r = DmaUnmap {
                header: crate::client::request_header(
                    id,
                    Command::DmaUnmap,
                    DMA_UNMAP_SIZE as u32,
                ),
                argsz: 24,
                flags: 0,
                address,
                size,
            };
            let b = r.wire();
            let header = Header::from_wire(b);
            let payload = b.subrange(HEADER_SIZE as int, DMA_UNMAP_SIZE as int);
            let reply = backend_reply_bytes(header, Command::DmaUnmap, payload, Seq::empty());
            &&& command_of(header.command) == Ok::<Command, u16>(Command::DmaUnmap)
            &&& payload.len() == payload_len(Command::DmaUnmap)
            &&& DmaUnmap::from_wire(header.wire() + payload) == r
            &&& DmaUnmap::from_wire(reply) == (DmaUnmap {
                header: reply_header(header, Command::DmaUnmap, DMA_UNMAP_SIZE as u32),
                ..r
            })
        }),
{
    let r = DmaUnmap {
        header: crate::client::request_header(id, Command::DmaUnmap, DMA_UNMAP_SIZE as u32),
        argsz: 24,
        flags: 0,
        address,
        size,
    };
    lemma_dma_unmap_split(r);
    lemma_command_code(Command::DmaUnmap);
    let header = Header::from_wire(r.wire());
    lemma_dma_unmap_wire(
        DmaUnmap { header: reply_header(header, Command::DmaUnmap, DMA_UNMAP_SIZE as u32), ..r },
    );
}

/// The interrupt info request that the client sends reaches the server as
/// sent, and what the client keeps of the server's reply is the server's
/// own description of those interrupts.
#[verifier::spinoff_prover]
#[verifier::rlimit(30)]
pub proof fn lemma_irq_info_exchange(server: Server, id: u16, index: u32)
    requires
        index < server.irqs().len(),
    ensures
        ({
            let r = GetIrqInfo {
                header: crate::client::request_header(
                    id,
                    Command::GetIrqInfo,
                    GET_IRQ_INFO_SIZE as u32,
                ),
                argsz: 16,
                flags: 0,
                index,
                count: 0,
            };
            let b = r.wire();
            let header = Header::from_wire(b);
            let payload = b.subrange(HEADER_SIZE as int, GET_IRQ_INFO_SIZE as int);
            let reply = GetIrqInfo::from_wire(server.irq_info_reply(header, index).wire());
            &&& command_of(header.command) == Ok::<Command, u16>(Command::GetIrqInfo)
            &&& payload.len() == payload_len(Command::GetIrqInfo)
            &&& GetIrqInfo::from_wire(header.wire() + payload).index == index
            &&& (IrqInfo { index: reply.index, flags: reply.flags, count: reply.count })
                == server.irqs()[index as int]
        }),
{
    let r = GetIrqInfo {
        header: crate::client::request_header(id, Command::GetIrqInfo, GET_IRQ_INFO_SIZE as u32),
        argsz: 16,
        flags: 0,
        index,
        count: 0,
    };
    lemma_get_irq_info_split(r);
    lemma_command_code(Command::GetIrqInfo);
    let header = Header::from_wire(r.wire());
    lemma_get_irq_info_wire(server.irq_info_reply(header, index));
}

/// The server serves exactly the commands numbered 1 (version), 2 and 3
/// (DMA map and unmap), 4 and 5 (device and region info), 7 and 8 (interrupt
/// info and setup), 9 and 10 (region read and write) and 13 (reset); it
/// refuses 0, 6, 11, 12 and 14.
pub proof fn lemma_served_commands(c: Command)
    ensures
        is_served(c) <==> (c.code() == 1 || c.code() == 2 || c.code() == 3 || c.code() == 4
            || c.code() == 5 || c.code() == 7 || c.code() == 8 || c.code() == 9 || c.code() == 10
            || c.code() == 13),
{
}

/// The device info reply counts the server's own regions and interrupt
/// indices, and reports a PCI device that has the reset flag exactly when
/// the server was made resettable; read back from its bytes, it says the
/// same.
pub proof fn lemma_device_info_reply(server: Server, request: Header)
    ensures
        ({
            let d = DeviceGetInfo::from_wire(server.device_info_reply(request).wire());
            &&& d.num_regions == server.regions().len() as u32
            &&& d.num_irqs == server.irqs().len() as u32
            &&& d.argsz == 16
            &&& d.flags == (if server.is_resettable() {
                3u32
            } else {
                2u32
            })
            &&& d.header.message_id == request.message_id
            &&& d.header.command == 4
            &&& d.header.message_size == 32
        }),
{
    lemma_device_get_info_wire(server.device_info_reply(request));
    assert(2u32 | 1u32 == 3u32) by (bit_vector);
    assert(2u32 | 0u32 == 2u32) by (bit_vector);
}

/// The region info reply carries the server's own description of the
/// region asked for, with its size at byte 32 and its offset at byte 40.
pub proof fn lemma_region_info_reply(server: Server, request: Header, index: u32)
    requires
        index < server.regions().len(),
    ensures
        ({
            let b = server.region_info_reply(request, index).wire();
            &&& DeviceGetRegionInfo::from_wire(b).region_info == server.regions()[index as int]
            &&& crate::le::u64_at(b, 32) == server.regions()[index as int].size
            &&& crate::le::u64_at(b, 40) == server.regions()[index as int].offset
            &&& crate::le::u32_at(b, 24) == server.regions()[index as int].index
        }),
{
    let m = server.region_info_reply(request, index);
    lemma_device_get_region_info_wire(m);
    crate::proto::lemma_device_get_region_info_layout(m, m.wire());
}

/// A reply header carries the request's message id, the command's number,
/// the reply flag (1) and no error.
pub proof fn lemma_reply_header(request: Header, c: Command, message_size: u32)
    ensures
        reply_header(request, c, message_size).message_id == request.message_id,
        reply_header(request, c, message_size).command == c.code(),
        reply_header(request, c, message_size).message_size == message_size,
        reply_header(request, c, message_size).flags == 1,
        reply_header(request, c, message_size).error == 0,
{
}

} // verus!
