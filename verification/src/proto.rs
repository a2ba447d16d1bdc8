//! The vfio-user messages: their commands, header flags, flag sets, and
//! little-endian wire layout.

use vstd::prelude::*;

use crate::bindings::{lemma_vfio_region_info_from_wire, lemma_vfio_region_info_wire, vfio_region_info};
use crate::le::{
    lemma_at_subrange, lemma_u16_at, lemma_u16_le, lemma_u32_at, lemma_u32_le, lemma_u64_at, lemma_u64_le, push_u16,
    push_u32, push_u64, read_u16, read_u32, read_u64, u16_at, u16_le, u32_at, u32_le, u64_at,
    u64_le,
};

verus! {

/// The commands of the vfio-user protocol.
#[derive(Clone, Copy, Debug, Default, PartialEq, Eq, Structural)]
pub enum Command {
    #[default]
    Unknown,
    Version,
    DmaMap,
    DmaUnmap,
    DeviceGetInfo,
    DeviceGetRegionInfo,
    GetRegionIoFds,
    GetIrqInfo,
    SetIrqs,
    RegionRead,
    RegionWrite,
    DmaRead,
    DmaWrite,
    DeviceReset,
    UserDirtyPages,
}

impl Command {
    /// The number that stands for the command in a message header.
    pub open spec fn code(self) -> u16 {
        match self {
            Command::Unknown => 0,
            Command::Version => 1,
            Command::DmaMap => 2,
            Command::DmaUnmap => 3,
            Command::DeviceGetInfo => 4,
            Command::DeviceGetRegionInfo => 5,
            Command::GetRegionIoFds => 6,
            Command::GetIrqInfo => 7,
            Command::SetIrqs => 8,
            Command::RegionRead => 9,
            Command::RegionWrite => 10,
            Command::DmaRead => 11,
            Command::DmaWrite => 12,
            Command::DeviceReset => 13,
            Command::UserDirtyPages => 14,
        }
    }
}

/// The command that `v` stands for, or `v` itself when it stands for none.
pub open spec fn command_of(v: u16) -> Result<Command, u16> {
    if v == 0 {
        Ok(Command::Unknown)
    } else if v == 1 {
        Ok(Command::Version)
    } else if v == 2 {
        Ok(Command::DmaMap)
    } else if v == 3 {
        Ok(Command::DmaUnmap)
    } else if v == 4 {
        Ok(Command::DeviceGetInfo)
    } else if v == 5 {
        Ok(Command::DeviceGetRegionInfo)
    } else if v == 6 {
        Ok(Command::GetRegionIoFds)
    } else if v == 7 {
        Ok(Command::GetIrqInfo)
    } else if v == 8 {
        Ok(Command::SetIrqs)
    } else if v == 9 {
        Ok(Command::RegionRead)
    } else if v == 10 {
        Ok(Command::RegionWrite)
    } else if v == 11 {
        Ok(Command::DmaRead)
    } else if v == 12 {
        Ok(Command::DmaWrite)
    } else if v == 13 {
        Ok(Command::DeviceReset)
    } else if v == 14 {
        Ok(Command::UserDirtyPages)
    } else {
        Err(v)
    }
}

impl From<Command> for u16 {
    fn from(value: Command) -> (r: u16) {
        match value {
            Command::Unknown => 0,
            Command::Version => 1,
            Command::DmaMap => 2,
            Command::DmaUnmap => 3,
            Command::DeviceGetInfo => 4,
            Command::DeviceGetRegionInfo => 5,
            Command::GetRegionIoFds => 6,
            Command::GetIrqInfo => 7,
            Command::SetIrqs => 8,
            Command::RegionRead => 9,
            Command::RegionWrite => 10,
            Command::DmaRead => 11,
            Command::DmaWrite => 12,
            Command::DeviceReset => 13,
            Command::UserDirtyPages => 14,
        }
    }
}

impl vstd::std_specs::convert::FromSpecImpl<Command> for u16 {
    open spec fn obeys_from_spec() -> bool {
        true
    }

    open spec fn from_spec(v: Command) -> u16 {
        v.code()
    }
}

impl TryFrom<u16> for Command {
    type Error = u16;

    fn try_from(value: u16) -> (r: Result<Command, u16>) {
        match value {
            0 => Ok(Command::Unknown),
            1 => Ok(Command::Version),
            2 => Ok(Command::DmaMap),
            3 => Ok(Command::DmaUnmap),
            4 => Ok(Command::DeviceGetInfo),
            5 => Ok(Command::DeviceGetRegionInfo),
            6 => Ok(Command::GetRegionIoFds),
            7 => Ok(Command::GetIrqInfo),
            8 => Ok(Command::SetIrqs),
            9 => Ok(Command::RegionRead),
            10 => Ok(Command::RegionWrite),
            11 => Ok(Command::DmaRead),
            12 => Ok(Command::DmaWrite),
            13 => Ok(Command::DeviceReset),
            14 => Ok(Command::UserDirtyPages),
            _ => Err(value),
        }
    }
}

impl vstd::std_specs::convert::TryFromSpecImpl<u16> for Command {
    open spec fn obeys_try_from_spec() -> bool {
        true
    }

    open spec fn try_from_spec(v: u16) -> Result<Command, u16> {
        command_of(v)
    }
}

/// Every command is read back from its number.
pub proof fn lemma_command_code(c: Command)
    ensures
        command_of(c.code()) == Ok::<Command, u16>(c),
{
}

/// A number read as a command is that command's number; the numbers that
/// stand for no command are those above 14, and they are handed back.
pub proof fn lemma_command_of(v: u16)
    ensures
        command_of(v) matches Ok(c) ==> c.code() == v,
        command_of(v) is Err <==> v > 14,
        command_of(v) matches Err(e) ==> e == v,
{
}

/// The flags of a message header.
#[derive(Clone, Copy, Debug, PartialEq, Eq, Default, Structural)]
pub enum HeaderFlags {
    #[default]
    Command,
    Reply,
    NoReply,
    Error,
}

impl HeaderFlags {
    /// The bits that stand for the flag in a message header.
    pub open spec fn bits(self) -> u32 {
        match self {
            HeaderFlags::Command => 0,
            HeaderFlags::Reply => 1,
            HeaderFlags::NoReply => 0x10,
            HeaderFlags::Error => 0x20,
        }
    }
}

impl From<HeaderFlags> for u32 {
    fn from(value: HeaderFlags) -> (r: u32) {
        match value {
            HeaderFlags::Command => 0,
            HeaderFlags::Reply => 1,
            HeaderFlags::NoReply => 0x10,
            HeaderFlags::Error => 0x20,
        }
    }
}

impl vstd::std_specs::convert::FromSpecImpl<HeaderFlags> for u32 {
    open spec fn obeys_from_spec() -> bool {
        true
    }

    open spec fn from_spec(v: HeaderFlags) -> u32 {
        v.bits()
    }
}

/// The flags of a DMA map request. Every bit is kept, known or not.
#[derive(Debug, Clone, Copy, PartialEq, Eq, Structural)]
pub struct DmaMapFlags {
    bits: u32,
}

impl DmaMapFlags {
    pub closed spec fn spec_bits(self) -> u32 {
        self.bits
    }

    /// The mapping may be read.
    pub fn read() -> (r: DmaMapFlags)
        ensures
            r.spec_bits() == 1,
    {
        DmaMapFlags { bits: 1 }
    }

    /// The mapping may be written.
    pub fn write() -> (r: DmaMapFlags)
        ensures
            r.spec_bits() == 2,
    {
        DmaMapFlags { bits: 2 }
    }

    /// The mapping may be read and written.
    pub fn read_write() -> (r: DmaMapFlags)
        ensures
            r.spec_bits() == 3,
    {
        DmaMapFlags { bits: 3 }
    }

    /// The raw bits.
    pub fn bits(&self) -> (r: u32)
        ensures
            r == self.spec_bits(),
    {
        self.bits
    }

    /// The flags with these bits; none is dropped.
    pub fn from_bits_truncate(bits: u32) -> (r: DmaMapFlags)
        ensures
            r.spec_bits() == bits,
    {
        DmaMapFlags { bits }
    }

    /// Whether every bit of `other` is set here.
    pub fn contains(&self, other: DmaMapFlags) -> (r: bool)
        ensures
            r == (self.spec_bits() & other.spec_bits() == other.spec_bits()),
    {
        self.bits & other.bits == other.bits
    }
}

/// The flags of a DMA unmap request. Every bit is kept, known or not.
#[derive(Debug, Clone, Copy, PartialEq, Eq, Structural)]
pub struct DmaUnmapFlags {
    bits: u32,
}

impl DmaUnmapFlags {
    pub closed spec fn spec_bits(self) -> u32 {
        self.bits
    }

    /// The dirty page bitmap is asked for.
    pub fn get_dirty_page_info() -> (r: DmaUnmapFlags)
        ensures
            r.spec_bits() == 2,
    {
        DmaUnmapFlags { bits: 2 }
    }

    /// Every mapping is to be removed.
    pub fn unmap_all() -> (r: DmaUnmapFlags)
        ensures
            r.spec_bits() == 4,
    {
        DmaUnmapFlags { bits: 4 }
    }

    /// The raw bits.
    pub fn bits(&self) -> (r: u32)
        ensures
            r == self.spec_bits(),
    {
        self.bits
    }

    /// The flags with these bits; none is dropped.
    pub fn from_bits_truncate(bits: u32) -> (r: DmaUnmapFlags)
        ensures
            r.spec_bits() == bits,
    {
        DmaUnmapFlags { bits }
    }

    /// Whether every bit of `other` is set here.
    pub fn contains(&self, other: DmaUnmapFlags) -> (r: bool)
        ensures
            r == (self.spec_bits() & other.spec_bits() == other.spec_bits()),
    {
        self.bits & other.bits == other.bits
    }
}

/// The header that starts every vfio-user message.
#[derive(Default, Clone, Copy, Debug, PartialEq, Eq)]
pub struct Header {
    pub message_id: u16,
    pub command: u16,
    pub message_size: u32,
    pub flags: u32,
    pub error: u32,
}

/// The version message; its capabilities follow it as a NUL-terminated
/// JSON text.
#[derive(Default, Clone, Copy, Debug, PartialEq, Eq)]
pub struct Version {
    pub header: Header,
    pub major: u16,
    pub minor: u16,
}

/// The migration capabilities of a peer.
#[derive(Default, Clone, Copy, Debug, PartialEq, Eq)]
pub struct MigrationCapabilities {
    pub pgsize: u32,
}

#[derive(Default, Clone, Copy, Debug, PartialEq, Eq)]
pub struct DmaMap {
    pub header: Header,
    pub argsz: u32,
    pub flags: u32,
    pub offset: u64,
    pub address: u64,
    pub size: u64,
}

#[derive(Default, Clone, Copy, Debug, PartialEq, Eq)]
pub struct DmaUnmap {
    pub header: Header,
    pub argsz: u32,
    pub flags: u32,
    pub address: u64,
    pub size: u64,
}

#[derive(Default, Clone, Copy, Debug, PartialEq, Eq)]
pub struct DeviceGetInfo {
    pub header: Header,
    pub argsz: u32,
    pub flags: u32,
    pub num_regions: u32,
    pub num_irqs: u32,
}

#[derive(Default, Clone, Copy, Debug, PartialEq, Eq)]
pub struct DeviceGetRegionInfo {
    pub header: Header,
    pub region_info: vfio_region_info,
}

/// A region read or write; the data follows the message.
#[derive(Default, Clone, Copy, Debug, PartialEq, Eq)]
pub struct RegionAccess {
    pub header: Header,
    pub offset: u64,
    pub region: u32,
    pub count: u32,
}

#[derive(Default, Clone, Copy, Debug, PartialEq, Eq)]
pub struct GetIrqInfo {
    pub header: Header,
    pub argsz: u32,
    pub flags: u32,
    pub index: u32,
    pub count: u32,
}

#[derive(Default, Clone, Copy, Debug, PartialEq, Eq)]
pub struct SetIrqs {
    pub header: Header,
    pub argsz: u32,
    pub flags: u32,
    pub index: u32,
    pub start: u32,
    pub count: u32,
}

#[derive(Default, Clone, Copy, Debug, PartialEq, Eq)]
pub struct DeviceReset {
    pub header: Header,
}

/// The size in bytes of a message header.
pub const HEADER_SIZE: usize = 16;

impl Header {
    /// The wire bytes of a message header.
    pub open spec fn wire(self) -> Seq<u8> {
        u16_le(self.message_id)
            + u16_le(self.command)
            + u32_le(self.message_size)
            + u32_le(self.flags)
            + u32_le(self.error)
    }

    /// The value that the first 16 bytes of `b` hold.
    pub open spec fn from_wire(b: Seq<u8>) -> Header {
        Header {
            message_id: u16_at(b, 0),
            command: u16_at(b, 2),
            message_size: u32_at(b, 4),
            flags: u32_at(b, 8),
            error: u32_at(b, 12),
        }
    }

    /// Appends the wire bytes to `buf`.
    pub fn write_to(&self, buf: &mut Vec<u8>)
        ensures
            final(buf)@ == old(buf)@ + self.wire(),
    {
        push_u16(buf, self.message_id);
        push_u16(buf, self.command);
        push_u32(buf, self.message_size);
        push_u32(buf, self.flags);
        push_u32(buf, self.error);
        assert(final(buf)@ =~= old(buf)@ + self.wire());
    }

    /// Reads the value stored at byte `off` of `b`.
    pub fn read_from(b: &[u8], off: usize) -> (r: Header)
        requires
            off + HEADER_SIZE <= b.len(),
        ensures
            r == Header::from_wire(b@.subrange(off as int, off + HEADER_SIZE)),
    {
        Header {
            message_id: read_u16(b, off),
            command: read_u16(b, off + 2),
            message_size: read_u32(b, off + 4),
            flags: read_u32(b, off + 8),
            error: read_u32(b, off + 12),
        }
    }

    /// The wire bytes, in a new buffer.
    pub fn to_bytes(&self) -> (r: Vec<u8>)
        ensures
            r@ == self.wire(),
    {
        let mut buf: Vec<u8> = Vec::new();
        self.write_to(&mut buf);
        assert(buf@ =~= self.wire());
        buf
    }

    /// Decodes `b`, which must hold exactly 16 bytes.
    pub fn from_bytes(b: &[u8]) -> (r: Option<Header>)
        ensures
            r is Some <==> b@.len() == HEADER_SIZE,
            r matches Some(m) ==> m == Header::from_wire(b@),
    {
        if b.len() == HEADER_SIZE {
            assert(b@.subrange(0, HEADER_SIZE as int) =~= b@);
            Some(Header::read_from(b, 0))
        } else {
            None
        }
    }
}

/// Decoding the wire bytes of a message header gives it back.
pub proof fn lemma_header_wire(m: Header)
    ensures
        m.wire().len() == HEADER_SIZE,
        Header::from_wire(m.wire()) == m,
{
    lemma_u16_le(m.message_id);
    lemma_u16_le(m.command);
    lemma_u32_le(m.message_size);
    lemma_u32_le(m.flags);
    lemma_u32_le(m.error);
    let b = m.wire();
    assert(Header::from_wire(b).message_id == m.message_id);
    assert(Header::from_wire(b).command == m.command);
    assert(Header::from_wire(b).message_size == m.message_size);
    assert(Header::from_wire(b).flags == m.flags);
    assert(Header::from_wire(b).error == m.error);
}

/// Encoding the value read from 16 bytes gives those bytes back.
pub proof fn lemma_header_from_wire(b: Seq<u8>)
    requires
        b.len() == HEADER_SIZE,
    ensures
        Header::from_wire(b).wire() == b,
{
    lemma_u16_at(b, 0);
    lemma_u16_at(b, 2);
    lemma_u32_at(b, 4);
    lemma_u32_at(b, 8);
    lemma_u32_at(b, 12);
    assert(Header::from_wire(b).wire() =~= b);
}

/// The size in bytes of a version message, without its capabilities.
pub const VERSION_SIZE: usize = 20;

impl Version {
    /// The wire bytes of a version message, without its capabilities.
    pub open spec fn wire(self) -> Seq<u8> {
        self.header.wire()
            + u16_le(self.major)
            + u16_le(self.minor)
    }

    /// The value that the first 20 bytes of `b` hold.
    pub open spec fn from_wire(b: Seq<u8>) -> Version {
        Version {
            header: Header::from_wire(b.subrange(0, 16)),
            major: u16_at(b, 16),
            minor: u16_at(b, 18),
        }
    }

    /// Appends the wire bytes to `buf`.
    pub fn write_to(&self, buf: &mut Vec<u8>)
        ensures
            final(buf)@ == old(buf)@ + self.wire(),
    {
        self.header.write_to(buf);
        push_u16(buf, self.major);
        push_u16(buf, self.minor);
        assert(final(buf)@ =~= old(buf)@ + self.wire());
    }

    /// Reads the value stored at byte `off` of `b`.
    pub fn read_from(b: &[u8], off: usize) -> (r: Version)
        requires
            off + VERSION_SIZE <= b.len(),
        ensures
            r == Version::from_wire(b@.subrange(off as int, off + VERSION_SIZE)),
    {
        assert(b@.subrange(off as int, off + VERSION_SIZE).subrange(0, 16) =~= b@.subrange(off + 0, off + 16));
        Version {
            header: Header::read_from(b, off),
            major: read_u16(b, off + 16),
            minor: read_u16(b, off + 18),
        }
    }

    /// The wire bytes, in a new buffer.
    pub fn to_bytes(&self) -> (r: Vec<u8>)
        ensures
            r@ == self.wire(),
    {
        let mut buf: Vec<u8> = Vec::new();
        self.write_to(&mut buf);
        assert(buf@ =~= self.wire());
        buf
    }

    /// Decodes `b`, which must hold exactly 20 bytes.
    pub fn from_bytes(b: &[u8]) -> (r: Option<Version>)
        ensures
            r is Some <==> b@.len() == VERSION_SIZE,
            r matches Some(m) ==> m == Version::from_wire(b@),
    {
        if b.len() == VERSION_SIZE {
            assert(b@.subrange(0, VERSION_SIZE as int) =~= b@);
            Some(Version::read_from(b, 0))
        } else {
            None
        }
    }
}

/// Decoding the wire bytes of a version message, without its capabilities gives it back.
pub proof fn lemma_version_wire(m: Version)
    ensures
        m.wire().len() == VERSION_SIZE,
        Version::from_wire(m.wire()) == m,
{
    lemma_header_wire(m.header);
    lemma_u16_le(m.major);
    lemma_u16_le(m.minor);
    let b = m.wire();
    assert(b.subrange(0, 16) =~= m.header.wire());
    assert(Version::from_wire(b).header == m.header);
    assert(Version::from_wire(b).major == m.major);
    assert(Version::from_wire(b).minor == m.minor);
}

/// Encoding the value read from 20 bytes gives those bytes back.
pub proof fn lemma_version_from_wire(b: Seq<u8>)
    requires
        b.len() == VERSION_SIZE,
    ensures
        Version::from_wire(b).wire() == b,
{
    lemma_header_from_wire(b.subrange(0, 16));
    lemma_u16_at(b, 16);
    lemma_u16_at(b, 18);
    assert(Version::from_wire(b).wire() =~= b);
}

/// The size in bytes of the migration capabilities.
pub const MIGRATION_CAPABILITIES_SIZE: usize = 4;

impl MigrationCapabilities {
    /// The wire bytes of the migration capabilities.
    pub open spec fn wire(self) -> Seq<u8> {
        u32_le(self.pgsize)
    }

    /// The value that the first 4 bytes of `b` hold.
    pub open spec fn from_wire(b: Seq<u8>) -> MigrationCapabilities {
        MigrationCapabilities {
            pgsize: u32_at(b, 0),
        }
    }

    /// Appends the wire bytes to `buf`.
    pub fn write_to(&self, buf: &mut Vec<u8>)
        ensures
            final(buf)@ == old(buf)@ + self.wire(),
    {
        push_u32(buf, self.pgsize);
        assert(final(buf)@ =~= old(buf)@ + self.wire());
    }

    /// Reads the value stored at byte `off` of `b`.
    pub fn read_from(b: &[u8], off: usize) -> (r: MigrationCapabilities)
        requires
            off + MIGRATION_CAPABILITIES_SIZE <= b.len(),
        ensures
            r == MigrationCapabilities::from_wire(b@.subrange(off as int, off + MIGRATION_CAPABILITIES_SIZE)),
    {
        MigrationCapabilities {
            pgsize: read_u32(b, off),
        }
    }

    /// The wire bytes, in a new buffer.
    pub fn to_bytes(&self) -> (r: Vec<u8>)
        ensures
            r@ == self.wire(),
    {
        let mut buf: Vec<u8> = Vec::new();
        self.write_to(&mut buf);
        assert(buf@ =~= self.wire());
        buf
    }

    /// Decodes `b`, which must hold exactly 4 bytes.
    pub fn from_bytes(b: &[u8]) -> (r: Option<MigrationCapabilities>)
        ensures
            r is Some <==> b@.len() == MIGRATION_CAPABILITIES_SIZE,
            r matches Some(m) ==> m == MigrationCapabilities::from_wire(b@),
    {
        if b.len() == MIGRATION_CAPABILITIES_SIZE {
            assert(b@.subrange(0, MIGRATION_CAPABILITIES_SIZE as int) =~= b@);
            Some(MigrationCapabilities::read_from(b, 0))
        } else {
            None
        }
    }
}

/// Decoding the wire bytes of the migration capabilities gives it back.
pub proof fn lemma_migration_capabilities_wire(m: MigrationCapabilities)
    ensures
        m.wire().len() == MIGRATION_CAPABILITIES_SIZE,
        MigrationCapabilities::from_wire(m.wire()) == m,
{
    lemma_u32_le(m.pgsize);
    let b = m.wire();
    assert(MigrationCapabilities::from_wire(b).pgsize == m.pgsize);
}

/// Encoding the value read from 4 bytes gives those bytes back.
pub proof fn lemma_migration_capabilities_from_wire(b: Seq<u8>)
    requires
        b.len() == MIGRATION_CAPABILITIES_SIZE,
    ensures
        MigrationCapabilities::from_wire(b).wire() == b,
{
    lemma_u32_at(b, 0);
    assert(MigrationCapabilities::from_wire(b).wire() =~= b);
}

/// The size in bytes of a DMA map message.
pub const DMA_MAP_SIZE: usize = 48;

impl DmaMap {
    /// The wire bytes of a DMA map message.
    pub open spec fn wire(self) -> Seq<u8> {
        self.header.wire()
            + u32_le(self.argsz)
            + u32_le(self.flags)
            + u64_le(self.offset)
            + u64_le(self.address)
            + u64_le(self.size)
    }

    /// The value that the first 48 bytes of `b` hold.
    pub open spec fn from_wire(b: Seq<u8>) -> DmaMap {
        DmaMap {
            header: Header::from_wire(b.subrange(0, 16)),
            argsz: u32_at(b, 16),
            flags: u32_at(b, 20),
            offset: u64_at(b, 24),
            address: u64_at(b, 32),
            size: u64_at(b, 40),
        }
    }

    /// Appends the wire bytes to `buf`.
    pub fn write_to(&self, buf: &mut Vec<u8>)
        ensures
            final(buf)@ == old(buf)@ + self.wire(),
    {
        self.header.write_to(buf);
        push_u32(buf, self.argsz);
        push_u32(buf, self.flags);
        push_u64(buf, self.offset);
        push_u64(buf, self.address);
        push_u64(buf, self.size);
        assert(final(buf)@ =~= old(buf)@ + self.wire());
    }

    /// Reads the value stored at byte `off` of `b`.
    pub fn read_from(b: &[u8], off: usize) -> (r: DmaMap)
        requires
            off + DMA_MAP_SIZE <= b.len(),
        ensures
            r == DmaMap::from_wire(b@.subrange(off as int, off + DMA_MAP_SIZE)),
    {
        assert(b@.subrange(off as int, off + DMA_MAP_SIZE).subrange(0, 16) =~= b@.subrange(off + 0, off + 16));
        DmaMap {
            header: Header::read_from(b, off),
            argsz: read_u32(b, off + 16),
            flags: read_u32(b, off + 20),
            offset: read_u64(b, off + 24),
            address: read_u64(b, off + 32),
            size: read_u64(b, off + 40),
        }
    }

    /// The wire bytes, in a new buffer.
    pub fn to_bytes(&self) -> (r: Vec<u8>)
        ensures
            r@ == self.wire(),
    {
        let mut buf: Vec<u8> = Vec::new();
        self.write_to(&mut buf);
        assert(buf@ =~= self.wire());
        buf
    }

    /// Decodes `b`, which must hold exactly 48 bytes.
    pub fn from_bytes(b: &[u8]) -> (r: Option<DmaMap>)
        ensures
            r is Some <==> b@.len() == DMA_MAP_SIZE,
            r matches Some(m) ==> m == DmaMap::from_wire(b@),
    {
        if b.len() == DMA_MAP_SIZE {
            assert(b@.subrange(0, DMA_MAP_SIZE as int) =~= b@);
            Some(DmaMap::read_from(b, 0))
        } else {
            None
        }
    }
}

/// Decoding the wire bytes of a DMA map message gives it back.
pub proof fn lemma_dma_map_wire(m: DmaMap)
    ensures
        m.wire().len() == DMA_MAP_SIZE,
        DmaMap::from_wire(m.wire()) == m,
{
    lemma_header_wire(m.header);
    lemma_u32_le(m.argsz);
    lemma_u32_le(m.flags);
    lemma_u64_le(m.offset);
    lemma_u64_le(m.address);
    lemma_u64_le(m.size);
    let b = m.wire();
    assert(b.subrange(0, 16) =~= m.header.wire());
    assert(DmaMap::from_wire(b).header == m.header);
    assert(DmaMap::from_wire(b).argsz == m.argsz);
    assert(DmaMap::from_wire(b).flags == m.flags);
    assert(DmaMap::from_wire(b).offset == m.offset);
    assert(DmaMap::from_wire(b).address == m.address);
    assert(DmaMap::from_wire(b).size == m.size);
}

/// Encoding the value read from 48 bytes gives those bytes back.
pub proof fn lemma_dma_map_from_wire(b: Seq<u8>)
    requires
        b.len() == DMA_MAP_SIZE,
    ensures
        DmaMap::from_wire(b).wire() == b,
{
    lemma_header_from_wire(b.subrange(0, 16));
    lemma_u32_at(b, 16);
    lemma_u32_at(b, 20);
    lemma_u64_at(b, 24);
    lemma_u64_at(b, 32);
    lemma_u64_at(b, 40);
    assert(DmaMap::from_wire(b).wire() =~= b);
}

/// The size in bytes of a DMA unmap message.
pub const DMA_UNMAP_SIZE: usize = 40;

impl DmaUnmap {
    /// The wire bytes of a DMA unmap message.
    pub open spec fn wire(self) -> Seq<u8> {
        self.header.wire()
            + u32_le(self.argsz)
            + u32_le(self.flags)
            + u64_le(self.address)
            + u64_le(self.size)
    }

    /// The value that the first 40 bytes of `b` hold.
    pub open spec fn from_wire(b: Seq<u8>) -> DmaUnmap {
        DmaUnmap {
            header: Header::from_wire(b.subrange(0, 16)),
            argsz: u32_at(b, 16),
            flags: u32_at(b, 20),
            address: u64_at(b, 24),
            size: u64_at(b, 32),
        }
    }

    /// Appends the wire bytes to `buf`.
    pub fn write_to(&self, buf: &mut Vec<u8>)
        ensures
            final(buf)@ == old(buf)@ + self.wire(),
    {
        self.header.write_to(buf);
        push_u32(buf, self.argsz);
        push_u32(buf, self.flags);
        push_u64(buf, self.address);
        push_u64(buf, self.size);
        assert(final(buf)@ =~= old(buf)@ + self.wire());
    }

    /// Reads the value stored at byte `off` of `b`.
    pub fn read_from(b: &[u8], off: usize) -> (r: DmaUnmap)
        requires
            off + DMA_UNMAP_SIZE <= b.len(),
        ensures
            r == DmaUnmap::from_wire(b@.subrange(off as int, off + DMA_UNMAP_SIZE)),
    {
        assert(b@.subrange(off as int, off + DMA_UNMAP_SIZE).subrange(0, 16) =~= b@.subrange(off + 0, off + 16));
        DmaUnmap {
            header: Header::read_from(b, off),
            argsz: read_u32(b, off + 16),
            flags: read_u32(b, off + 20),
            address: read_u64(b, off + 24),
            size: read_u64(b, off + 32),
        }
    }

    /// The wire bytes, in a new buffer.
    pub fn to_bytes(&self) -> (r: Vec<u8>)
        ensures
            r@ == self.wire(),
    {
        let mut buf: Vec<u8> = Vec::new();
        self.write_to(&mut buf);
        assert(buf@ =~= self.wire());
        buf
    }

    /// Decodes `b`, which must hold exactly 40 bytes.
    pub fn from_bytes(b: &[u8]) -> (r: Option<DmaUnmap>)
        ensures
            r is Some <==> b@.len() == DMA_UNMAP_SIZE,
            r matches Some(m) ==> m == DmaUnmap::from_wire(b@),
    {
        if b.len() == DMA_UNMAP_SIZE {
            assert(b@.subrange(0, DMA_UNMAP_SIZE as int) =~= b@);
            Some(DmaUnmap::read_from(b, 0))
        } else {
            None
        }
    }
}

/// Decoding the wire bytes of a DMA unmap message gives it back.
pub proof fn lemma_dma_unmap_wire(m: DmaUnmap)
    ensures
        m.wire().len() == DMA_UNMAP_SIZE,
        DmaUnmap::from_wire(m.wire()) == m,
{
    lemma_header_wire(m.header);
    lemma_u32_le(m.argsz);
    lemma_u32_le(m.flags);
    lemma_u64_le(m.address);
    lemma_u64_le(m.size);
    let b = m.wire();
    assert(b.subrange(0, 16) =~= m.header.wire());
    assert(DmaUnmap::from_wire(b).header == m.header);
    assert(DmaUnmap::from_wire(b).argsz == m.argsz);
    assert(DmaUnmap::from_wire(b).flags == m.flags);
    assert(DmaUnmap::from_wire(b).address == m.address);
    assert(DmaUnmap::from_wire(b).size == m.size);
}

/// Encoding the value read from 40 bytes gives those bytes back.
pub proof fn lemma_dma_unmap_from_wire(b: Seq<u8>)
    requires
        b.len() == DMA_UNMAP_SIZE,
    ensures
        DmaUnmap::from_wire(b).wire() == b,
{
    lemma_header_from_wire(b.subrange(0, 16));
    lemma_u32_at(b, 16);
    lemma_u32_at(b, 20);
    lemma_u64_at(b, 24);
    lemma_u64_at(b, 32);
    assert(DmaUnmap::from_wire(b).wire() =~= b);
}

/// The size in bytes of a device info message.
pub const DEVICE_GET_INFO_SIZE: usize = 32;

impl DeviceGetInfo {
    /// The wire bytes of a device info message.
    pub open spec fn wire(self) -> Seq<u8> {
        self.header.wire()
            + u32_le(self.argsz)
            + u32_le(self.flags)
            + u32_le(self.num_regions)
            + u32_le(self.num_irqs)
    }

    /// The value that the first 32 bytes of `b` hold.
    pub open spec fn from_wire(b: Seq<u8>) -> DeviceGetInfo {
        DeviceGetInfo {
            header: Header::from_wire(b.subrange(0, 16)),
            argsz: u32_at(b, 16),
            flags: u32_at(b, 20),
            num_regions: u32_at(b, 24),
            num_irqs: u32_at(b, 28),
        }
    }

    /// Appends the wire bytes to `buf`.
    pub fn write_to(&self, buf: &mut Vec<u8>)
        ensures
            final(buf)@ == old(buf)@ + self.wire(),
    {
        self.header.write_to(buf);
        push_u32(buf, self.argsz);
        push_u32(buf, self.flags);
        push_u32(buf, self.num_regions);
        push_u32(buf, self.num_irqs);
        assert(final(buf)@ =~= old(buf)@ + self.wire());
    }

    /// Reads the value stored at byte `off` of `b`.
    pub fn read_from(b: &[u8], off: usize) -> (r: DeviceGetInfo)
        requires
            off + DEVICE_GET_INFO_SIZE <= b.len(),
        ensures
            r == DeviceGetInfo::from_wire(b@.subrange(off as int, off + DEVICE_GET_INFO_SIZE)),
    {
        assert(b@.subrange(off as int, off + DEVICE_GET_INFO_SIZE).subrange(0, 16) =~= b@.subrange(off + 0, off + 16));
        DeviceGetInfo {
            header: Header::read_from(b, off),
            argsz: read_u32(b, off + 16),
            flags: read_u32(b, off + 20),
            num_regions: read_u32(b, off + 24),
            num_irqs: read_u32(b, off + 28),
        }
    }

    /// The wire bytes, in a new buffer.
    pub fn to_bytes(&self) -> (r: Vec<u8>)
        ensures
            r@ == self.wire(),
    {
        let mut buf: Vec<u8> = Vec::new();
        self.write_to(&mut buf);
        assert(buf@ =~= self.wire());
        buf
    }

    /// Decodes `b`, which must hold exactly 32 bytes.
    pub fn from_bytes(b: &[u8]) -> (r: Option<DeviceGetInfo>)
        ensures
            r is Some <==> b@.len() == DEVICE_GET_INFO_SIZE,
            r matches Some(m) ==> m == DeviceGetInfo::from_wire(b@),
    {
        if b.len() == DEVICE_GET_INFO_SIZE {
            assert(b@.subrange(0, DEVICE_GET_INFO_SIZE as int) =~= b@);
            Some(DeviceGetInfo::read_from(b, 0))
        } else {
            None
        }
    }
}

/// Decoding the wire bytes of a device info message gives it back.
pub proof fn lemma_device_get_info_wire(m: DeviceGetInfo)
    ensures
        m.wire().len() == DEVICE_GET_INFO_SIZE,
        DeviceGetInfo::from_wire(m.wire()) == m,
{
    lemma_header_wire(m.header);
    lemma_u32_le(m.argsz);
    lemma_u32_le(m.flags);
    lemma_u32_le(m.num_regions);
    lemma_u32_le(m.num_irqs);
    let b = m.wire();
    assert(b.subrange(0, 16) =~= m.header.wire());
    assert(DeviceGetInfo::from_wire(b).header == m.header);
    assert(DeviceGetInfo::from_wire(b).argsz == m.argsz);
    assert(DeviceGetInfo::from_wire(b).flags == m.flags);
    assert(DeviceGetInfo::from_wire(b).num_regions == m.num_regions);
    assert(DeviceGetInfo::from_wire(b).num_irqs == m.num_irqs);
}

/// Encoding the value read from 32 bytes gives those bytes back.
pub proof fn lemma_device_get_info_from_wire(b: Seq<u8>)
    requires
        b.len() == DEVICE_GET_INFO_SIZE,
    ensures
        DeviceGetInfo::from_wire(b).wire() == b,
{
    lemma_header_from_wire(b.subrange(0, 16));
    lemma_u32_at(b, 16);
    lemma_u32_at(b, 20);
    lemma_u32_at(b, 24);
    lemma_u32_at(b, 28);
    assert(DeviceGetInfo::from_wire(b).wire() =~= b);
}

/// The size in bytes of a region info message, without its capabilities.
pub const DEVICE_GET_REGION_INFO_SIZE: usize = 48;

impl DeviceGetRegionInfo {
    /// The wire bytes of a region info message, without its capabilities.
    pub open spec fn wire(self) -> Seq<u8> {
        self.header.wire()
            + self.region_info.wire()
    }

    /// The value that the first 48 bytes of `b` hold.
    pub open spec fn from_wire(b: Seq<u8>) -> DeviceGetRegionInfo {
        DeviceGetRegionInfo {
            header: Header::from_wire(b.subrange(0, 16)),
            region_info: vfio_region_info::from_wire(b.subrange(16, 48)),
        }
    }

    /// Appends the wire bytes to `buf`.
    pub fn write_to(&self, buf: &mut Vec<u8>)
        ensures
            final(buf)@ == old(buf)@ + self.wire(),
    {
        self.header.write_to(buf);
        self.region_info.write_to(buf);
        assert(final(buf)@ =~= old(buf)@ + self.wire());
    }

    /// Reads the value stored at byte `off` of `b`.
    pub fn read_from(b: &[u8], off: usize) -> (r: DeviceGetRegionInfo)
        requires
            off + DEVICE_GET_REGION_INFO_SIZE <= b.len(),
        ensures
            r == DeviceGetRegionInfo::from_wire(b@.subrange(off as int, off + DEVICE_GET_REGION_INFO_SIZE)),
    {
        assert(b@.subrange(off as int, off + DEVICE_GET_REGION_INFO_SIZE).subrange(0, 16) =~= b@.subrange(off + 0, off + 16));
        assert(b@.subrange(off as int, off + DEVICE_GET_REGION_INFO_SIZE).subrange(16, 48) =~= b@.subrange(off + 16, off + 48));
        DeviceGetRegionInfo {
            header: Header::read_from(b, off),
            region_info: vfio_region_info::read_from(b, off + 16),
        }
    }

    /// The wire bytes, in a new buffer.
    pub fn to_bytes(&self) -> (r: Vec<u8>)
        ensures
            r@ == self.wire(),
    {
        let mut buf: Vec<u8> = Vec::new();
        self.write_to(&mut buf);
        assert(buf@ =~= self.wire());
        buf
    }

    /// Decodes `b`, which must hold exactly 48 bytes.
    pub fn from_bytes(b: &[u8]) -> (r: Option<DeviceGetRegionInfo>)
        ensures
            r is Some <==> b@.len() == DEVICE_GET_REGION_INFO_SIZE,
            r matches Some(m) ==> m == DeviceGetRegionInfo::from_wire(b@),
    {
        if b.len() == DEVICE_GET_REGION_INFO_SIZE {
            assert(b@.subrange(0, DEVICE_GET_REGION_INFO_SIZE as int) =~= b@);
            Some(DeviceGetRegionInfo::read_from(b, 0))
        } else {
            None
        }
    }
}

/// Decoding the wire bytes of a region info message, without its capabilities gives it back.
pub proof fn lemma_device_get_region_info_wire(m: DeviceGetRegionInfo)
    ensures
        m.wire().len() == DEVICE_GET_REGION_INFO_SIZE,
        DeviceGetRegionInfo::from_wire(m.wire()) == m,
{
    lemma_header_wire(m.header);
    lemma_vfio_region_info_wire(m.region_info);
    let b = m.wire();
    assert(b.subrange(0, 16) =~= m.header.wire());
    assert(b.subrange(16, 48) =~= m.region_info.wire());
    assert(DeviceGetRegionInfo::from_wire(b).header == m.header);
    assert(DeviceGetRegionInfo::from_wire(b).region_info == m.region_info);
}

/// Encoding the value read from 48 bytes gives those bytes back.
pub proof fn lemma_device_get_region_info_from_wire(b: Seq<u8>)
    requires
        b.len() == DEVICE_GET_REGION_INFO_SIZE,
    ensures
        DeviceGetRegionInfo::from_wire(b).wire() == b,
{
    lemma_header_from_wire(b.subrange(0, 16));
    lemma_vfio_region_info_from_wire(b.subrange(16, 48));
    assert(DeviceGetRegionInfo::from_wire(b).wire() =~= b);
}

/// The size in bytes of a region access message, without its data.
pub const REGION_ACCESS_SIZE: usize = 32;

impl RegionAccess {
    /// The wire bytes of a region access message, without its data.
    pub open spec fn wire(self) -> Seq<u8> {
        self.header.wire()
            + u64_le(self.offset)
            + u32_le(self.region)
            + u32_le(self.count)
    }

    /// The value that the first 32 bytes of `b` hold.
    pub open spec fn from_wire(b: Seq<u8>) -> RegionAccess {
        RegionAccess {
            header: Header::from_wire(b.subrange(0, 16)),
            offset: u64_at(b, 16),
            region: u32_at(b, 24),
            count: u32_at(b, 28),
        }
    }

    /// Appends the wire bytes to `buf`.
    pub fn write_to(&self, buf: &mut Vec<u8>)
        ensures
            final(buf)@ == old(buf)@ + self.wire(),
    {
        self.header.write_to(buf);
        push_u64(buf, self.offset);
        push_u32(buf, self.region);
        push_u32(buf, self.count);
        assert(final(buf)@ =~= old(buf)@ + self.wire());
    }

    /// Reads the value stored at byte `off` of `b`.
    pub fn read_from(b: &[u8], off: usize) -> (r: RegionAccess)
        requires
            off + REGION_ACCESS_SIZE <= b.len(),
        ensures
            r == RegionAccess::from_wire(b@.subrange(off as int, off + REGION_ACCESS_SIZE)),
    {
        assert(b@.subrange(off as int, off + REGION_ACCESS_SIZE).subrange(0, 16) =~= b@.subrange(off + 0, off + 16));
        RegionAccess {
            header: Header::read_from(b, off),
            offset: read_u64(b, off + 16),
            region: read_u32(b, off + 24),
            count: read_u32(b, off + 28),
        }
    }

    /// The wire bytes, in a new buffer.
    pub fn to_bytes(&self) -> (r: Vec<u8>)
        ensures
            r@ == self.wire(),
    {
        let mut buf: Vec<u8> = Vec::new();
        self.write_to(&mut buf);
        assert(buf@ =~= self.wire());
        buf
    }

    /// Decodes `b`, which must hold exactly 32 bytes.
    pub fn from_bytes(b: &[u8]) -> (r: Option<RegionAccess>)
        ensures
            r is Some <==> b@.len() == REGION_ACCESS_SIZE,
            r matches Some(m) ==> m == RegionAccess::from_wire(b@),
    {
        if b.len() == REGION_ACCESS_SIZE {
            assert(b@.subrange(0, REGION_ACCESS_SIZE as int) =~= b@);
            Some(RegionAccess::read_from(b, 0))
        } else {
            None
        }
    }
}

/// Decoding the wire bytes of a region access message, without its data gives it back.
pub proof fn lemma_region_access_wire(m: RegionAccess)
    ensures
        m.wire().len() == REGION_ACCESS_SIZE,
        RegionAccess::from_wire(m.wire()) == m,
{
    lemma_header_wire(m.header);
    lemma_u64_le(m.offset);
    lemma_u32_le(m.region);
    lemma_u32_le(m.count);
    let b = m.wire();
    assert(b.subrange(0, 16) =~= m.header.wire());
    assert(RegionAccess::from_wire(b).header == m.header);
    assert(RegionAccess::from_wire(b).offset == m.offset);
    assert(RegionAccess::from_wire(b).region == m.region);
    assert(RegionAccess::from_wire(b).count == m.count);
}

/// Encoding the value read from 32 bytes gives those bytes back.
pub proof fn lemma_region_access_from_wire(b: Seq<u8>)
    requires
        b.len() == REGION_ACCESS_SIZE,
    ensures
        RegionAccess::from_wire(b).wire() == b,
{
    lemma_header_from_wire(b.subrange(0, 16));
    lemma_u64_at(b, 16);
    lemma_u32_at(b, 24);
    lemma_u32_at(b, 28);
    assert(RegionAccess::from_wire(b).wire() =~= b);
}

/// The size in bytes of an interrupt info message.
pub const GET_IRQ_INFO_SIZE: usize = 32;

impl GetIrqInfo {
    /// The wire bytes of an interrupt info message.
    pub open spec fn wire(self) -> Seq<u8> {
        self.header.wire()
            + u32_le(self.argsz)
            + u32_le(self.flags)
            + u32_le(self.index)
            + u32_le(self.count)
    }

    /// The value that the first 32 bytes of `b` hold.
    pub open spec fn from_wire(b: Seq<u8>) -> GetIrqInfo {
        GetIrqInfo {
            header: Header::from_wire(b.subrange(0, 16)),
            argsz: u32_at(b, 16),
            flags: u32_at(b, 20),
            index: u32_at(b, 24),
            count: u32_at(b, 28),
        }
    }

    /// Appends the wire bytes to `buf`.
    pub fn write_to(&self, buf: &mut Vec<u8>)
        ensures
            final(buf)@ == old(buf)@ + self.wire(),
    {
        self.header.write_to(buf);
        push_u32(buf, self.argsz);
        push_u32(buf, self.flags);
        push_u32(buf, self.index);
        push_u32(buf, self.count);
        assert(final(buf)@ =~= old(buf)@ + self.wire());
    }

    /// Reads the value stored at byte `off` of `b`.
    pub fn read_from(b: &[u8], off: usize) -> (r: GetIrqInfo)
        requires
            off + GET_IRQ_INFO_SIZE <= b.len(),
        ensures
            r == GetIrqInfo::from_wire(b@.subrange(off as int, off + GET_IRQ_INFO_SIZE)),
    {
        assert(b@.subrange(off as int, off + GET_IRQ_INFO_SIZE).subrange(0, 16) =~= b@.subrange(off + 0, off + 16));
        GetIrqInfo {
            header: Header::read_from(b, off),
            argsz: read_u32(b, off + 16),
            flags: read_u32(b, off + 20),
            index: read_u32(b, off + 24),
            count: read_u32(b, off + 28),
        }
    }

    /// The wire bytes, in a new buffer.
    pub fn to_bytes(&self) -> (r: Vec<u8>)
        ensures
            r@ == self.wire(),
    {
        let mut buf: Vec<u8> = Vec::new();
        self.write_to(&mut buf);
        assert(buf@ =~= self.wire());
        buf
    }

    /// Decodes `b`, which must hold exactly 32 bytes.
    pub fn from_bytes(b: &[u8]) -> (r: Option<GetIrqInfo>)
        ensures
            r is Some <==> b@.len() == GET_IRQ_INFO_SIZE,
            r matches Some(m) ==> m == GetIrqInfo::from_wire(b@),
    {
        if b.len() == GET_IRQ_INFO_SIZE {
            assert(b@.subrange(0, GET_IRQ_INFO_SIZE as int) =~= b@);
            Some(GetIrqInfo::read_from(b, 0))
        } else {
            None
        }
    }
}

/// Decoding the wire bytes of an interrupt info message gives it back.
pub proof fn lemma_get_irq_info_wire(m: GetIrqInfo)
    ensures
        m.wire().len() == GET_IRQ_INFO_SIZE,
        GetIrqInfo::from_wire(m.wire()) == m,
{
    lemma_header_wire(m.header);
    lemma_u32_le(m.argsz);
    lemma_u32_le(m.flags);
    lemma_u32_le(m.index);
    lemma_u32_le(m.count);
    let b = m.wire();
    assert(b.subrange(0, 16) =~= m.header.wire());
    assert(GetIrqInfo::from_wire(b).header == m.header);
    assert(GetIrqInfo::from_wire(b).argsz == m.argsz);
    assert(GetIrqInfo::from_wire(b).flags == m.flags);
    assert(GetIrqInfo::from_wire(b).index == m.index);
    assert(GetIrqInfo::from_wire(b).count == m.count);
}

/// Encoding the value read from 32 bytes gives those bytes back.
pub proof fn lemma_get_irq_info_from_wire(b: Seq<u8>)
    requires
        b.len() == GET_IRQ_INFO_SIZE,
    ensures
        GetIrqInfo::from_wire(b).wire() == b,
{
    lemma_header_from_wire(b.subrange(0, 16));
    lemma_u32_at(b, 16);
    lemma_u32_at(b, 20);
    lemma_u32_at(b, 24);
    lemma_u32_at(b, 28);
    assert(GetIrqInfo::from_wire(b).wire() =~= b);
}

/// The size in bytes of an interrupt setup message.
pub const SET_IRQS_SIZE: usize = 36;

impl SetIrqs {
    /// The wire bytes of an interrupt setup message.
    pub open spec fn wire(self) -> Seq<u8> {
        self.header.wire()
            + u32_le(self.argsz)
            + u32_le(self.flags)
            + u32_le(self.index)
            + u32_le(self.start)
            + u32_le(self.count)
    }

    /// The value that the first 36 bytes of `b` hold.
    pub open spec fn from_wire(b: Seq<u8>) -> SetIrqs {
        SetIrqs {
            header: Header::from_wire(b.subrange(0, 16)),
            argsz: u32_at(b, 16),
            flags: u32_at(b, 20),
            index: u32_at(b, 24),
            start: u32_at(b, 28),
            count: u32_at(b, 32),
        }
    }

    /// Appends the wire bytes to `buf`.
    pub fn write_to(&self, buf: &mut Vec<u8>)
        ensures
            final(buf)@ == old(buf)@ + self.wire(),
    {
        self.header.write_to(buf);
        push_u32(buf, self.argsz);
        push_u32(buf, self.flags);
        push_u32(buf, self.index);
        push_u32(buf, self.start);
        push_u32(buf, self.count);
        assert(final(buf)@ =~= old(buf)@ + self.wire());
    }

    /// Reads the value stored at byte `off` of `b`.
    pub fn read_from(b: &[u8], off: usize) -> (r: SetIrqs)
        requires
            off + SET_IRQS_SIZE <= b.len(),
        ensures
            r == SetIrqs::from_wire(b@.subrange(off as int, off + SET_IRQS_SIZE)),
    {
        assert(b@.subrange(off as int, off + SET_IRQS_SIZE).subrange(0, 16) =~= b@.subrange(off + 0, off + 16));
        SetIrqs {
            header: Header::read_from(b, off),
            argsz: read_u32(b, off + 16),
            flags: read_u32(b, off + 20),
            index: read_u32(b, off + 24),
            start: read_u32(b, off + 28),
            count: read_u32(b, off + 32),
        }
    }

    /// The wire bytes, in a new buffer.
    pub fn to_bytes(&self) -> (r: Vec<u8>)
        ensures
            r@ == self.wire(),
    {
        let mut buf: Vec<u8> = Vec::new();
        self.write_to(&mut buf);
        assert(buf@ =~= self.wire());
        buf
    }

    /// Decodes `b`, which must hold exactly 36 bytes.
    pub fn from_bytes(b: &[u8]) -> (r: Option<SetIrqs>)
        ensures
            r is Some <==> b@.len() == SET_IRQS_SIZE,
            r matches Some(m) ==> m == SetIrqs::from_wire(b@),
    {
        if b.len() == SET_IRQS_SIZE {
            assert(b@.subrange(0, SET_IRQS_SIZE as int) =~= b@);
            Some(SetIrqs::read_from(b, 0))
        } else {
            None
        }
    }
}

/// Decoding the wire bytes of an interrupt setup message gives it back.
pub proof fn lemma_set_irqs_wire(m: SetIrqs)
    ensures
        m.wire().len() == SET_IRQS_SIZE,
        SetIrqs::from_wire(m.wire()) == m,
{
    lemma_header_wire(m.header);
    lemma_u32_le(m.argsz);
    lemma_u32_le(m.flags);
    lemma_u32_le(m.index);
    lemma_u32_le(m.start);
    lemma_u32_le(m.count);
    let b = m.wire();
    assert(b.subrange(0, 16) =~= m.header.wire());
    assert(SetIrqs::from_wire(b).header == m.header);
    assert(SetIrqs::from_wire(b).argsz == m.argsz);
    assert(SetIrqs::from_wire(b).flags == m.flags);
    assert(SetIrqs::from_wire(b).index == m.index);
    assert(SetIrqs::from_wire(b).start == m.start);
    assert(SetIrqs::from_wire(b).count == m.count);
}

/// Encoding the value read from 36 bytes gives those bytes back.
pub proof fn lemma_set_irqs_from_wire(b: Seq<u8>)
    requires
        b.len() == SET_IRQS_SIZE,
    ensures
        SetIrqs::from_wire(b).wire() == b,
{
    lemma_header_from_wire(b.subrange(0, 16));
    lemma_u32_at(b, 16);
    lemma_u32_at(b, 20);
    lemma_u32_at(b, 24);
    lemma_u32_at(b, 28);
    lemma_u32_at(b, 32);
    assert(SetIrqs::from_wire(b).wire() =~= b);
}

/// The size in bytes of a device reset message.
pub const DEVICE_RESET_SIZE: usize = 16;

impl DeviceReset {
    /// The wire bytes of a device reset message.
    pub open spec fn wire(self) -> Seq<u8> {
        self.header.wire()
    }

    /// The value that the first 16 bytes of `b` hold.
    pub open spec fn from_wire(b: Seq<u8>) -> DeviceReset {
        DeviceReset {
            header: Header::from_wire(b.subrange(0, 16)),
        }
    }

    /// Appends the wire bytes to `buf`.
    pub fn write_to(&self, buf: &mut Vec<u8>)
        ensures
            final(buf)@ == old(buf)@ + self.wire(),
    {
        self.header.write_to(buf);
        assert(final(buf)@ =~= old(buf)@ + self.wire());
    }

    /// Reads the value stored at byte `off` of `b`.
    pub fn read_from(b: &[u8], off: usize) -> (r: DeviceReset)
        requires
            off + DEVICE_RESET_SIZE <= b.len(),
        ensures
            r == DeviceReset::from_wire(b@.subrange(off as int, off + DEVICE_RESET_SIZE)),
    {
        assert(b@.subrange(off as int, off + DEVICE_RESET_SIZE).subrange(0, 16) =~= b@.subrange(off + 0, off + 16));
        DeviceReset {
            header: Header::read_from(b, off),
        }
    }

    /// The wire bytes, in a new buffer.
    pub fn to_bytes(&self) -> (r: Vec<u8>)
        ensures
            r@ == self.wire(),
    {
        let mut buf: Vec<u8> = Vec::new();
        self.write_to(&mut buf);
        assert(buf@ =~= self.wire());
        buf
    }

    /// Decodes `b`, which must hold exactly 16 bytes.
    pub fn from_bytes(b: &[u8]) -> (r: Option<DeviceReset>)
        ensures
            r is Some <==> b@.len() == DEVICE_RESET_SIZE,
            r matches Some(m) ==> m == DeviceReset::from_wire(b@),
    {
        if b.len() == DEVICE_RESET_SIZE {
            assert(b@.subrange(0, DEVICE_RESET_SIZE as int) =~= b@);
            Some(DeviceReset::read_from(b, 0))
        } else {
            None
        }
    }
}

/// Decoding the wire bytes of a device reset message gives it back.
pub proof fn lemma_device_reset_wire(m: DeviceReset)
    ensures
        m.wire().len() == DEVICE_RESET_SIZE,
        DeviceReset::from_wire(m.wire()) == m,
{
    lemma_header_wire(m.header);
    let b = m.wire();
    assert(b.subrange(0, 16) =~= m.header.wire());
    assert(DeviceReset::from_wire(b).header == m.header);
}

/// Encoding the value read from 16 bytes gives those bytes back.
pub proof fn lemma_device_reset_from_wire(b: Seq<u8>)
    requires
        b.len() == DEVICE_RESET_SIZE,
    ensures
        DeviceReset::from_wire(b).wire() == b,
{
    lemma_header_from_wire(b.subrange(0, 16));
    assert(DeviceReset::from_wire(b).wire() =~= b);
}


/// The header of a message followed by other bytes is read back from the
/// front of the message.
pub proof fn lemma_header_prefix(h: Header, rest: Seq<u8>)
    ensures
        Header::from_wire(h.wire() + rest) == h,
        (h.wire() + rest).len() == HEADER_SIZE + rest.len(),
{
    lemma_header_wire(h);
    let b = h.wire() + rest;
    assert(b.subrange(0, HEADER_SIZE as int) =~= h.wire());
    crate::le::lemma_at_subrange(b, 0, HEADER_SIZE as int, 0);
    crate::le::lemma_at_subrange(b, 0, HEADER_SIZE as int, 2);
    crate::le::lemma_at_subrange(b, 0, HEADER_SIZE as int, 4);
    crate::le::lemma_at_subrange(b, 0, HEADER_SIZE as int, 8);
    crate::le::lemma_at_subrange(b, 0, HEADER_SIZE as int, 12);
}

/// The bytes of a message: its header, then `rest`.
pub fn message_bytes(header: &Header, rest: &[u8]) -> (r: Vec<u8>)
    ensures
        r@ == header.wire() + rest@,
{
    let mut buf = header.to_bytes();
    let ghost head = buf@;
    buf.extend_from_slice(rest);
    assert(buf@ =~= head + rest@);
    buf
}

/// A Version message read as the server reads it, header first and then the
/// rest, is the message that was written.
pub proof fn lemma_version_split(m: Version)
    ensures
        Header::from_wire(m.wire()) == m.header,
        Version::from_wire(
            Header::from_wire(m.wire()).wire() + m.wire().subrange(HEADER_SIZE as int, VERSION_SIZE as int),
        ) == m,
{
    lemma_version_wire(m);
    let b = m.wire();
    let rest = b.subrange(HEADER_SIZE as int, VERSION_SIZE as int);
    assert(b =~= m.header.wire() + rest);
    lemma_header_prefix(m.header, rest);
}

/// A DmaMap message read as the server reads it, header first and then the
/// rest, is the message that was written.
pub proof fn lemma_dma_map_split(m: DmaMap)
    ensures
        Header::from_wire(m.wire()) == m.header,
        DmaMap::from_wire(
            Header::from_wire(m.wire()).wire() + m.wire().subrange(HEADER_SIZE as int, DMA_MAP_SIZE as int),
        ) == m,
{
    lemma_dma_map_wire(m);
    let b = m.wire();
    let rest = b.subrange(HEADER_SIZE as int, DMA_MAP_SIZE as int);
    assert(b =~= m.header.wire() + rest);
    lemma_header_prefix(m.header, rest);
}

/// A DmaUnmap message read as the server reads it, header first and then the
/// rest, is the message that was written.
pub proof fn lemma_dma_unmap_split(m: DmaUnmap)
    ensures
        Header::from_wire(m.wire()) == m.header,
        DmaUnmap::from_wire(
            Header::from_wire(m.wire()).wire() + m.wire().subrange(HEADER_SIZE as int, DMA_UNMAP_SIZE as int),
        ) == m,
{
    lemma_dma_unmap_wire(m);
    let b = m.wire();
    let rest = b.subrange(HEADER_SIZE as int, DMA_UNMAP_SIZE as int);
    assert(b =~= m.header.wire() + rest);
    lemma_header_prefix(m.header, rest);
}

/// A DeviceGetInfo message read as the server reads it, header first and then the
/// rest, is the message that was written.
pub proof fn lemma_device_get_info_split(m: DeviceGetInfo)
    ensures
        Header::from_wire(m.wire()) == m.header,
        DeviceGetInfo::from_wire(
            Header::from_wire(m.wire()).wire() + m.wire().subrange(HEADER_SIZE as int, DEVICE_GET_INFO_SIZE as int),
        ) == m,
{
    lemma_device_get_info_wire(m);
    let b = m.wire();
    let rest = b.subrange(HEADER_SIZE as int, DEVICE_GET_INFO_SIZE as int);
    assert(b =~= m.header.wire() + rest);
    lemma_header_prefix(m.header, rest);
}

/// A DeviceGetRegionInfo message read as the server reads it, header first and then the
/// rest, is the message that was written.
pub proof fn lemma_device_get_region_info_split(m: DeviceGetRegionInfo)
    ensures
        Header::from_wire(m.wire()) == m.header,
        DeviceGetRegionInfo::from_wire(
            Header::from_wire(m.wire()).wire() + m.wire().subrange(HEADER_SIZE as int, DEVICE_GET_REGION_INFO_SIZE as int),
        ) == m,
{
    lemma_device_get_region_info_wire(m);
    let b = m.wire();
    let rest = b.subrange(HEADER_SIZE as int, DEVICE_GET_REGION_INFO_SIZE as int);
    assert(b =~= m.header.wire() + rest);
    lemma_header_prefix(m.header, rest);
}

/// A RegionAccess message read as the server reads it, header first and then the
/// rest, is the message that was written.
pub proof fn lemma_region_access_split(m: RegionAccess)
    ensures
        Header::from_wire(m.wire()) == m.header,
        RegionAccess::from_wire(
            Header::from_wire(m.wire()).wire() + m.wire().subrange(HEADER_SIZE as int, REGION_ACCESS_SIZE as int),
        ) == m,
{
    lemma_region_access_wire(m);
    let b = m.wire();
    let rest = b.subrange(HEADER_SIZE as int, REGION_ACCESS_SIZE as int);
    assert(b =~= m.header.wire() + rest);
    lemma_header_prefix(m.header, rest);
}

/// A GetIrqInfo message read as the server reads it, header first and then the
/// rest, is the message that was written.
pub proof fn lemma_get_irq_info_split(m: GetIrqInfo)
    ensures
        Header::from_wire(m.wire()) == m.header,
        GetIrqInfo::from_wire(
            Header::from_wire(m.wire()).wire() + m.wire().subrange(HEADER_SIZE as int, GET_IRQ_INFO_SIZE as int),
        ) == m,
{
    lemma_get_irq_info_wire(m);
    let b = m.wire();
    let rest = b.subrange(HEADER_SIZE as int, GET_IRQ_INFO_SIZE as int);
    assert(b =~= m.header.wire() + rest);
    lemma_header_prefix(m.header, rest);
}

/// A SetIrqs message read as the server reads it, header first and then the
/// rest, is the message that was written.
pub proof fn lemma_set_irqs_split(m: SetIrqs)
    ensures
        Header::from_wire(m.wire()) == m.header,
        SetIrqs::from_wire(
            Header::from_wire(m.wire()).wire() + m.wire().subrange(HEADER_SIZE as int, SET_IRQS_SIZE as int),
        ) == m,
{
    lemma_set_irqs_wire(m);
    let b = m.wire();
    let rest = b.subrange(HEADER_SIZE as int, SET_IRQS_SIZE as int);
    assert(b =~= m.header.wire() + rest);
    lemma_header_prefix(m.header, rest);
}

/// A DeviceReset message read as the server reads it, header first and then the
/// rest, is the message that was written.
pub proof fn lemma_device_reset_split(m: DeviceReset)
    ensures
        Header::from_wire(m.wire()) == m.header,
        DeviceReset::from_wire(
            Header::from_wire(m.wire()).wire() + m.wire().subrange(HEADER_SIZE as int, DEVICE_RESET_SIZE as int),
        ) == m,
{
    lemma_device_reset_wire(m);
    let b = m.wire();
    let rest = b.subrange(HEADER_SIZE as int, DEVICE_RESET_SIZE as int);
    assert(b =~= m.header.wire() + rest);
    lemma_header_prefix(m.header, rest);
}

/// The byte layout of a message header, as the kernel and the vfio-user protocol lay it
/// out: every field sits little-endian at its fixed offset, in both the
/// bytes written and the value read from any bytes of that length.
pub proof fn lemma_header_layout(m: Header, b: Seq<u8>)
    ensures
        m.wire().len() == 16,
        u16_at(m.wire(), 0) == m.message_id,
        u16_at(m.wire(), 2) == m.command,
        u32_at(m.wire(), 4) == m.message_size,
        u32_at(m.wire(), 8) == m.flags,
        u32_at(m.wire(), 12) == m.error,
        b.len() == 16 ==> Header::from_wire(b).message_id == u16_at(b, 0),
        b.len() == 16 ==> Header::from_wire(b).command == u16_at(b, 2),
        b.len() == 16 ==> Header::from_wire(b).message_size == u32_at(b, 4),
        b.len() == 16 ==> Header::from_wire(b).flags == u32_at(b, 8),
        b.len() == 16 ==> Header::from_wire(b).error == u32_at(b, 12),
{
    lemma_header_wire(m);
}

/// The byte layout of a version message, as the kernel and the vfio-user protocol lay it
/// out: every field sits little-endian at its fixed offset, in both the
/// bytes written and the value read from any bytes of that length.
pub proof fn lemma_version_layout(m: Version, b: Seq<u8>)
    ensures
        m.wire().len() == 20,
        u16_at(m.wire(), 0) == m.header.message_id,
        u16_at(m.wire(), 2) == m.header.command,
        u32_at(m.wire(), 4) == m.header.message_size,
        u32_at(m.wire(), 8) == m.header.flags,
        u32_at(m.wire(), 12) == m.header.error,
        u16_at(m.wire(), 16) == m.major,
        u16_at(m.wire(), 18) == m.minor,
        b.len() == 20 ==> Version::from_wire(b).header.message_id == u16_at(b, 0),
        b.len() == 20 ==> Version::from_wire(b).header.command == u16_at(b, 2),
        b.len() == 20 ==> Version::from_wire(b).header.message_size == u32_at(b, 4),
        b.len() == 20 ==> Version::from_wire(b).header.flags == u32_at(b, 8),
        b.len() == 20 ==> Version::from_wire(b).header.error == u32_at(b, 12),
        b.len() == 20 ==> Version::from_wire(b).major == u16_at(b, 16),
        b.len() == 20 ==> Version::from_wire(b).minor == u16_at(b, 18),
{
    lemma_version_wire(m);
    lemma_at_subrange(m.wire(), 0, 16, 0);
    if b.len() == 20 {
        lemma_at_subrange(b, 0, 16, 0);
    }
    lemma_at_subrange(m.wire(), 0, 16, 2);
    if b.len() == 20 {
        lemma_at_subrange(b, 0, 16, 2);
    }
    lemma_at_subrange(m.wire(), 0, 16, 4);
    if b.len() == 20 {
        lemma_at_subrange(b, 0, 16, 4);
    }
    lemma_at_subrange(m.wire(), 0, 16, 8);
    if b.len() == 20 {
        lemma_at_subrange(b, 0, 16, 8);
    }
    lemma_at_subrange(m.wire(), 0, 16, 12);
    if b.len() == 20 {
        lemma_at_subrange(b, 0, 16, 12);
    }
}

/// The byte layout of the migration capabilities, as the kernel and the vfio-user protocol lay it
/// out: every field sits little-endian at its fixed offset, in both the
/// bytes written and the value read from any bytes of that length.
pub proof fn lemma_migration_capabilities_layout(m: MigrationCapabilities, b: Seq<u8>)
    ensures
        m.wire().len() == 4,
        u32_at(m.wire(), 0) == m.pgsize,
        b.len() == 4 ==> MigrationCapabilities::from_wire(b).pgsize == u32_at(b, 0),
{
    lemma_migration_capabilities_wire(m);
}

/// The byte layout of a DMA map message, as the kernel and the vfio-user protocol lay it
/// out: every field sits little-endian at its fixed offset, in both the
/// bytes written and the value read from any bytes of that length.
pub proof fn lemma_dma_map_layout(m: DmaMap, b: Seq<u8>)
    ensures
        m.wire().len() == 48,
        u16_at(m.wire(), 0) == m.header.message_id,
        u16_at(m.wire(), 2) == m.header.command,
        u32_at(m.wire(), 4) == m.header.message_size,
        u32_at(m.wire(), 8) == m.header.flags,
        u32_at(m.wire(), 12) == m.header.error,
        u32_at(m.wire(), 16) == m.argsz,
        u32_at(m.wire(), 20) == m.flags,
        u64_at(m.wire(), 24) == m.offset,
        u64_at(m.wire(), 32) == m.address,
        u64_at(m.wire(), 40) == m.size,
        b.len() == 48 ==> DmaMap::from_wire(b).header.message_id == u16_at(b, 0),
        b.len() == 48 ==> DmaMap::from_wire(b).header.command == u16_at(b, 2),
        b.len() == 48 ==> DmaMap::from_wire(b).header.message_size == u32_at(b, 4),
        b.len() == 48 ==> DmaMap::from_wire(b).header.flags == u32_at(b, 8),
        b.len() == 48 ==> DmaMap::from_wire(b).header.error == u32_at(b, 12),
        b.len() == 48 ==> DmaMap::from_wire(b).argsz == u32_at(b, 16),
        b.len() == 48 ==> DmaMap::from_wire(b).flags == u32_at(b, 20),
        b.len() == 48 ==> DmaMap::from_wire(b).offset == u64_at(b, 24),
        b.len() == 48 ==> DmaMap::from_wire(b).address == u64_at(b, 32),
        b.len() == 48 ==> DmaMap::from_wire(b).size == u64_at(b, 40),
{
    lemma_dma_map_wire(m);
    lemma_at_subrange(m.wire(), 0, 16, 0);
    if b.len() == 48 {
        lemma_at_subrange(b, 0, 16, 0);
    }
    lemma_at_subrange(m.wire(), 0, 16, 2);
    if b.len() == 48 {
        lemma_at_subrange(b, 0, 16, 2);
    }
    lemma_at_subrange(m.wire(), 0, 16, 4);
    if b.len() == 48 {
        lemma_at_subrange(b, 0, 16, 4);
    }
    lemma_at_subrange(m.wire(), 0, 16, 8);
    if b.len() == 48 {
        lemma_at_subrange(b, 0, 16, 8);
    }
    lemma_at_subrange(m.wire(), 0, 16, 12);
    if b.len() == 48 {
        lemma_at_subrange(b, 0, 16, 12);
    }
}

/// The byte layout of a DMA unmap message, as the kernel and the vfio-user protocol lay it
/// out: every field sits little-endian at its fixed offset, in both the
/// bytes written and the value read from any bytes of that length.
pub proof fn lemma_dma_unmap_layout(m: DmaUnmap, b: Seq<u8>)
    ensures
        m.wire().len() == 40,
        u16_at(m.wire(), 0) == m.header.message_id,
        u16_at(m.wire(), 2) == m.header.command,
        u32_at(m.wire(), 4) == m.header.message_size,
        u32_at(m.wire(), 8) == m.header.flags,
        u32_at(m.wire(), 12) == m.header.error,
        u32_at(m.wire(), 16) == m.argsz,
        u32_at(m.wire(), 20) == m.flags,
        u64_at(m.wire(), 24) == m.address,
        u64_at(m.wire(), 32) == m.size,
        b.len() == 40 ==> DmaUnmap::from_wire(b).header.message_id == u16_at(b, 0),
        b.len() == 40 ==> DmaUnmap::from_wire(b).header.command == u16_at(b, 2),
        b.len() == 40 ==> DmaUnmap::from_wire(b).header.message_size == u32_at(b, 4),
        b.len() == 40 ==> DmaUnmap::from_wire(b).header.flags == u32_at(b, 8),
        b.len() == 40 ==> DmaUnmap::from_wire(b).header.error == u32_at(b, 12),
        b.len() == 40 ==> DmaUnmap::from_wire(b).argsz == u32_at(b, 16),
        b.len() == 40 ==> DmaUnmap::from_wire(b).flags == u32_at(b, 20),
        b.len() == 40 ==> DmaUnmap::from_wire(b).address == u64_at(b, 24),
        b.len() == 40 ==> DmaUnmap::from_wire(b).size == u64_at(b, 32),
{
    lemma_dma_unmap_wire(m);
    lemma_at_subrange(m.wire(), 0, 16, 0);
    if b.len() == 40 {
        lemma_at_subrange(b, 0, 16, 0);
    }
    lemma_at_subrange(m.wire(), 0, 16, 2);
    if b.len() == 40 {
        lemma_at_subrange(b, 0, 16, 2);
    }
    lemma_at_subrange(m.wire(), 0, 16, 4);
    if b.len() == 40 {
        lemma_at_subrange(b, 0, 16, 4);
    }
    lemma_at_subrange(m.wire(), 0, 16, 8);
    if b.len() == 40 {
        lemma_at_subrange(b, 0, 16, 8);
    }
    lemma_at_subrange(m.wire(), 0, 16, 12);
    if b.len() == 40 {
        lemma_at_subrange(b, 0, 16, 12);
    }
}

/// The byte layout of a device info message, as the kernel and the vfio-user protocol lay it
/// out: every field sits little-endian at its fixed offset, in both the
/// bytes written and the value read from any bytes of that length.
pub proof fn lemma_device_get_info_layout(m: DeviceGetInfo, b: Seq<u8>)
    ensures
        m.wire().len() == 32,
        u16_at(m.wire(), 0) == m.header.message_id,
        u16_at(m.wire(), 2) == m.header.command,
        u32_at(m.wire(), 4) == m.header.message_size,
        u32_at(m.wire(), 8) == m.header.flags,
        u32_at(m.wire(), 12) == m.header.error,
        u32_at(m.wire(), 16) == m.argsz,
        u32_at(m.wire(), 20) == m.flags,
        u32_at(m.wire(), 24) == m.num_regions,
        u32_at(m.wire(), 28) == m.num_irqs,
        b.len() == 32 ==> DeviceGetInfo::from_wire(b).header.message_id == u16_at(b, 0),
        b.len() == 32 ==> DeviceGetInfo::from_wire(b).header.command == u16_at(b, 2),
        b.len() == 32 ==> DeviceGetInfo::from_wire(b).header.message_size == u32_at(b, 4),
        b.len() == 32 ==> DeviceGetInfo::from_wire(b).header.flags == u32_at(b, 8),
        b.len() == 32 ==> DeviceGetInfo::from_wire(b).header.error == u32_at(b, 12),
        b.len() == 32 ==> DeviceGetInfo::from_wire(b).argsz == u32_at(b, 16),
        b.len() == 32 ==> DeviceGetInfo::from_wire(b).flags == u32_at(b, 20),
        b.len() == 32 ==> DeviceGetInfo::from_wire(b).num_regions == u32_at(b, 24),
        b.len() == 32 ==> DeviceGetInfo::from_wire(b).num_irqs == u32_at(b, 28),
{
    lemma_device_get_info_wire(m);
    lemma_at_subrange(m.wire(), 0, 16, 0);
    if b.len() == 32 {
        lemma_at_subrange(b, 0, 16, 0);
    }
    lemma_at_subrange(m.wire(), 0, 16, 2);
    if b.len() == 32 {
        lemma_at_subrange(b, 0, 16, 2);
    }
    lemma_at_subrange(m.wire(), 0, 16, 4);
    if b.len() == 32 {
        lemma_at_subrange(b, 0, 16, 4);
    }
    lemma_at_subrange(m.wire(), 0, 16, 8);
    if b.len() == 32 {
        lemma_at_subrange(b, 0, 16, 8);
    }
    lemma_at_subrange(m.wire(), 0, 16, 12);
    if b.len() == 32 {
        lemma_at_subrange(b, 0, 16, 12);
    }
}

/// The byte layout of a region info message, as the kernel and the vfio-user protocol lay it
/// out: every field sits little-endian at its fixed offset, in both the
/// bytes written and the value read from any bytes of that length.
pub proof fn lemma_device_get_region_info_layout(m: DeviceGetRegionInfo, b: Seq<u8>)
    ensures
        m.wire().len() == 48,
        u16_at(m.wire(), 0) == m.header.message_id,
        u16_at(m.wire(), 2) == m.header.command,
        u32_at(m.wire(), 4) == m.header.message_size,
        u32_at(m.wire(), 8) == m.header.flags,
        u32_at(m.wire(), 12) == m.header.error,
        u32_at(m.wire(), 16) == m.region_info.argsz,
        u32_at(m.wire(), 20) == m.region_info.flags,
        u32_at(m.wire(), 24) == m.region_info.index,
        u32_at(m.wire(), 28) == m.region_info.cap_offset,
        u64_at(m.wire(), 32) == m.region_info.size,
        u64_at(m.wire(), 40) == m.region_info.offset,
        b.len() == 48 ==> DeviceGetRegionInfo::from_wire(b).header.message_id == u16_at(b, 0),
        b.len() == 48 ==> DeviceGetRegionInfo::from_wire(b).header.command == u16_at(b, 2),
        b.len() == 48 ==> DeviceGetRegionInfo::from_wire(b).header.message_size == u32_at(b, 4),
        b.len() == 48 ==> DeviceGetRegionInfo::from_wire(b).header.flags == u32_at(b, 8),
        b.len() == 48 ==> DeviceGetRegionInfo::from_wire(b).header.error == u32_at(b, 12),
        b.len() == 48 ==> DeviceGetRegionInfo::from_wire(b).region_info.argsz == u32_at(b, 16),
        b.len() == 48 ==> DeviceGetRegionInfo::from_wire(b).region_info.flags == u32_at(b, 20),
        b.len() == 48 ==> DeviceGetRegionInfo::from_wire(b).region_info.index == u32_at(b, 24),
        b.len() == 48 ==> DeviceGetRegionInfo::from_wire(b).region_info.cap_offset == u32_at(b, 28),
        b.len() == 48 ==> DeviceGetRegionInfo::from_wire(b).region_info.size == u64_at(b, 32),
        b.len() == 48 ==> DeviceGetRegionInfo::from_wire(b).region_info.offset == u64_at(b, 40),
{
    lemma_device_get_region_info_wire(m);
    lemma_at_subrange(m.wire(), 0, 16, 0);
    if b.len() == 48 {
        lemma_at_subrange(b, 0, 16, 0);
    }
    lemma_at_subrange(m.wire(), 0, 16, 2);
    if b.len() == 48 {
        lemma_at_subrange(b, 0, 16, 2);
    }
    lemma_at_subrange(m.wire(), 0, 16, 4);
    if b.len() == 48 {
        lemma_at_subrange(b, 0, 16, 4);
    }
    lemma_at_subrange(m.wire(), 0, 16, 8);
    if b.len() == 48 {
        lemma_at_subrange(b, 0, 16, 8);
    }
    lemma_at_subrange(m.wire(), 0, 16, 12);
    if b.len() == 48 {
        lemma_at_subrange(b, 0, 16, 12);
    }
    lemma_at_subrange(m.wire(), 16, 48, 0);
    if b.len() == 48 {
        lemma_at_subrange(b, 16, 48, 0);
    }
    lemma_at_subrange(m.wire(), 16, 48, 4);
    if b.len() == 48 {
        lemma_at_subrange(b, 16, 48, 4);
    }
    lemma_at_subrange(m.wire(), 16, 48, 8);
    if b.len() == 48 {
        lemma_at_subrange(b, 16, 48, 8);
    }
    lemma_at_subrange(m.wire(), 16, 48, 12);
    if b.len() == 48 {
        lemma_at_subrange(b, 16, 48, 12);
    }
    lemma_at_subrange(m.wire(), 16, 48, 16);
    if b.len() == 48 {
        lemma_at_subrange(b, 16, 48, 16);
    }
    lemma_at_subrange(m.wire(), 16, 48, 24);
    if b.len() == 48 {
        lemma_at_subrange(b, 16, 48, 24);
    }
}

/// The byte layout of a region access message, as the kernel and the vfio-user protocol lay it
/// out: every field sits little-endian at its fixed offset, in both the
/// bytes written and the value read from any bytes of that length.
pub proof fn lemma_region_access_layout(m: RegionAccess, b: Seq<u8>)
    ensures
        m.wire().len() == 32,
        u16_at(m.wire(), 0) == m.header.message_id,
        u16_at(m.wire(), 2) == m.header.command,
        u32_at(m.wire(), 4) == m.header.message_size,
        u32_at(m.wire(), 8) == m.header.flags,
        u32_at(m.wire(), 12) == m.header.error,
        u64_at(m.wire(), 16) == m.offset,
        u32_at(m.wire(), 24) == m.region,
        u32_at(m.wire(), 28) == m.count,
        b.len() == 32 ==> RegionAccess::from_wire(b).header.message_id == u16_at(b, 0),
        b.len() == 32 ==> RegionAccess::from_wire(b).header.command == u16_at(b, 2),
        b.len() == 32 ==> RegionAccess::from_wire(b).header.message_size == u32_at(b, 4),
        b.len() == 32 ==> RegionAccess::from_wire(b).header.flags == u32_at(b, 8),
        b.len() == 32 ==> RegionAccess::from_wire(b).header.error == u32_at(b, 12),
        b.len() == 32 ==> RegionAccess::from_wire(b).offset == u64_at(b, 16),
        b.len() == 32 ==> RegionAccess::from_wire(b).region == u32_at(b, 24),
        b.len() == 32 ==> RegionAccess::from_wire(b).count == u32_at(b, 28),
{
    lemma_region_access_wire(m);
    lemma_at_subrange(m.wire(), 0, 16, 0);
    if b.len() == 32 {
        lemma_at_subrange(b, 0, 16, 0);
    }
    lemma_at_subrange(m.wire(), 0, 16, 2);
    if b.len() == 32 {
        lemma_at_subrange(b, 0, 16, 2);
    }
    lemma_at_subrange(m.wire(), 0, 16, 4);
    if b.len() == 32 {
        lemma_at_subrange(b, 0, 16, 4);
    }
    lemma_at_subrange(m.wire(), 0, 16, 8);
    if b.len() == 32 {
        lemma_at_subrange(b, 0, 16, 8);
    }
    lemma_at_subrange(m.wire(), 0, 16, 12);
    if b.len() == 32 {
        lemma_at_subrange(b, 0, 16, 12);
    }
}

/// The byte layout of an interrupt info message, as the kernel and the vfio-user protocol lay it
/// out: every field sits little-endian at its fixed offset, in both the
/// bytes written and the value read from any bytes of that length.
pub proof fn lemma_get_irq_info_layout(m: GetIrqInfo, b: Seq<u8>)
    ensures
        m.wire().len() == 32,
        u16_at(m.wire(), 0) == m.header.message_id,
        u16_at(m.wire(), 2) == m.header.command,
        u32_at(m.wire(), 4) == m.header.message_size,
        u32_at(m.wire(), 8) == m.header.flags,
        u32_at(m.wire(), 12) == m.header.error,
        u32_at(m.wire(), 16) == m.argsz,
        u32_at(m.wire(), 20) == m.flags,
        u32_at(m.wire(), 24) == m.index,
        u32_at(m.wire(), 28) == m.count,
        b.len() == 32 ==> GetIrqInfo::from_wire(b).header.message_id == u16_at(b, 0),
        b.len() == 32 ==> GetIrqInfo::from_wire(b).header.command == u16_at(b, 2),
        b.len() == 32 ==> GetIrqInfo::from_wire(b).header.message_size == u32_at(b, 4),
        b.len() == 32 ==> GetIrqInfo::from_wire(b).header.flags == u32_at(b, 8),
        b.len() == 32 ==> GetIrqInfo::from_wire(b).header.error == u32_at(b, 12),
        b.len() == 32 ==> GetIrqInfo::from_wire(b).argsz == u32_at(b, 16),
        b.len() == 32 ==> GetIrqInfo::from_wire(b).flags == u32_at(b, 20),
        b.len() == 32 ==> GetIrqInfo::from_wire(b).index == u32_at(b, 24),
        b.len() == 32 ==> GetIrqInfo::from_wire(b).count == u32_at(b, 28),
{
    lemma_get_irq_info_wire(m);
    lemma_at_subrange(m.wire(), 0, 16, 0);
    if b.len() == 32 {
        lemma_at_subrange(b, 0, 16, 0);
    }
    lemma_at_subrange(m.wire(), 0, 16, 2);
    if b.len() == 32 {
        lemma_at_subrange(b, 0, 16, 2);
    }
    lemma_at_subrange(m.wire(), 0, 16, 4);
    if b.len() == 32 {
        lemma_at_subrange(b, 0, 16, 4);
    }
    lemma_at_subrange(m.wire(), 0, 16, 8);
    if b.len() == 32 {
        lemma_at_subrange(b, 0, 16, 8);
    }
    lemma_at_subrange(m.wire(), 0, 16, 12);
    if b.len() == 32 {
        lemma_at_subrange(b, 0, 16, 12);
    }
}

/// The byte layout of an interrupt setup message, as the kernel and the vfio-user protocol lay it
/// out: every field sits little-endian at its fixed offset, in both the
/// bytes written and the value read from any bytes of that length.
pub proof fn lemma_set_irqs_layout(m: SetIrqs, b: Seq<u8>)
    ensures
        m.wire().len() == 36,
        u16_at(m.wire(), 0) == m.header.message_id,
        u16_at(m.wire(), 2) == m.header.command,
        u32_at(m.wire(), 4) == m.header.message_size,
        u32_at(m.wire(), 8) == m.header.flags,
        u32_at(m.wire(), 12) == m.header.error,
        u32_at(m.wire(), 16) == m.argsz,
        u32_at(m.wire(), 20) == m.flags,
        u32_at(m.wire(), 24) == m.index,
        u32_at(m.wire(), 28) == m.start,
        u32_at(m.wire(), 32) == m.count,
        b.len() == 36 ==> SetIrqs::from_wire(b).header.message_id == u16_at(b, 0),
        b.len() == 36 ==> SetIrqs::from_wire(b).header.command == u16_at(b, 2),
        b.len() == 36 ==> SetIrqs::from_wire(b).header.message_size == u32_at(b, 4),
        b.len() == 36 ==> SetIrqs::from_wire(b).header.flags == u32_at(b, 8),
        b.len() == 36 ==> SetIrqs::from_wire(b).header.error == u32_at(b, 12),
        b.len() == 36 ==> SetIrqs::from_wire(b).argsz == u32_at(b, 16),
        b.len() == 36 ==> SetIrqs::from_wire(b).flags == u32_at(b, 20),
        b.len() == 36 ==> SetIrqs::from_wire(b).index == u32_at(b, 24),
        b.len() == 36 ==> SetIrqs::from_wire(b).start == u32_at(b, 28),
        b.len() == 36 ==> SetIrqs::from_wire(b).count == u32_at(b, 32),
{
    lemma_set_irqs_wire(m);
    lemma_at_subrange(m.wire(), 0, 16, 0);
    if b.len() == 36 {
        lemma_at_subrange(b, 0, 16, 0);
    }
    lemma_at_subrange(m.wire(), 0, 16, 2);
    if b.len() == 36 {
        lemma_at_subrange(b, 0, 16, 2);
    }
    lemma_at_subrange(m.wire(), 0, 16, 4);
    if b.len() == 36 {
        lemma_at_subrange(b, 0, 16, 4);
    }
    lemma_at_subrange(m.wire(), 0, 16, 8);
    if b.len() == 36 {
        lemma_at_subrange(b, 0, 16, 8);
    }
    lemma_at_subrange(m.wire(), 0, 16, 12);
    if b.len() == 36 {
        lemma_at_subrange(b, 0, 16, 12);
    }
}

/// The byte layout of a device reset message, as the kernel and the vfio-user protocol lay it
/// out: every field sits little-endian at its fixed offset, in both the
/// bytes written and the value read from any bytes of that length.
pub proof fn lemma_device_reset_layout(m: DeviceReset, b: Seq<u8>)
    ensures
        m.wire().len() == 16,
        u16_at(m.wire(), 0) == m.header.message_id,
        u16_at(m.wire(), 2) == m.header.command,
        u32_at(m.wire(), 4) == m.header.message_size,
        u32_at(m.wire(), 8) == m.header.flags,
        u32_at(m.wire(), 12) == m.header.error,
        b.len() == 16 ==> DeviceReset::from_wire(b).header.message_id == u16_at(b, 0),
        b.len() == 16 ==> DeviceReset::from_wire(b).header.command == u16_at(b, 2),
        b.len() == 16 ==> DeviceReset::from_wire(b).header.message_size == u32_at(b, 4),
        b.len() == 16 ==> DeviceReset::from_wire(b).header.flags == u32_at(b, 8),
        b.len() == 16 ==> DeviceReset::from_wire(b).header.error == u32_at(b, 12),
{
    lemma_device_reset_wire(m);
    lemma_at_subrange(m.wire(), 0, 16, 0);
    if b.len() == 16 {
        lemma_at_subrange(b, 0, 16, 0);
    }
    lemma_at_subrange(m.wire(), 0, 16, 2);
    if b.len() == 16 {
        lemma_at_subrange(b, 0, 16, 2);
    }
    lemma_at_subrange(m.wire(), 0, 16, 4);
    if b.len() == 16 {
        lemma_at_subrange(b, 0, 16, 4);
    }
    lemma_at_subrange(m.wire(), 0, 16, 8);
    if b.len() == 16 {
        lemma_at_subrange(b, 0, 16, 8);
    }
    lemma_at_subrange(m.wire(), 0, 16, 12);
    if b.len() == 16 {
        lemma_at_subrange(b, 0, 16, 12);
    }
}

/// The numbers of the commands on the wire, as the vfio-user protocol
/// assigns them.
pub proof fn lemma_command_numbers()
    ensures
        Command::Unknown.code() == 0,
        Command::Version.code() == 1,
        Command::DmaMap.code() == 2,
        Command::DmaUnmap.code() == 3,
        Command::DeviceGetInfo.code() == 4,
        Command::DeviceGetRegionInfo.code() == 5,
        Command::GetRegionIoFds.code() == 6,
        Command::GetIrqInfo.code() == 7,
        Command::SetIrqs.code() == 8,
        Command::RegionRead.code() == 9,
        Command::RegionWrite.code() == 10,
        Command::DmaRead.code() == 11,
        Command::DmaWrite.code() == 12,
        Command::DeviceReset.code() == 13,
        Command::UserDirtyPages.code() == 14,
        forall|c: Command| #[trigger] command_of(c.code()) == Ok::<Command, u16>(c),
{
}

/// The bits of the header flags on the wire: a command carries none, a reply
/// bit 0, "no reply" bit 4 and an error bit 5.
pub proof fn lemma_header_flag_bits()
    ensures
        HeaderFlags::Command.bits() == 0,
        HeaderFlags::Reply.bits() == 1,
        HeaderFlags::NoReply.bits() == 0x10,
        HeaderFlags::Error.bits() == 0x20,
{
}

} // verus!
