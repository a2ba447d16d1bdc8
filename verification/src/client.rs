//! The protocol side of a vfio-user client: the requests it sends, in
//! order of their message ids, and what it keeps from the replies.

use vstd::prelude::*;

use crate::bindings::{
    vfio_region_info, vfio_region_sparse_mmap_area, VFIO_DEVICE_FLAGS_PCI,
    VFIO_DEVICE_FLAGS_RESET, VFIO_REGION_INFO_SIZE,
};
use crate::error::ProtocolError;
use crate::proto::{
    Command, DeviceGetInfo, DeviceGetRegionInfo, DeviceReset, DmaMap, DmaMapFlags, DmaUnmap,
    GetIrqInfo, Header, HeaderFlags, RegionAccess, SetIrqs, Version, DEVICE_GET_INFO_SIZE,
    DEVICE_GET_REGION_INFO_SIZE, DEVICE_RESET_SIZE, DMA_MAP_SIZE, DMA_UNMAP_SIZE,
    GET_IRQ_INFO_SIZE, REGION_ACCESS_SIZE, SET_IRQS_SIZE, VERSION_SIZE,
};
use crate::server::IrqInfo;

verus! {

/// The message id that follows `id`; ids wrap around after `u16::MAX`.
pub open spec fn id_after(id: u16) -> u16 {
    if id == u16::MAX {
        0
    } else {
        (id + 1) as u16
    }
}

/// The header of a request with message id `id`.
pub open spec fn request_header(id: u16, command: Command, message_size: u32) -> Header {
    Header {
        message_id: id,
        command: command.code(),
        message_size,
        flags: HeaderFlags::Command.bits(),
        error: 0,
    }
}

/// Builds the header of a request.
pub fn make_request_header(id: u16, command: Command, message_size: u32) -> (r: Header)
    ensures
        r == request_header(id, command, message_size),
{
    Header {
        message_id: id,
        command: u16::from(command),
        message_size,
        flags: u32::from(HeaderFlags::Command),
        error: 0,
    }
}

/// A region of the device, as the server described it.
#[derive(Debug)]
pub struct Region<F> {
    pub flags: u32,
    pub index: u32,
    pub size: u64,
    /// The file that maps the region, and the offset of the region in it.
    pub file_offset: Option<(F, u64)>,
    pub sparse_areas: Vec<vfio_region_sparse_mmap_area>,
}

impl<F> Region<F> {
    /// The region that `info` describes, mapped by `file` if there is one.
    pub fn from_info(
        info: &vfio_region_info,
        file: Option<F>,
        sparse_areas: Vec<vfio_region_sparse_mmap_area>,
    ) -> (r: Region<F>)
        ensures
            r.flags == info.flags,
            r.index == info.index,
            r.size == info.size,
            r.file_offset == (match file {
                Some(f) => Some((f, info.offset)),
                None => None,
            }),
            r.sparse_areas@ == sparse_areas@,
    {
        let file_offset = match file {
            Some(f) => Some((f, info.offset)),
            None => None,
        };
        Region {
            flags: info.flags,
            index: info.index,
            size: info.size,
            file_offset,
            sparse_areas,
        }
    }
}

/// The state that a vfio-user client keeps between its requests: the id of
/// its next message and what it learnt of the device.
pub struct Client<F> {
    next_message_id: u16,
    num_irqs: u32,
    resettable: bool,
    regions: Vec<Region<F>>,
}

impl<F> Client<F> {
    /// The id that the next request carries.
    pub closed spec fn next_id(&self) -> u16 {
        self.next_message_id
    }

    /// The number of interrupts that the device announced.
    pub closed spec fn irqs(&self) -> u32 {
        self.num_irqs
    }

    /// Whether the client takes the device for resettable.
    pub closed spec fn is_resettable(&self) -> bool {
        self.resettable
    }

    /// The regions of the device.
    pub closed spec fn regions(&self) -> Seq<Region<F>> {
        self.regions@
    }

    /// A client that has sent nothing yet and knows nothing of the device.
    pub fn new() -> (r: Client<F>)
        ensures
            r.next_id() == 0,
            r.irqs() == 0,
            !r.is_resettable(),
            r.regions() == Seq::<Region<F>>::empty(),
    {
        Client { next_message_id: 0, num_irqs: 0, resettable: false, regions: Vec::new() }
    }

    /// Takes the id of the next request.
    fn take_id(&mut self) -> (id: u16)
        ensures
            id == old(self).next_id(),
            final(self).next_id() == id_after(id),
            final(self).irqs() == old(self).irqs(),
            final(self).is_resettable() == old(self).is_resettable(),
            final(self).regions() == old(self).regions(),
    {
        let id = self.next_message_id;
        self.next_message_id = if id == u16::MAX {
            0
        } else {
            id + 1
        };
        id
    }
}

impl<F> Client<F> {
    /// `after` is this client once a request has taken its id: the next id
    /// follows, and nothing else changed.
    pub open spec fn took_id(self, after: Self) -> bool {
        &&& after.next_id() == id_after(self.next_id())
        &&& after.irqs() == self.irqs()
        &&& after.is_resettable() == self.is_resettable()
        &&& after.regions() == self.regions()
    }

    /// The version request: the client's version 0.1, then its capabilities
    /// as NUL-terminated JSON text.
    pub fn version_request(&mut self, caps_json: &[u8]) -> (r: Vec<u8>)
        requires
            caps_json.len() + VERSION_SIZE + 1 <= usize::MAX,
            forall|i: int| 0 <= i < caps_json@.len() ==> caps_json@[i] != 0,
        ensures
            old(self).took_id(*final(self)),
            r@ == (Version {
                header: request_header(
                    old(self).next_id(),
                    Command::Version,
                    (VERSION_SIZE + caps_json.len() + 1) as u32,
                ),
                major: 0,
                minor: 1,
            }).wire() + caps_json@ + seq![0u8],
    {
        let size = (VERSION_SIZE + caps_json.len() + 1) as u32;
        let id = self.take_id();
        let version = Version {
            header: make_request_header(id, Command::Version, size),
            major: 0,
            minor: 1,
        };
        let mut buf = version.to_bytes();
        let ghost head = buf@;
        buf.extend_from_slice(caps_json);
        buf.push(0u8);
        assert(buf@ =~= head + caps_json@ + seq![0u8]);
        buf
    }

    /// The DMA map request: map `size` bytes at `address` of the device's
    /// DMA space to `offset` of the file sent along, for reading and writing.
    pub fn dma_map_request(&mut self, offset: u64, address: u64, size: u64) -> (r: DmaMap)
        ensures
            old(self).took_id(*final(self)),
            r == (DmaMap {
                header: request_header(old(self).next_id(), Command::DmaMap, DMA_MAP_SIZE as u32),
                argsz: 32,
                flags: 3,
                offset,
                address,
                size,
            }),
    {
        let id = self.take_id();
        DmaMap {
            header: make_request_header(id, Command::DmaMap, DMA_MAP_SIZE as u32),
            argsz: 32,
            flags: DmaMapFlags::read_write().bits(),
            offset,
            address,
            size,
        }
    }

    /// The DMA unmap request for `size` bytes at `address`.
    pub fn dma_unmap_request(&mut self, address: u64, size: u64) -> (r: DmaUnmap)
        ensures
            old(self).took_id(*final(self)),
            r == (DmaUnmap {
                header: request_header(
                    old(self).next_id(),
                    Command::DmaUnmap,
                    DMA_UNMAP_SIZE as u32,
                ),
                argsz: 24,
                flags: 0,
                address,
                size,
            }),
    {
        let id = self.take_id();
        DmaUnmap {
            header: make_request_header(id, Command::DmaUnmap, DMA_UNMAP_SIZE as u32),
            argsz: 24,
            flags: 0,
            address,
            size,
        }
    }

    /// The device reset request.
    pub fn reset_request(&mut self) -> (r: DeviceReset)
        ensures
            old(self).took_id(*final(self)),
            r == (DeviceReset {
                header: request_header(
                    old(self).next_id(),
                    Command::DeviceReset,
                    DEVICE_RESET_SIZE as u32,
                ),
            }),
    {
        let id = self.take_id();
        DeviceReset {
            header: make_request_header(id, Command::DeviceReset, DEVICE_RESET_SIZE as u32),
        }
    }

    /// The device info request.
    pub fn device_info_request(&mut self) -> (r: DeviceGetInfo)
        ensures
            old(self).took_id(*final(self)),
            r == (DeviceGetInfo {
                header: request_header(
                    old(self).next_id(),
                    Command::DeviceGetInfo,
                    DEVICE_GET_INFO_SIZE as u32,
                ),
                argsz: 16,
                flags: 0,
                num_regions: 0,
                num_irqs: 0,
            }),
    {
        let id = self.take_id();
        DeviceGetInfo {
            header: make_request_header(id, Command::DeviceGetInfo, DEVICE_GET_INFO_SIZE as u32),
            argsz: 16,
            flags: 0,
            num_regions: 0,
            num_irqs: 0,
        }
    }

    /// Takes in the device info reply: keeps the number of interrupts, then
    /// refuses a device that is not PCI, or keeps whether the device is
    /// resettable (which the client takes to be so when the reset flag is
    /// clear) and gives the number of regions.
    pub fn on_device_info(&mut self, reply: &DeviceGetInfo) -> (r: Result<u32, ProtocolError>)
        ensures
            final(self).irqs() == reply.num_irqs,
            final(self).next_id() == old(self).next_id(),
            final(self).regions() == old(self).regions(),
            reply.flags & VFIO_DEVICE_FLAGS_PCI != VFIO_DEVICE_FLAGS_PCI ==> {
                &&& r matches Err(ProtocolError::NotPciDevice)
                &&& final(self).is_resettable() == old(self).is_resettable()
            },
            reply.flags & VFIO_DEVICE_FLAGS_PCI == VFIO_DEVICE_FLAGS_PCI ==> {
                &&& r == Ok::<u32, ProtocolError>(reply.num_regions)
                &&& final(self).is_resettable() == (reply.flags & VFIO_DEVICE_FLAGS_RESET
                    != VFIO_DEVICE_FLAGS_RESET)
            },
    {
        self.num_irqs = reply.num_irqs;
        if reply.flags & VFIO_DEVICE_FLAGS_PCI != VFIO_DEVICE_FLAGS_PCI {
            return Err(ProtocolError::NotPciDevice);
        }
        self.resettable = reply.flags & VFIO_DEVICE_FLAGS_RESET != VFIO_DEVICE_FLAGS_RESET;
        Ok(reply.num_regions)
    }

    /// The request for the description of region `index`, without its
    /// capabilities.
    pub fn region_info_request(&mut self, index: u32) -> (r: DeviceGetRegionInfo)
        ensures
            old(self).took_id(*final(self)),
            r == (DeviceGetRegionInfo {
                header: request_header(
                    old(self).next_id(),
                    Command::DeviceGetRegionInfo,
                    DEVICE_GET_REGION_INFO_SIZE as u32,
                ),
                region_info: vfio_region_info {
                    argsz: VFIO_REGION_INFO_SIZE as u32,
                    flags: 0,
                    index,
                    cap_offset: 0,
                    size: 0,
                    offset: 0,
                },
            }),
    {
        let id = self.take_id();
        DeviceGetRegionInfo {
            header: make_request_header(
                id,
                Command::DeviceGetRegionInfo,
                DEVICE_GET_REGION_INFO_SIZE as u32,
            ),
            region_info: vfio_region_info {
                argsz: VFIO_REGION_INFO_SIZE as u32,
                flags: 0,
                index,
                cap_offset: 0,
                size: 0,
                offset: 0,
            },
        }
    }

    /// When the reply to `request` announces capabilities (a size beyond the
    /// bare description), the request to send again with that size; it keeps
    /// the message id of `request`, though it takes up the next one.
    pub fn region_caps_request(
        &mut self,
        request: &DeviceGetRegionInfo,
        reply: &DeviceGetRegionInfo,
    ) -> (r: Option<DeviceGetRegionInfo>)
        ensures
            reply.region_info.argsz > VFIO_REGION_INFO_SIZE ==> {
                &&& old(self).took_id(*final(self))
                &&& r == Some(
                    (DeviceGetRegionInfo {
                        region_info: (vfio_region_info {
                            argsz: reply.region_info.argsz,
                            ..request.region_info
                        }),
                        ..*request
                    }),
                )
            },
            reply.region_info.argsz <= VFIO_REGION_INFO_SIZE ==> {
                &&& *final(self) == *old(self)
                &&& r is None
            },
    {
        if reply.region_info.argsz > VFIO_REGION_INFO_SIZE as u32 {
            let _ = self.take_id();
            let mut again = *request;
            again.region_info.argsz = reply.region_info.argsz;
            Some(again)
        } else {
            None
        }
    }

    /// The region read request for `len` bytes at `offset` of `region`.
    pub fn region_read_request(&mut self, region: u32, offset: u64, len: usize) -> (r:
        RegionAccess)
        ensures
            old(self).took_id(*final(self)),
            r == (RegionAccess {
                header: request_header(
                    old(self).next_id(),
                    Command::RegionRead,
                    REGION_ACCESS_SIZE as u32,
                ),
                offset,
                region,
                count: len as u32,
            }),
    {
        let id = self.take_id();
        RegionAccess {
            header: make_request_header(id, Command::RegionRead, REGION_ACCESS_SIZE as u32),
            offset,
            region,
            count: len as u32,
        }
    }

    /// The region write request for `len` bytes at `offset` of `region`;
    /// the bytes follow it.
    pub fn region_write_request(&mut self, region: u32, offset: u64, len: usize) -> (r:
        RegionAccess)
        requires
            len + REGION_ACCESS_SIZE <= usize::MAX,
        ensures
            old(self).took_id(*final(self)),
            r == (RegionAccess {
                header: request_header(
                    old(self).next_id(),
                    Command::RegionWrite,
                    (REGION_ACCESS_SIZE + len) as u32,
                ),
                offset,
                region,
                count: len as u32,
            }),
    {
        let id = self.take_id();
        RegionAccess {
            header: make_request_header(
                id,
                Command::RegionWrite,
                (REGION_ACCESS_SIZE + len) as u32,
            ),
            offset,
            region,
            count: len as u32,
        }
    }

    /// The request for the interrupts of `index`.
    pub fn get_irq_info_request(&mut self, index: u32) -> (r: GetIrqInfo)
        ensures
            old(self).took_id(*final(self)),
            r == (GetIrqInfo {
                header: request_header(
                    old(self).next_id(),
                    Command::GetIrqInfo,
                    GET_IRQ_INFO_SIZE as u32,
                ),
                argsz: 16,
                flags: 0,
                index,
                count: 0,
            }),
    {
        let id = self.take_id();
        GetIrqInfo {
            header: make_request_header(id, Command::GetIrqInfo, GET_IRQ_INFO_SIZE as u32),
            argsz: 16,
            flags: 0,
            index,
            count: 0,
        }
    }

    /// The request that sets up `count` interrupts of `index` from `start`;
    /// the file descriptors go along with it.
    pub fn set_irqs_request(&mut self, index: u32, flags: u32, start: u32, count: u32) -> (r:
        SetIrqs)
        ensures
            old(self).took_id(*final(self)),
            r == (SetIrqs {
                header: request_header(old(self).next_id(), Command::SetIrqs, SET_IRQS_SIZE as u32),
                argsz: 20,
                flags,
                index,
                start,
                count,
            }),
    {
        let id = self.take_id();
        SetIrqs {
            header: make_request_header(id, Command::SetIrqs, SET_IRQS_SIZE as u32),
            argsz: 20,
            flags,
            index,
            start,
            count,
        }
    }

    /// Keeps the regions of the device.
    pub fn set_regions(&mut self, regions: Vec<Region<F>>)
        ensures
            final(self).regions() == regions@,
            final(self).next_id() == old(self).next_id(),
            final(self).irqs() == old(self).irqs(),
            final(self).is_resettable() == old(self).is_resettable(),
    {
        self.regions = regions;
    }

    /// The first region with index `region_index`, if there is one.
    pub fn region(&self, region_index: u32) -> (r: Option<&Region<F>>)
        ensures
            match r {
                Some(region) => exists|i: int|
                    0 <= i < self.regions().len() && self.regions()[i] == *region && region.index
                        == region_index && forall|j: int|
                        0 <= j < i ==> (#[trigger] self.regions()[j]).index != region_index,
                None => forall|i: int|
                    0 <= i < self.regions().len() ==> (#[trigger] self.regions()[i]).index
                        != region_index,
            },
    {
        let mut i: usize = 0;
        while i < self.regions.len()
            invariant
                i <= self.regions@.len(),
                forall|j: int| 0 <= j < i ==> (#[trigger] self.regions@[j]).index != region_index,
            decreases self.regions@.len() - i,
        {
            if self.regions[i].index == region_index {
                return Some(&self.regions[i]);
            }
            i = i + 1;
        }
        None
    }

    /// Whether the client takes the device for resettable.
    pub fn resettable(&self) -> (r: bool)
        ensures
            r == self.is_resettable(),
    {
        self.resettable
    }
}

/// The size of the capabilities that follow the version reply `reply`;
/// `None` when its message size is below that of the bare version message.
pub fn version_data_len(reply: &Version) -> (r: Option<usize>)
    ensures
        reply.header.message_size >= VERSION_SIZE ==> r == Some(
            (reply.header.message_size - VERSION_SIZE) as usize,
        ),
        reply.header.message_size < VERSION_SIZE ==> r is None,
{
    if reply.header.message_size as usize >= VERSION_SIZE {
        Some(reply.header.message_size as usize - VERSION_SIZE)
    } else {
        None
    }
}

/// The JSON text of the capabilities that follow a version reply: all but
/// the last byte, which is the terminating NUL; `None` when there is no
/// byte at all.
pub fn version_json(data: &[u8]) -> (r: Option<&[u8]>)
    ensures
        data@.len() == 0 ==> r is None,
        data@.len() > 0 ==> (r matches Some(json) && json@ == data@.take(data@.len() - 1)),
{
    if data.len() == 0 {
        None
    } else {
        Some(&data[0..data.len() - 1])
    }
}

/// The size of the capabilities that follow a region info reply that
/// announced them: its size beyond the bare description, which must also be
/// its message size beyond the bare message; `None` when either is negative
/// or they differ.
pub fn region_caps_size(reply: &DeviceGetRegionInfo) -> (r: Option<u32>)
    ensures
        r is Some <==> reply.region_info.argsz >= VFIO_REGION_INFO_SIZE
            && reply.header.message_size >= DEVICE_GET_REGION_INFO_SIZE && reply.region_info.argsz
            - VFIO_REGION_INFO_SIZE == reply.header.message_size - DEVICE_GET_REGION_INFO_SIZE,
        r matches Some(n) ==> n == reply.region_info.argsz - VFIO_REGION_INFO_SIZE,
{
    let argsz = reply.region_info.argsz;
    let size = reply.header.message_size;
    if argsz >= VFIO_REGION_INFO_SIZE as u32 && size >= DEVICE_GET_REGION_INFO_SIZE as u32 && argsz
        - VFIO_REGION_INFO_SIZE as u32 == size - DEVICE_GET_REGION_INFO_SIZE as u32 {
        Some(argsz - VFIO_REGION_INFO_SIZE as u32)
    } else {
        None
    }
}

/// What the client keeps of an interrupt info reply.
pub fn irq_info(reply: &GetIrqInfo) -> (r: IrqInfo)
    ensures
        r == (IrqInfo { index: reply.index, flags: reply.flags, count: reply.count }),
{
    IrqInfo { index: reply.index, flags: reply.flags, count: reply.count }
}

/// The id of the request sent `n` requests after one with id `id`.
pub open spec fn id_after_n(id: u16, n: nat) -> u16
    decreases n,
{
    if n == 0 {
        id
    } else {
        id_after(id_after_n(id, (n - 1) as nat))
    }
}

/// Ids count up modulo 2^16.
pub proof fn lemma_id_after_n(id: u16, n: nat)
    ensures
        id_after_n(id, n) == (id + n) % 65536,
    decreases n,
{
    if n > 0 {
        lemma_id_after_n(id, (n - 1) as nat);
        let a = id + n - 1;
        assert(((a % 65536) + 1) % 65536 == (a + 1) % 65536) by (nonlinear_arith)
            requires
                a >= 0,
        {
            vstd::arithmetic::div_mod::lemma_add_mod_noop(a, 1, 65536);
        }
    }
}

/// The ids of 65536 requests in a row are all different.
pub proof fn lemma_ids_distinct(id: u16, i: nat, j: nat)
    requires
        i < j < 65536,
    ensures
        id_after_n(id, i) != id_after_n(id, j),
{
    lemma_id_after_n(id, i);
    lemma_id_after_n(id, j);
    let a = id + i;
    let b = id + j;
    assert(a % 65536 != b % 65536) by (nonlinear_arith)
        requires
            0 <= a < b,
            b - a < 65536,
    {
        vstd::arithmetic::div_mod::lemma_fundamental_div_mod(a, 65536);
        vstd::arithmetic::div_mod::lemma_fundamental_div_mod(b, 65536);
    }
}

/// A request header carries the request's message id, the command's number,
/// no flags (a command) and no error.
pub proof fn lemma_request_header(id: u16, c: Command, message_size: u32)
    ensures
        request_header(id, c, message_size).message_id == id,
        request_header(id, c, message_size).command == c.code(),
        request_header(id, c, message_size).message_size == message_size,
        request_header(id, c, message_size).flags == 0,
        request_header(id, c, message_size).error == 0,
{
}

} // verus!
