//! VFIO structures and constants from the Linux VFIO interface, as the
//! vfio-user protocol carries them, with the little-endian wire layout of
//! the structures that the protocol reads and writes.

#![allow(non_upper_case_globals)]
#![allow(non_camel_case_types)]
#![allow(non_snake_case)]

use vstd::prelude::*;

use crate::le::{
    lemma_at_subrange, lemma_u16_at, lemma_u16_le, lemma_u32_at, lemma_u32_le, lemma_u64_at, lemma_u64_le, push_u16,
    push_u32, push_u64, read_u16, read_u32, read_u64, u16_at, u16_le, u32_at, u32_le, u64_at,
    u64_le,
};



verus! {

pub const VFIO_API_VERSION: u32 = 0;
pub const VFIO_TYPE1_IOMMU: u32 = 1;
pub const VFIO_SPAPR_TCE_IOMMU: u32 = 2;
pub const VFIO_TYPE1v2_IOMMU: u32 = 3;
pub const VFIO_DMA_CC_IOMMU: u32 = 4;
pub const VFIO_EEH: u32 = 5;
pub const VFIO_TYPE1_NESTING_IOMMU: u32 = 6;
pub const VFIO_SPAPR_TCE_v2_IOMMU: u32 = 7;
pub const VFIO_NOIOMMU_IOMMU: u32 = 8;
pub const VFIO_UNMAP_ALL: u32 = 9;
pub const VFIO_UPDATE_VADDR: u32 = 10;
pub const VFIO_TYPE: u8 = 59u8;
pub const VFIO_BASE: u32 = 100;
pub const VFIO_GROUP_FLAGS_VIABLE: u32 = 1;
pub const VFIO_GROUP_FLAGS_CONTAINER_SET: u32 = 2;
pub const VFIO_DEVICE_FLAGS_RESET: u32 = 1;
pub const VFIO_DEVICE_FLAGS_PCI: u32 = 2;
pub const VFIO_DEVICE_FLAGS_PLATFORM: u32 = 4;
pub const VFIO_DEVICE_FLAGS_AMBA: u32 = 8;
pub const VFIO_DEVICE_FLAGS_CCW: u32 = 16;
pub const VFIO_DEVICE_FLAGS_AP: u32 = 32;
pub const VFIO_DEVICE_FLAGS_FSL_MC: u32 = 64;
pub const VFIO_DEVICE_FLAGS_CAPS: u32 = 128;
pub const VFIO_DEVICE_FLAGS_CDX: u32 = 256;
pub const VFIO_DEVICE_INFO_CAP_ZPCI_BASE: u32 = 1;
pub const VFIO_DEVICE_INFO_CAP_ZPCI_GROUP: u32 = 2;
pub const VFIO_DEVICE_INFO_CAP_ZPCI_UTIL: u32 = 3;
pub const VFIO_DEVICE_INFO_CAP_ZPCI_PFIP: u32 = 4;
pub const VFIO_DEVICE_INFO_CAP_PCI_ATOMIC_COMP: u32 = 5;
pub const VFIO_PCI_ATOMIC_COMP32: u32 = 1;
pub const VFIO_PCI_ATOMIC_COMP64: u32 = 2;
pub const VFIO_PCI_ATOMIC_COMP128: u32 = 4;
pub const VFIO_REGION_INFO_FLAG_READ: u32 = 1;
pub const VFIO_REGION_INFO_FLAG_WRITE: u32 = 2;
pub const VFIO_REGION_INFO_FLAG_MMAP: u32 = 4;
pub const VFIO_REGION_INFO_FLAG_CAPS: u32 = 8;
pub const VFIO_REGION_INFO_CAP_SPARSE_MMAP: u32 = 1;
pub const VFIO_REGION_INFO_CAP_TYPE: u32 = 2;
pub const VFIO_REGION_TYPE_PCI_VENDOR_TYPE: u32 = 2147483648;
pub const VFIO_REGION_TYPE_PCI_VENDOR_MASK: u32 = 65535;
pub const VFIO_REGION_TYPE_GFX: u32 = 1;
pub const VFIO_REGION_TYPE_CCW: u32 = 2;
pub const VFIO_REGION_TYPE_MIGRATION_DEPRECATED: u32 = 3;
pub const VFIO_REGION_SUBTYPE_INTEL_IGD_OPREGION: u32 = 1;
pub const VFIO_REGION_SUBTYPE_INTEL_IGD_HOST_CFG: u32 = 2;
pub const VFIO_REGION_SUBTYPE_INTEL_IGD_LPC_CFG: u32 = 3;
pub const VFIO_REGION_SUBTYPE_NVIDIA_NVLINK2_RAM: u32 = 1;
pub const VFIO_REGION_SUBTYPE_IBM_NVLINK2_ATSD: u32 = 1;
pub const VFIO_REGION_SUBTYPE_GFX_EDID: u32 = 1;
pub const VFIO_DEVICE_GFX_LINK_STATE_UP: u32 = 1;
pub const VFIO_DEVICE_GFX_LINK_STATE_DOWN: u32 = 2;
pub const VFIO_REGION_SUBTYPE_CCW_ASYNC_CMD: u32 = 1;
pub const VFIO_REGION_SUBTYPE_CCW_SCHIB: u32 = 2;
pub const VFIO_REGION_SUBTYPE_CCW_CRW: u32 = 3;
pub const VFIO_REGION_SUBTYPE_MIGRATION_DEPRECATED: u32 = 1;
pub const VFIO_DEVICE_STATE_V1_STOP: u32 = 0;
pub const VFIO_DEVICE_STATE_V1_RUNNING: u32 = 1;
pub const VFIO_DEVICE_STATE_V1_SAVING: u32 = 2;
pub const VFIO_DEVICE_STATE_V1_RESUMING: u32 = 4;
pub const VFIO_DEVICE_STATE_MASK: u32 = 7;
pub const VFIO_REGION_INFO_CAP_MSIX_MAPPABLE: u32 = 3;
pub const VFIO_REGION_INFO_CAP_NVLINK2_SSATGT: u32 = 4;
pub const VFIO_REGION_INFO_CAP_NVLINK2_LNKSPD: u32 = 5;
pub const VFIO_IRQ_INFO_EVENTFD: u32 = 1;
pub const VFIO_IRQ_INFO_MASKABLE: u32 = 2;
pub const VFIO_IRQ_INFO_AUTOMASKED: u32 = 4;
pub const VFIO_IRQ_INFO_NORESIZE: u32 = 8;
pub const VFIO_IRQ_SET_DATA_NONE: u32 = 1;
pub const VFIO_IRQ_SET_DATA_BOOL: u32 = 2;
pub const VFIO_IRQ_SET_DATA_EVENTFD: u32 = 4;
pub const VFIO_IRQ_SET_ACTION_MASK: u32 = 8;
pub const VFIO_IRQ_SET_ACTION_UNMASK: u32 = 16;
pub const VFIO_IRQ_SET_ACTION_TRIGGER: u32 = 32;
pub const VFIO_IRQ_SET_DATA_TYPE_MASK: u32 = 7;
pub const VFIO_IRQ_SET_ACTION_TYPE_MASK: u32 = 56;
pub const VFIO_PCI_DEVID_OWNED: u32 = 0;
pub const VFIO_PCI_DEVID_NOT_OWNED: i32 = -1;
pub const VFIO_PCI_HOT_RESET_FLAG_DEV_ID: u32 = 1;
pub const VFIO_PCI_HOT_RESET_FLAG_DEV_ID_OWNED: u32 = 2;
pub const VFIO_GFX_PLANE_TYPE_PROBE: u32 = 1;
pub const VFIO_GFX_PLANE_TYPE_DMABUF: u32 = 2;
pub const VFIO_GFX_PLANE_TYPE_REGION: u32 = 4;
pub const VFIO_DEVICE_IOEVENTFD_8: u32 = 1;
pub const VFIO_DEVICE_IOEVENTFD_16: u32 = 2;
pub const VFIO_DEVICE_IOEVENTFD_32: u32 = 4;
pub const VFIO_DEVICE_IOEVENTFD_64: u32 = 8;
pub const VFIO_DEVICE_IOEVENTFD_SIZE_MASK: u32 = 15;
pub const VFIO_DEVICE_FEATURE_MASK: u32 = 65535;
pub const VFIO_DEVICE_FEATURE_GET: u32 = 65536;
pub const VFIO_DEVICE_FEATURE_SET: u32 = 131072;
pub const VFIO_DEVICE_FEATURE_PROBE: u32 = 262144;
pub const VFIO_DEVICE_FEATURE_PCI_VF_TOKEN: u32 = 0;
pub const VFIO_MIGRATION_STOP_COPY: u32 = 1;
pub const VFIO_MIGRATION_P2P: u32 = 2;
pub const VFIO_MIGRATION_PRE_COPY: u32 = 4;
pub const VFIO_DEVICE_FEATURE_MIGRATION: u32 = 1;
pub const VFIO_DEVICE_FEATURE_MIG_DEVICE_STATE: u32 = 2;
pub const VFIO_DEVICE_FEATURE_LOW_POWER_ENTRY: u32 = 3;
pub const VFIO_DEVICE_FEATURE_LOW_POWER_ENTRY_WITH_WAKEUP: u32 = 4;
pub const VFIO_DEVICE_FEATURE_LOW_POWER_EXIT: u32 = 5;
pub const VFIO_DEVICE_FEATURE_DMA_LOGGING_START: u32 = 6;
pub const VFIO_DEVICE_FEATURE_DMA_LOGGING_STOP: u32 = 7;
pub const VFIO_DEVICE_FEATURE_DMA_LOGGING_REPORT: u32 = 8;
pub const VFIO_DEVICE_FEATURE_MIG_DATA_SIZE: u32 = 9;
pub const VFIO_IOMMU_INFO_PGSIZES: u32 = 1;
pub const VFIO_IOMMU_INFO_CAPS: u32 = 2;
pub const VFIO_IOMMU_TYPE1_INFO_CAP_IOVA_RANGE: u32 = 1;
pub const VFIO_IOMMU_TYPE1_INFO_CAP_MIGRATION: u32 = 2;
pub const VFIO_IOMMU_TYPE1_INFO_DMA_AVAIL: u32 = 3;
pub const VFIO_DMA_MAP_FLAG_READ: u32 = 1;
pub const VFIO_DMA_MAP_FLAG_WRITE: u32 = 2;
pub const VFIO_DMA_MAP_FLAG_VADDR: u32 = 4;
pub const VFIO_DMA_UNMAP_FLAG_GET_DIRTY_BITMAP: u32 = 1;
pub const VFIO_DMA_UNMAP_FLAG_ALL: u32 = 2;
pub const VFIO_DMA_UNMAP_FLAG_VADDR: u32 = 4;
pub const VFIO_IOMMU_DIRTY_PAGES_FLAG_START: u32 = 1;
pub const VFIO_IOMMU_DIRTY_PAGES_FLAG_STOP: u32 = 2;
pub const VFIO_IOMMU_DIRTY_PAGES_FLAG_GET_BITMAP: u32 = 4;
pub const VFIO_IOMMU_SPAPR_INFO_DDW: u32 = 1;
pub const VFIO_EEH_PE_DISABLE: u32 = 0;
pub const VFIO_EEH_PE_ENABLE: u32 = 1;
pub const VFIO_EEH_PE_UNFREEZE_IO: u32 = 2;
pub const VFIO_EEH_PE_UNFREEZE_DMA: u32 = 3;
pub const VFIO_EEH_PE_GET_STATE: u32 = 4;
pub const VFIO_EEH_PE_STATE_NORMAL: u32 = 0;
pub const VFIO_EEH_PE_STATE_RESET: u32 = 1;
pub const VFIO_EEH_PE_STATE_STOPPED: u32 = 2;
pub const VFIO_EEH_PE_STATE_STOPPED_DMA: u32 = 4;
pub const VFIO_EEH_PE_STATE_UNAVAIL: u32 = 5;
pub const VFIO_EEH_PE_RESET_DEACTIVATE: u32 = 5;
pub const VFIO_EEH_PE_RESET_HOT: u32 = 6;
pub const VFIO_EEH_PE_RESET_FUNDAMENTAL: u32 = 7;
pub const VFIO_EEH_PE_CONFIGURE: u32 = 8;
pub const VFIO_EEH_PE_INJECT_ERR: u32 = 9;
pub const VFIO_PCI_BAR0_REGION_INDEX: u32 = 0;
pub const VFIO_PCI_BAR1_REGION_INDEX: u32 = 1;
pub const VFIO_PCI_BAR2_REGION_INDEX: u32 = 2;
pub const VFIO_PCI_BAR3_REGION_INDEX: u32 = 3;
pub const VFIO_PCI_BAR4_REGION_INDEX: u32 = 4;
pub const VFIO_PCI_BAR5_REGION_INDEX: u32 = 5;
pub const VFIO_PCI_ROM_REGION_INDEX: u32 = 6;
pub const VFIO_PCI_CONFIG_REGION_INDEX: u32 = 7;
pub const VFIO_PCI_VGA_REGION_INDEX: u32 = 8;
pub const VFIO_PCI_NUM_REGIONS: u32 = 9;
pub const VFIO_PCI_INTX_IRQ_INDEX: u32 = 0;
pub const VFIO_PCI_MSI_IRQ_INDEX: u32 = 1;
pub const VFIO_PCI_MSIX_IRQ_INDEX: u32 = 2;
pub const VFIO_PCI_ERR_IRQ_INDEX: u32 = 3;
pub const VFIO_PCI_REQ_IRQ_INDEX: u32 = 4;
pub const VFIO_PCI_NUM_IRQS: u32 = 5;

/// The trailing, variable-length array of a VFIO structure.
///
/// In the kernel layout the field is zero-sized and the elements follow the
/// structure in memory. Here the elements are held by value, so that reading
/// them needs no raw memory access; the field is therefore not zero-sized,
/// and a structure that ends in it (such as
/// `vfio_region_info_cap_sparse_mmap`) is larger in memory than its kernel
/// form. The byte form on the wire is the one that the `read_from` and
/// `write_to` functions state, with the elements right after the fixed part.
/// The derived `Debug` prints the held elements; `debug_text` gives the
/// kernel bindings' fixed text instead.
#[derive(Debug, Default)]
pub struct IncompleteArrayField<T> {
    elems: Vec<T>,
}

impl<T> View for IncompleteArrayField<T> {
    type V = Seq<T>;

    closed spec fn view(&self) -> Seq<T> {
        self.elems@
    }
}

impl<T> IncompleteArrayField<T> {
    /// An array with no elements.
    pub fn new() -> (r: Self)
        ensures
            r@ == Seq::<T>::empty(),
    {
        IncompleteArrayField { elems: Vec::new() }
    }

    /// An array holding `elems`, in order.
    pub fn from_vec(elems: Vec<T>) -> (r: Self)
        ensures
            r@ == elems@,
    {
        IncompleteArrayField { elems }
    }

    /// The trailing elements, starting at the first one.
    pub fn as_ptr(&self) -> (r: &[T])
        ensures
            r@ == self@,
    {
        self.elems.as_slice()
    }

    /// The trailing elements, starting at the first one, for writing.
    pub fn as_mut_ptr(&mut self) -> (r: &mut [T])
        ensures
            r@ == old(self)@,
            final(self)@ == final(r)@,
    {
        self.elems.as_mut_slice()
    }

    /// The fixed text that the kernel bindings print for the field, without
    /// its elements. (The derived `Debug` of this type prints the elements.)
    pub fn debug_text(&self) -> (r: String)
        ensures
            r@ == "__IncompleteArrayField"@,
    {
        "__IncompleteArrayField".to_owned()
    }

    /// The first `len` trailing elements.
    pub fn as_slice(&self, len: usize) -> (r: &[T])
        requires
            len <= self@.len(),
        ensures
            r@ == self@.take(len as int),
    {
        let (head, _) = self.elems.as_slice().split_at(len);
        head
    }

    /// The first `len` trailing elements, for writing; the others stay as
    /// they are.
    pub fn as_mut_slice(&mut self, len: usize) -> (r: &mut [T])
        requires
            len <= old(self)@.len(),
        ensures
            r@ == old(self)@.take(len as int),
            final(self)@ == final(r)@ + old(self)@.skip(len as int),
    {
        let (head, _) = self.elems.as_mut_slice().split_at_mut(len);
        head
    }
}

#[derive(Debug, Default, Copy, Clone, PartialEq, Eq)]
pub struct vfio_info_cap_header {
    pub id: u16,
    pub version: u16,
    pub next: u32,
}

#[derive(Debug, Default, Copy, Clone, PartialEq, Eq)]
pub struct vfio_group_status {
    pub argsz: u32,
    pub flags: u32,
}

#[derive(Debug, Default, Copy, Clone, PartialEq, Eq)]
pub struct vfio_device_info {
    pub argsz: u32,
    pub flags: u32,
    pub num_regions: u32,
    pub num_irqs: u32,
    pub cap_offset: u32,
    pub pad: u32,
}

#[derive(Debug, Default, Copy, Clone, PartialEq, Eq)]
pub struct vfio_device_info_cap_pci_atomic_comp {
    pub header: vfio_info_cap_header,
    pub flags: u32,
    pub reserved: u32,
}

#[derive(Debug, Default, Copy, Clone, PartialEq, Eq)]
pub struct vfio_region_info {
    pub argsz: u32,
    pub flags: u32,
    pub index: u32,
    pub cap_offset: u32,
    pub size: u64,
    pub offset: u64,
}

#[derive(Debug, Default, Copy, Clone, PartialEq, Eq)]
pub struct vfio_region_sparse_mmap_area {
    pub offset: u64,
    pub size: u64,
}

#[derive(Debug, Default)]
pub struct vfio_region_info_cap_sparse_mmap {
    pub header: vfio_info_cap_header,
    pub nr_areas: u32,
    pub reserved: u32,
    pub areas: IncompleteArrayField<vfio_region_sparse_mmap_area>,
}

#[derive(Debug, Default, Copy, Clone, PartialEq, Eq)]
pub struct vfio_region_info_cap_type {
    pub header: vfio_info_cap_header,
    pub type_: u32,
    pub subtype: u32,
}

#[derive(Debug, Default, Copy, Clone, PartialEq, Eq)]
pub struct vfio_region_gfx_edid {
    pub edid_offset: u32,
    pub edid_max_size: u32,
    pub edid_size: u32,
    pub max_xres: u32,
    pub max_yres: u32,
    pub link_state: u32,
}

#[derive(Debug, Default, Copy, Clone, PartialEq, Eq)]
pub struct vfio_device_migration_info {
    pub device_state: u32,
    pub reserved: u32,
    pub pending_bytes: u64,
    pub data_offset: u64,
    pub data_size: u64,
}

#[derive(Debug, Default, Copy, Clone, PartialEq, Eq)]
pub struct vfio_region_info_cap_nvlink2_ssatgt {
    pub header: vfio_info_cap_header,
    pub tgt: u64,
}

#[derive(Debug, Default, Copy, Clone, PartialEq, Eq)]
pub struct vfio_region_info_cap_nvlink2_lnkspd {
    pub header: vfio_info_cap_header,
    pub link_speed: u32,
    pub __pad: u32,
}

#[derive(Debug, Default, Copy, Clone, PartialEq, Eq)]
pub struct vfio_irq_info {
    pub argsz: u32,
    pub flags: u32,
    pub index: u32,
    pub count: u32,
}

#[derive(Debug, Default, Copy, Clone, PartialEq, Eq)]
pub struct vfio_device_ioeventfd {
    pub argsz: u32,
    pub flags: u32,
    pub offset: u64,
    pub data: u64,
    pub fd: i32,
}

/// The size in bytes of a capability header.
pub const VFIO_INFO_CAP_HEADER_SIZE: usize = 8;

impl vfio_info_cap_header {
    /// The wire bytes of a capability header.
    pub open spec fn wire(self) -> Seq<u8> {
        u16_le(self.id)
            + u16_le(self.version)
            + u32_le(self.next)
    }

    /// The value that the first 8 bytes of `b` hold.
    pub open spec fn from_wire(b: Seq<u8>) -> vfio_info_cap_header {
        vfio_info_cap_header {
            id: u16_at(b, 0),
            version: u16_at(b, 2),
            next: u32_at(b, 4),
        }
    }

    /// Appends the wire bytes to `buf`.
    pub fn write_to(&self, buf: &mut Vec<u8>)
        ensures
            final(buf)@ == old(buf)@ + self.wire(),
    {
        push_u16(buf, self.id);
        push_u16(buf, self.version);
        push_u32(buf, self.next);
        assert(final(buf)@ =~= old(buf)@ + self.wire());
    }

    /// Reads the value stored at byte `off` of `b`.
    pub fn read_from(b: &[u8], off: usize) -> (r: vfio_info_cap_header)
        requires
            off + VFIO_INFO_CAP_HEADER_SIZE <= b.len(),
        ensures
            r == vfio_info_cap_header::from_wire(b@.subrange(off as int, off + VFIO_INFO_CAP_HEADER_SIZE)),
    {
        vfio_info_cap_header {
            id: read_u16(b, off),
            version: read_u16(b, off + 2),
            next: read_u32(b, off + 4),
        }
    }

    /// The wire bytes, in a new buffer.
    pub fn to_bytes(&self) -> (r: Vec<u8>)
        ensures
            r@ == self.wire(),
    {
        let mut buf: Vec<u8> = Vec::new();
        self.write_to(&mut buf);
        assert(buf@ =~= self.wire());
        buf
    }

    /// Decodes `b`, which must hold exactly 8 bytes.
    pub fn from_bytes(b: &[u8]) -> (r: Option<vfio_info_cap_header>)
        ensures
            r is Some <==> b@.len() == VFIO_INFO_CAP_HEADER_SIZE,
            r matches Some(m) ==> m == vfio_info_cap_header::from_wire(b@),
    {
        if b.len() == VFIO_INFO_CAP_HEADER_SIZE {
            assert(b@.subrange(0, VFIO_INFO_CAP_HEADER_SIZE as int) =~= b@);
            Some(vfio_info_cap_header::read_from(b, 0))
        } else {
            None
        }
    }
}

/// Decoding the wire bytes of a capability header gives it back.
pub proof fn lemma_vfio_info_cap_header_wire(m: vfio_info_cap_header)
    ensures
        m.wire().len() == VFIO_INFO_CAP_HEADER_SIZE,
        vfio_info_cap_header::from_wire(m.wire()) == m,
{
    lemma_u16_le(m.id);
    lemma_u16_le(m.version);
    lemma_u32_le(m.next);
    let b = m.wire();
    assert(vfio_info_cap_header::from_wire(b).id == m.id);
    assert(vfio_info_cap_header::from_wire(b).version == m.version);
    assert(vfio_info_cap_header::from_wire(b).next == m.next);
}

/// Encoding the value read from 8 bytes gives those bytes back.
pub proof fn lemma_vfio_info_cap_header_from_wire(b: Seq<u8>)
    requires
        b.len() == VFIO_INFO_CAP_HEADER_SIZE,
    ensures
        vfio_info_cap_header::from_wire(b).wire() == b,
{
    lemma_u16_at(b, 0);
    lemma_u16_at(b, 2);
    lemma_u32_at(b, 4);
    assert(vfio_info_cap_header::from_wire(b).wire() =~= b);
}

/// The size in bytes of a region description.
pub const VFIO_REGION_INFO_SIZE: usize = 32;

impl vfio_region_info {
    /// The wire bytes of a region description.
    pub open spec fn wire(self) -> Seq<u8> {
        u32_le(self.argsz)
            + u32_le(self.flags)
            + u32_le(self.index)
            + u32_le(self.cap_offset)
            + u64_le(self.size)
            + u64_le(self.offset)
    }

    /// The value that the first 32 bytes of `b` hold.
    pub open spec fn from_wire(b: Seq<u8>) -> vfio_region_info {
        vfio_region_info {
            argsz: u32_at(b, 0),
            flags: u32_at(b, 4),
            index: u32_at(b, 8),
            cap_offset: u32_at(b, 12),
            size: u64_at(b, 16),
            offset: u64_at(b, 24),
        }
    }

    /// Appends the wire bytes to `buf`.
    pub fn write_to(&self, buf: &mut Vec<u8>)
        ensures
            final(buf)@ == old(buf)@ + self.wire(),
    {
        push_u32(buf, self.argsz);
        push_u32(buf, self.flags);
        push_u32(buf, self.index);
        push_u32(buf, self.cap_offset);
        push_u64(buf, self.size);
        push_u64(buf, self.offset);
        assert(final(buf)@ =~= old(buf)@ + self.wire());
    }

    /// Reads the value stored at byte `off` of `b`.
    pub fn read_from(b: &[u8], off: usize) -> (r: vfio_region_info)
        requires
            off + VFIO_REGION_INFO_SIZE <= b.len(),
        ensures
            r == vfio_region_info::from_wire(b@.subrange(off as int, off + VFIO_REGION_INFO_SIZE)),
    {
        vfio_region_info {
            argsz: read_u32(b, off),
            flags: read_u32(b, off + 4),
            index: read_u32(b, off + 8),
            cap_offset: read_u32(b, off + 12),
            size: read_u64(b, off + 16),
            offset: read_u64(b, off + 24),
        }
    }

    /// The wire bytes, in a new buffer.
    pub fn to_bytes(&self) -> (r: Vec<u8>)
        ensures
            r@ == self.wire(),
    {
        let mut buf: Vec<u8> = Vec::new();
        self.write_to(&mut buf);
        assert(buf@ =~= self.wire());
        buf
    }

    /// Decodes `b`, which must hold exactly 32 bytes.
    pub fn from_bytes(b: &[u8]) -> (r: Option<vfio_region_info>)
        ensures
            r is Some <==> b@.len() == VFIO_REGION_INFO_SIZE,
            r matches Some(m) ==> m == vfio_region_info::from_wire(b@),
    {
        if b.len() == VFIO_REGION_INFO_SIZE {
            assert(b@.subrange(0, VFIO_REGION_INFO_SIZE as int) =~= b@);
            Some(vfio_region_info::read_from(b, 0))
        } else {
            None
        }
    }
}

/// Decoding the wire bytes of a region description gives it back.
pub proof fn lemma_vfio_region_info_wire(m: vfio_region_info)
    ensures
        m.wire().len() == VFIO_REGION_INFO_SIZE,
        vfio_region_info::from_wire(m.wire()) == m,
{
    lemma_u32_le(m.argsz);
    lemma_u32_le(m.flags);
    lemma_u32_le(m.index);
    lemma_u32_le(m.cap_offset);
    lemma_u64_le(m.size);
    lemma_u64_le(m.offset);
    let b = m.wire();
    assert(vfio_region_info::from_wire(b).argsz == m.argsz);
    assert(vfio_region_info::from_wire(b).flags == m.flags);
    assert(vfio_region_info::from_wire(b).index == m.index);
    assert(vfio_region_info::from_wire(b).cap_offset == m.cap_offset);
    assert(vfio_region_info::from_wire(b).size == m.size);
    assert(vfio_region_info::from_wire(b).offset == m.offset);
}

/// Encoding the value read from 32 bytes gives those bytes back.
pub proof fn lemma_vfio_region_info_from_wire(b: Seq<u8>)
    requires
        b.len() == VFIO_REGION_INFO_SIZE,
    ensures
        vfio_region_info::from_wire(b).wire() == b,
{
    lemma_u32_at(b, 0);
    lemma_u32_at(b, 4);
    lemma_u32_at(b, 8);
    lemma_u32_at(b, 12);
    lemma_u64_at(b, 16);
    lemma_u64_at(b, 24);
    assert(vfio_region_info::from_wire(b).wire() =~= b);
}

/// The size in bytes of a sparse mmap area.
pub const VFIO_REGION_SPARSE_MMAP_AREA_SIZE: usize = 16;

impl vfio_region_sparse_mmap_area {
    /// The wire bytes of a sparse mmap area.
    pub open spec fn wire(self) -> Seq<u8> {
        u64_le(self.offset)
            + u64_le(self.size)
    }

    /// The value that the first 16 bytes of `b` hold.
    pub open spec fn from_wire(b: Seq<u8>) -> vfio_region_sparse_mmap_area {
        vfio_region_sparse_mmap_area {
            offset: u64_at(b, 0),
            size: u64_at(b, 8),
        }
    }

    /// Appends the wire bytes to `buf`.
    pub fn write_to(&self, buf: &mut Vec<u8>)
        ensures
            final(buf)@ == old(buf)@ + self.wire(),
    {
        push_u64(buf, self.offset);
        push_u64(buf, self.size);
        assert(final(buf)@ =~= old(buf)@ + self.wire());
    }

    /// Reads the value stored at byte `off` of `b`.
    pub fn read_from(b: &[u8], off: usize) -> (r: vfio_region_sparse_mmap_area)
        requires
            off + VFIO_REGION_SPARSE_MMAP_AREA_SIZE <= b.len(),
        ensures
            r == vfio_region_sparse_mmap_area::from_wire(b@.subrange(off as int, off + VFIO_REGION_SPARSE_MMAP_AREA_SIZE)),
            r.offset == u64_at(b@, off as int),
            r.size == u64_at(b@, off + 8),
    {
        vfio_region_sparse_mmap_area {
            offset: read_u64(b, off),
            size: read_u64(b, off + 8),
        }
    }

    /// The wire bytes, in a new buffer.
    pub fn to_bytes(&self) -> (r: Vec<u8>)
        ensures
            r@ == self.wire(),
    {
        let mut buf: Vec<u8> = Vec::new();
        self.write_to(&mut buf);
        assert(buf@ =~= self.wire());
        buf
    }

    /// Decodes `b`, which must hold exactly 16 bytes.
    pub fn from_bytes(b: &[u8]) -> (r: Option<vfio_region_sparse_mmap_area>)
        ensures
            r is Some <==> b@.len() == VFIO_REGION_SPARSE_MMAP_AREA_SIZE,
            r matches Some(m) ==> m == vfio_region_sparse_mmap_area::from_wire(b@),
    {
        if b.len() == VFIO_REGION_SPARSE_MMAP_AREA_SIZE {
            assert(b@.subrange(0, VFIO_REGION_SPARSE_MMAP_AREA_SIZE as int) =~= b@);
            Some(vfio_region_sparse_mmap_area::read_from(b, 0))
        } else {
            None
        }
    }
}

/// Decoding the wire bytes of a sparse mmap area gives it back.
pub proof fn lemma_vfio_region_sparse_mmap_area_wire(m: vfio_region_sparse_mmap_area)
    ensures
        m.wire().len() == VFIO_REGION_SPARSE_MMAP_AREA_SIZE,
        vfio_region_sparse_mmap_area::from_wire(m.wire()) == m,
{
    lemma_u64_le(m.offset);
    lemma_u64_le(m.size);
    let b = m.wire();
    assert(vfio_region_sparse_mmap_area::from_wire(b).offset == m.offset);
    assert(vfio_region_sparse_mmap_area::from_wire(b).size == m.size);
}

/// Encoding the value read from 16 bytes gives those bytes back.
pub proof fn lemma_vfio_region_sparse_mmap_area_from_wire(b: Seq<u8>)
    requires
        b.len() == VFIO_REGION_SPARSE_MMAP_AREA_SIZE,
    ensures
        vfio_region_sparse_mmap_area::from_wire(b).wire() == b,
{
    lemma_u64_at(b, 0);
    lemma_u64_at(b, 8);
    assert(vfio_region_sparse_mmap_area::from_wire(b).wire() =~= b);
}

/// The `n` sparse mmap areas stored one after the other from byte `start`
/// of `b`.
pub open spec fn areas_at(b: Seq<u8>, start: int, n: nat) -> Seq<vfio_region_sparse_mmap_area> {
    Seq::new(
        n,
        |i: int|
            vfio_region_sparse_mmap_area::from_wire(
                b.subrange(
                    start + VFIO_REGION_SPARSE_MMAP_AREA_SIZE * i,
                    start + VFIO_REGION_SPARSE_MMAP_AREA_SIZE * i + VFIO_REGION_SPARSE_MMAP_AREA_SIZE,
                ),
            ),
    )
}

/// The size in bytes of a sparse mmap capability, without its areas.
pub const VFIO_REGION_INFO_CAP_SPARSE_MMAP_SIZE: usize = 16;

impl vfio_region_info_cap_sparse_mmap {
    /// Reads the sparse mmap capability at byte `off` of `b`, together with
    /// the areas that follow it.
    pub fn read_from(b: &[u8], off: usize) -> (r: vfio_region_info_cap_sparse_mmap)
        requires
            off + VFIO_REGION_INFO_CAP_SPARSE_MMAP_SIZE <= b.len(),
            off + VFIO_REGION_INFO_CAP_SPARSE_MMAP_SIZE + VFIO_REGION_SPARSE_MMAP_AREA_SIZE * u32_at(
                b@,
                off + 8,
            ) <= b.len(),
        ensures
            r.header == vfio_info_cap_header::from_wire(
                b@.subrange(off as int, off + VFIO_INFO_CAP_HEADER_SIZE),
            ),
            r.nr_areas == u32_at(b@, off + 8),
            r.reserved == u32_at(b@, off + 12),
            r.areas@ == areas_at(
                b@,
                off + VFIO_REGION_INFO_CAP_SPARSE_MMAP_SIZE,
                u32_at(b@, off + 8) as nat,
            ),
    {
        let header = vfio_info_cap_header::read_from(b, off);
        let nr_areas = read_u32(b, off + 8);
        let reserved = read_u32(b, off + 12);
        let start = off + VFIO_REGION_INFO_CAP_SPARSE_MMAP_SIZE;
        let mut elems: Vec<vfio_region_sparse_mmap_area> = Vec::new();
        let mut i: u32 = 0;
        while i < nr_areas
            invariant
                i <= nr_areas,
                nr_areas == u32_at(b@, off + 8),
                start == off + VFIO_REGION_INFO_CAP_SPARSE_MMAP_SIZE,
                start + VFIO_REGION_SPARSE_MMAP_AREA_SIZE * nr_areas <= b.len(),
                elems@ == areas_at(b@, start as int, i as nat),
            decreases nr_areas - i,
        {
            assert(VFIO_REGION_SPARSE_MMAP_AREA_SIZE * i + VFIO_REGION_SPARSE_MMAP_AREA_SIZE
                <= VFIO_REGION_SPARSE_MMAP_AREA_SIZE * nr_areas);
            let a = vfio_region_sparse_mmap_area::read_from(
                b,
                start + VFIO_REGION_SPARSE_MMAP_AREA_SIZE * (i as usize),
            );
            elems.push(a);
            i = i + 1;
            assert(elems@ =~= areas_at(b@, start as int, i as nat));
        }
        vfio_region_info_cap_sparse_mmap {
            header,
            nr_areas,
            reserved,
            areas: IncompleteArrayField::from_vec(elems),
        }
    }
}

/// The byte layout of a capability header, as the kernel and the vfio-user protocol lay it
/// out: every field sits little-endian at its fixed offset, in both the
/// bytes written and the value read from any bytes of that length.
pub proof fn lemma_vfio_info_cap_header_layout(m: vfio_info_cap_header, b: Seq<u8>)
    ensures
        m.wire().len() == 8,
        u16_at(m.wire(), 0) == m.id,
        u16_at(m.wire(), 2) == m.version,
        u32_at(m.wire(), 4) == m.next,
        b.len() == 8 ==> vfio_info_cap_header::from_wire(b).id == u16_at(b, 0),
        b.len() == 8 ==> vfio_info_cap_header::from_wire(b).version == u16_at(b, 2),
        b.len() == 8 ==> vfio_info_cap_header::from_wire(b).next == u32_at(b, 4),
{
    lemma_vfio_info_cap_header_wire(m);
}

/// The byte layout of a region description, as the kernel and the vfio-user protocol lay it
/// out: every field sits little-endian at its fixed offset, in both the
/// bytes written and the value read from any bytes of that length.
pub proof fn lemma_vfio_region_info_layout(m: vfio_region_info, b: Seq<u8>)
    ensures
        m.wire().len() == 32,
        u32_at(m.wire(), 0) == m.argsz,
        u32_at(m.wire(), 4) == m.flags,
        u32_at(m.wire(), 8) == m.index,
        u32_at(m.wire(), 12) == m.cap_offset,
        u64_at(m.wire(), 16) == m.size,
        u64_at(m.wire(), 24) == m.offset,
        b.len() == 32 ==> vfio_region_info::from_wire(b).argsz == u32_at(b, 0),
        b.len() == 32 ==> vfio_region_info::from_wire(b).flags == u32_at(b, 4),
        b.len() == 32 ==> vfio_region_info::from_wire(b).index == u32_at(b, 8),
        b.len() == 32 ==> vfio_region_info::from_wire(b).cap_offset == u32_at(b, 12),
        b.len() == 32 ==> vfio_region_info::from_wire(b).size == u64_at(b, 16),
        b.len() == 32 ==> vfio_region_info::from_wire(b).offset == u64_at(b, 24),
{
    lemma_vfio_region_info_wire(m);
}

/// The byte layout of a sparse mmap area, as the kernel and the vfio-user protocol lay it
/// out: every field sits little-endian at its fixed offset, in both the
/// bytes written and the value read from any bytes of that length.
pub proof fn lemma_vfio_region_sparse_mmap_area_layout(m: vfio_region_sparse_mmap_area, b: Seq<u8>)
    ensures
        m.wire().len() == 16,
        u64_at(m.wire(), 0) == m.offset,
        u64_at(m.wire(), 8) == m.size,
        b.len() == 16 ==> vfio_region_sparse_mmap_area::from_wire(b).offset == u64_at(b, 0),
        b.len() == 16 ==> vfio_region_sparse_mmap_area::from_wire(b).size == u64_at(b, 8),
{
    lemma_vfio_region_sparse_mmap_area_wire(m);
}

} // verus!
