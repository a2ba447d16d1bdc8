use vfio_user::bindings::{
    vfio_info_cap_header, vfio_region_info, vfio_region_info_cap_sparse_mmap,
    vfio_region_sparse_mmap_area, IncompleteArrayField, VFIO_REGION_INFO_SIZE,
};
use vfio_user::le::{push_u16, push_u32, push_u64, read_u16, read_u32, read_u64};
use vfio_user::proto::{
    Command, DeviceGetInfo, DeviceGetRegionInfo, DeviceReset, DmaMap, DmaMapFlags, DmaUnmap,
    DmaUnmapFlags, GetIrqInfo, Header, HeaderFlags, MigrationCapabilities, RegionAccess, SetIrqs,
    Version, DEVICE_GET_INFO_SIZE, DEVICE_GET_REGION_INFO_SIZE, DEVICE_RESET_SIZE, DMA_MAP_SIZE,
    DMA_UNMAP_SIZE, GET_IRQ_INFO_SIZE, HEADER_SIZE, REGION_ACCESS_SIZE, SET_IRQS_SIZE,
    VERSION_SIZE,
};

fn header() -> Header {
    Header {
        message_id: 0x0102,
        command: 0x0304,
        message_size: 0x05060708,
        flags: 0x090a0b0c,
        error: 0x0d0e0f10,
    }
}

#[test]
fn little_endian_integers() {
    let mut buf = Vec::new();
    push_u16(&mut buf, 0xbeef);
    push_u32(&mut buf, 0x12345678);
    push_u64(&mut buf, 0x0102030405060708);
    assert_eq!(
        buf,
        vec![0xef, 0xbe, 0x78, 0x56, 0x34, 0x12, 8, 7, 6, 5, 4, 3, 2, 1]
    );
    assert_eq!(read_u16(&buf, 0), 0xbeef);
    assert_eq!(read_u32(&buf, 2), 0x12345678);
    assert_eq!(read_u64(&buf, 6), 0x0102030405060708);
    assert_eq!(read_u16(&buf, 1), 0x78be);
}

#[test]
fn header_layout() {
    let bytes = header().to_bytes();
    assert_eq!(
        bytes,
        vec![2, 1, 4, 3, 8, 7, 6, 5, 0x0c, 0x0b, 0x0a, 9, 0x10, 0x0f, 0x0e, 0x0d]
    );
    assert_eq!(Header::from_bytes(&bytes), Some(header()));
    assert_eq!(Header::from_bytes(&bytes[..15]), None);
    let mut longer = bytes.clone();
    longer.push(0);
    assert_eq!(Header::from_bytes(&longer), None);
}

#[test]
fn header_from_arbitrary_bytes_writes_back() {
    let bytes: Vec<u8> = (0u8..16).map(|b| b.wrapping_mul(37)).collect();
    let h = Header::from_bytes(&bytes).unwrap();
    assert_eq!(h.to_bytes(), bytes);
}

#[test]
fn message_sizes() {
    assert_eq!(HEADER_SIZE, 16);
    assert_eq!(VERSION_SIZE, 20);
    assert_eq!(DMA_MAP_SIZE, 48);
    assert_eq!(DMA_UNMAP_SIZE, 40);
    assert_eq!(DEVICE_GET_INFO_SIZE, 32);
    assert_eq!(DEVICE_GET_REGION_INFO_SIZE, 48);
    assert_eq!(REGION_ACCESS_SIZE, 32);
    assert_eq!(GET_IRQ_INFO_SIZE, 32);
    assert_eq!(SET_IRQS_SIZE, 36);
    assert_eq!(DEVICE_RESET_SIZE, 16);
    assert_eq!(VFIO_REGION_INFO_SIZE, 32);
}

#[test]
fn messages_roundtrip() {
    let h = header();
    let v = Version { header: h, major: 7, minor: 9 };
    assert_eq!(v.to_bytes().len(), VERSION_SIZE);
    assert_eq!(Version::from_bytes(&v.to_bytes()), Some(v));
    assert_eq!(&v.to_bytes()[16..], &[7, 0, 9, 0]);

    let m = DmaMap { header: h, argsz: 32, flags: 3, offset: 1, address: 2, size: 3 };
    assert_eq!(DmaMap::from_bytes(&m.to_bytes()), Some(m));
    assert_eq!(&m.to_bytes()[16..24], &[32, 0, 0, 0, 3, 0, 0, 0]);
    assert_eq!(&m.to_bytes()[24..32], &[1, 0, 0, 0, 0, 0, 0, 0]);

    let u = DmaUnmap { header: h, argsz: 24, flags: 6, address: 0x1000, size: 0x2000 };
    assert_eq!(DmaUnmap::from_bytes(&u.to_bytes()), Some(u));

    let i = DeviceGetInfo { header: h, argsz: 16, flags: 3, num_regions: 9, num_irqs: 5 };
    assert_eq!(DeviceGetInfo::from_bytes(&i.to_bytes()), Some(i));

    let info = vfio_region_info {
        argsz: 32,
        flags: 7,
        index: 2,
        cap_offset: 0,
        size: 0x1_0000_0000,
        offset: 0x4000,
    };
    let r = DeviceGetRegionInfo { header: h, region_info: info };
    assert_eq!(r.to_bytes().len(), DEVICE_GET_REGION_INFO_SIZE);
    assert_eq!(DeviceGetRegionInfo::from_bytes(&r.to_bytes()), Some(r));
    assert_eq!(vfio_region_info::from_bytes(&r.to_bytes()[16..]), Some(info));

    let a = RegionAccess { header: h, offset: 0x10, region: 3, count: 4 };
    assert_eq!(RegionAccess::from_bytes(&a.to_bytes()), Some(a));
    assert_eq!(&a.to_bytes()[24..], &[3, 0, 0, 0, 4, 0, 0, 0]);

    let g = GetIrqInfo { header: h, argsz: 16, flags: 1, index: 2, count: 3 };
    assert_eq!(GetIrqInfo::from_bytes(&g.to_bytes()), Some(g));

    let s = SetIrqs { header: h, argsz: 20, flags: 36, index: 2, start: 0, count: 1 };
    assert_eq!(SetIrqs::from_bytes(&s.to_bytes()), Some(s));
    assert_eq!(s.to_bytes().len(), SET_IRQS_SIZE);

    let d = DeviceReset { header: h };
    assert_eq!(DeviceReset::from_bytes(&d.to_bytes()), Some(d));

    let mc = MigrationCapabilities { pgsize: 4096 };
    assert_eq!(mc.to_bytes(), vec![0, 0x10, 0, 0]);
    assert_eq!(MigrationCapabilities::from_bytes(&mc.to_bytes()), Some(mc));
}

#[test]
fn commands_and_numbers() {
    for v in 0u16..=14 {
        let c = Command::try_from(v).unwrap();
        assert_eq!(u16::from(c), v);
    }
    assert_eq!(Command::try_from(1), Ok(Command::Version));
    assert_eq!(Command::try_from(13), Ok(Command::DeviceReset));
    assert_eq!(Command::try_from(15), Err(15));
    assert_eq!(Command::try_from(0xffff), Err(0xffff));
    assert_eq!(u16::from(Command::UserDirtyPages), 14);
    assert_eq!(Command::default(), Command::Unknown);
}

#[test]
fn header_flag_bits() {
    assert_eq!(u32::from(HeaderFlags::Command), 0);
    assert_eq!(u32::from(HeaderFlags::Reply), 1);
    assert_eq!(u32::from(HeaderFlags::NoReply), 0x10);
    assert_eq!(u32::from(HeaderFlags::Error), 0x20);
    assert_eq!(HeaderFlags::default(), HeaderFlags::Command);
}

#[test]
fn dma_flags_keep_every_bit() {
    assert_eq!(DmaMapFlags::read_write().bits(), 3);
    assert_eq!(DmaMapFlags::read().bits(), 1);
    assert_eq!(DmaMapFlags::write().bits(), 2);
    let f = DmaMapFlags::from_bits_truncate(0xffff_fff1);
    assert_eq!(f.bits(), 0xffff_fff1);
    assert!(f.contains(DmaMapFlags::read()));
    assert!(!f.contains(DmaMapFlags::write()));
    let u = DmaUnmapFlags::from_bits_truncate(0x8000_0004);
    assert_eq!(u.bits(), 0x8000_0004);
    assert!(u.contains(DmaUnmapFlags::unmap_all()));
    assert!(!u.contains(DmaUnmapFlags::get_dirty_page_info()));
    assert_eq!(DmaUnmapFlags::get_dirty_page_info().bits(), 2);
}

#[test]
fn incomplete_array_field() {
    let empty: IncompleteArrayField<u32> = IncompleteArrayField::new();
    assert_eq!(empty.as_ptr().len(), 0);
    let mut a = IncompleteArrayField::from_vec(vec![1u32, 2, 3]);
    assert_eq!(a.as_ptr(), &[1, 2, 3]);
    assert_eq!(a.as_slice(2), &[1, 2]);
    a.as_mut_slice(1)[0] = 9;
    assert_eq!(a.as_ptr(), &[9, 2, 3]);
    a.as_mut_ptr()[2] = 8;
    assert_eq!(a.as_slice(3), &[9, 2, 8]);
    assert_eq!(a.debug_text(), "__IncompleteArrayField");
    assert_eq!(empty.debug_text(), "__IncompleteArrayField");
}

#[test]
fn sparse_mmap_capability_reads_its_areas() {
    let mut buf = vec![0xaau8; 4];
    let cap_header = vfio_info_cap_header { id: 1, version: 1, next: 0 };
    cap_header.write_to(&mut buf);
    push_u32(&mut buf, 2);
    push_u32(&mut buf, 0);
    vfio_region_sparse_mmap_area { offset: 0x1000, size: 0x100 }.write_to(&mut buf);
    vfio_region_sparse_mmap_area { offset: 0x3000, size: 0x200 }.write_to(&mut buf);
    let cap = vfio_region_info_cap_sparse_mmap::read_from(&buf, 4);
    assert_eq!(cap.header, cap_header);
    assert_eq!(cap.nr_areas, 2);
    assert_eq!(
        cap.areas.as_slice(2),
        &[
            vfio_region_sparse_mmap_area { offset: 0x1000, size: 0x100 },
            vfio_region_sparse_mmap_area { offset: 0x3000, size: 0x200 },
        ]
    );
}
