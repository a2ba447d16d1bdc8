use vfio_user::bindings::{
    vfio_region_info, vfio_region_sparse_mmap_area, VFIO_DEVICE_FLAGS_PCI,
    VFIO_DEVICE_FLAGS_RESET,
};
use vfio_user::client::{region_caps_size, version_data_len, version_json, Client, Region};
use vfio_user::error::ProtocolError;
use vfio_user::proto::{DeviceGetInfo, DeviceGetRegionInfo, GetIrqInfo, Header, Version};
use vfio_user::server::IrqInfo;

fn client() -> Client<u32> {
    Client::new()
}

#[test]
fn request_ids_count_up() {
    let mut c = client();
    let a = c.dma_map_request(0x10, 0x2000, 0x3000);
    let b = c.dma_unmap_request(0x2000, 0x3000);
    let r = c.reset_request();
    assert_eq!(a.header.message_id, 0);
    assert_eq!(b.header.message_id, 1);
    assert_eq!(r.header.message_id, 2);
    assert_eq!(c.get_irq_info_request(1).header.message_id, 3);
}

#[test]
fn request_ids_wrap_around() {
    let mut c = client();
    for _ in 0..65535u32 {
        c.reset_request();
    }
    assert_eq!(c.reset_request().header.message_id, 0xffff);
    assert_eq!(c.reset_request().header.message_id, 0);
}

#[test]
fn dma_map_request_fields() {
    let mut c = client();
    let m = c.dma_map_request(0x10, 0x2000, 0x3000);
    assert_eq!(m.header.command, 2);
    assert_eq!(m.header.flags, 0);
    assert_eq!(m.header.message_size, 48);
    assert_eq!(m.header.error, 0);
    assert_eq!(m.argsz, 32);
    assert_eq!(m.flags, 3);
    assert_eq!((m.offset, m.address, m.size), (0x10, 0x2000, 0x3000));
}

#[test]
fn other_request_fields() {
    let mut c = client();
    let u = c.dma_unmap_request(1, 2);
    assert_eq!((u.header.command, u.header.message_size, u.argsz, u.flags), (3, 40, 24, 0));
    let r = c.reset_request();
    assert_eq!((r.header.command, r.header.message_size), (13, 16));
    let i = c.device_info_request();
    assert_eq!((i.header.command, i.header.message_size, i.argsz), (4, 32, 16));
    let g = c.region_info_request(7);
    assert_eq!((g.header.command, g.header.message_size), (5, 48));
    assert_eq!((g.region_info.argsz, g.region_info.index), (32, 7));
    let rr = c.region_read_request(2, 0x40, 8);
    assert_eq!((rr.header.command, rr.header.message_size, rr.count), (9, 32, 8));
    let rw = c.region_write_request(2, 0x40, 8);
    assert_eq!((rw.header.command, rw.header.message_size, rw.count), (10, 40, 8));
    let q = c.get_irq_info_request(4);
    assert_eq!((q.header.command, q.header.message_size, q.argsz, q.index), (7, 32, 16, 4));
    let s = c.set_irqs_request(1, 0x24, 0, 2);
    assert_eq!((s.header.command, s.header.message_size, s.argsz), (8, 36, 20));
    assert_eq!((s.index, s.flags, s.start, s.count), (1, 0x24, 0, 2));
}

#[test]
fn version_request_bytes() {
    let mut c = client();
    let json = b"{\"a\":1}";
    let msg = c.version_request(json);
    assert_eq!(msg.len(), 20 + json.len() + 1);
    let v = Version::from_bytes(&msg[..20]).unwrap();
    assert_eq!(v.header.message_id, 0);
    assert_eq!(v.header.command, 1);
    assert_eq!(v.header.message_size as usize, msg.len());
    assert_eq!((v.major, v.minor), (0, 1));
    assert_eq!(&msg[20..27], json);
    assert_eq!(msg[27], 0);
}

#[test]
fn version_reply_framing() {
    let reply = Version {
        header: Header { message_size: 30, ..Default::default() },
        major: 0,
        minor: 0,
    };
    assert_eq!(version_data_len(&reply), Some(10));
    let short = Version { header: Header { message_size: 19, ..Default::default() }, ..reply };
    assert_eq!(version_data_len(&short), None);
    assert_eq!(version_json(b"{}\0"), Some(&b"{}"[..]));
    assert_eq!(version_json(b""), None);
}

#[test]
fn client_device_info_reply() {
    let mut c = client();
    let reply = DeviceGetInfo {
        header: Header::default(),
        argsz: 16,
        flags: VFIO_DEVICE_FLAGS_PCI,
        num_regions: 9,
        num_irqs: 5,
    };
    assert_eq!(c.on_device_info(&reply).unwrap(), 9);
    // The reset flag is clear, and the client takes the device for resettable.
    assert!(c.resettable());

    let mut c = client();
    let reply = DeviceGetInfo { flags: VFIO_DEVICE_FLAGS_PCI | VFIO_DEVICE_FLAGS_RESET, ..reply };
    assert_eq!(c.on_device_info(&reply).unwrap(), 9);
    assert!(!c.resettable());

    let mut c = client();
    let reply = DeviceGetInfo { flags: VFIO_DEVICE_FLAGS_RESET, ..reply };
    assert!(matches!(c.on_device_info(&reply), Err(ProtocolError::NotPciDevice)));
    assert!(!c.resettable());
}

#[test]
fn region_caps_second_request() {
    let mut c = client();
    let request = c.region_info_request(3);
    let reply = DeviceGetRegionInfo {
        header: Header::default(),
        region_info: vfio_region_info { argsz: 32, ..Default::default() },
    };
    assert_eq!(c.region_caps_request(&request, &reply), None);
    assert_eq!(c.reset_request().header.message_id, 1);

    let reply = DeviceGetRegionInfo {
        region_info: vfio_region_info { argsz: 64, ..Default::default() },
        ..reply
    };
    let again = c.region_caps_request(&request, &reply).unwrap();
    assert_eq!(again.header, request.header);
    assert_eq!(again.region_info.argsz, 64);
    assert_eq!(again.region_info.index, 3);
    // The second request takes up an id of its own.
    assert_eq!(c.reset_request().header.message_id, 3);
}

#[test]
fn region_caps_sizes() {
    let reply = |argsz: u32, message_size: u32| DeviceGetRegionInfo {
        header: Header { message_size, ..Default::default() },
        region_info: vfio_region_info { argsz, ..Default::default() },
    };
    assert_eq!(region_caps_size(&reply(64, 80)), Some(32));
    assert_eq!(region_caps_size(&reply(32, 48)), Some(0));
    assert_eq!(region_caps_size(&reply(64, 81)), None);
    assert_eq!(region_caps_size(&reply(31, 47)), None);
    assert_eq!(region_caps_size(&reply(40, 40)), None);
}

#[test]
fn region_lookup() {
    let mut c = client();
    let info = |index: u32, size: u64| vfio_region_info { index, size, offset: 0x100, ..Default::default() };
    let area = vfio_region_sparse_mmap_area { offset: 1, size: 2 };
    c.set_regions(vec![
        Region::from_info(&info(0, 10), None, vec![]),
        Region::from_info(&info(4, 20), Some(77u32), vec![area]),
        Region::from_info(&info(4, 30), None, vec![]),
    ]);
    let r = c.region(4).unwrap();
    assert_eq!(r.size, 20);
    assert_eq!(r.file_offset, Some((77, 0x100)));
    assert_eq!(r.sparse_areas, vec![area]);
    assert_eq!(c.region(0).unwrap().size, 10);
    assert!(c.region(5).is_none());
}

#[test]
fn irq_info_from_reply() {
    let reply = GetIrqInfo { header: Header::default(), argsz: 16, flags: 7, index: 2, count: 9 };
    assert_eq!(vfio_user::client::irq_info(&reply), IrqInfo { index: 2, flags: 7, count: 9 });
}
