use vfio_user::bindings::{vfio_region_info, VFIO_IRQ_SET_DATA_BOOL, VFIO_IRQ_SET_DATA_EVENTFD};
use vfio_user::error::ProtocolError;
use vfio_user::proto::{
    Command, DeviceGetInfo, DeviceGetRegionInfo, DmaMap, DmaUnmap, GetIrqInfo, Header,
    RegionAccess, SetIrqs, Version, HEADER_SIZE,
};
use vfio_user::scm::scm_rights_take;
use vfio_user::server::{c_string, Action, BackendRequest, IrqInfo, Server};

fn server(resettable: bool) -> Server {
    let irqs = vec![
        IrqInfo { index: 0, flags: 1, count: 1 },
        IrqInfo { index: 1, flags: 3, count: 8 },
    ];
    let regions = vec![
        vfio_region_info { argsz: 32, flags: 3, index: 0, cap_offset: 0, size: 0x1000, offset: 0 },
        vfio_region_info { argsz: 32, flags: 7, index: 1, cap_offset: 0, size: 0x2000, offset: 0x1000 },
    ];
    Server::new(resettable, irqs, regions)
}

fn request(c: Command, id: u16, size: u32) -> Header {
    Header { message_id: id, command: u16::from(c), message_size: size, flags: 0, error: 0 }
}

fn reply_header(bytes: &[u8]) -> Header {
    Header::from_bytes(&bytes[..HEADER_SIZE]).unwrap()
}

#[test]
fn commands_served() {
    let h = |v: u16| Header { command: v, ..Default::default() };
    assert!(matches!(Server::command(&h(2)), Ok(Command::DmaMap)));
    assert!(matches!(Server::command(&h(13)), Ok(Command::DeviceReset)));
    assert!(matches!(Server::command(&h(0)), Err(ProtocolError::UnsupportedCommand(Command::Unknown))));
    assert!(matches!(Server::command(&h(6)), Err(ProtocolError::UnsupportedCommand(Command::GetRegionIoFds))));
    assert!(matches!(Server::command(&h(11)), Err(ProtocolError::UnsupportedCommand(Command::DmaRead))));
    assert!(matches!(Server::command(&h(12)), Err(ProtocolError::UnsupportedCommand(Command::DmaWrite))));
    assert!(matches!(Server::command(&h(14)), Err(ProtocolError::UnsupportedCommand(Command::UserDirtyPages))));
    assert!(matches!(Server::command(&h(15)), Err(ProtocolError::UnrecognizedCommand(15))));
    assert!(matches!(Server::command(&h(0x1234)), Err(ProtocolError::UnrecognizedCommand(0x1234))));
}

#[test]
fn payload_sizes() {
    assert_eq!(Server::payload_size(Command::Version), 4);
    assert_eq!(Server::payload_size(Command::DmaMap), 32);
    assert_eq!(Server::payload_size(Command::DmaUnmap), 24);
    assert_eq!(Server::payload_size(Command::DeviceGetInfo), 16);
    assert_eq!(Server::payload_size(Command::DeviceGetRegionInfo), 32);
    assert_eq!(Server::payload_size(Command::GetIrqInfo), 16);
    assert_eq!(Server::payload_size(Command::SetIrqs), 20);
    assert_eq!(Server::payload_size(Command::RegionRead), 16);
    assert_eq!(Server::payload_size(Command::RegionWrite), 16);
    assert_eq!(Server::payload_size(Command::DeviceReset), 0);
}

#[test]
fn server_device_info_reply() {
    let s = server(true);
    let h = request(Command::DeviceGetInfo, 42, 32);
    let payload = [0u8; 16];
    let Ok(Action::Reply(bytes)) = s.handle_payload(&h, Command::DeviceGetInfo, &payload, 0) else {
        panic!("expected a reply");
    };
    let reply = DeviceGetInfo::from_bytes(&bytes).unwrap();
    assert_eq!(reply.header, Header { message_id: 42, command: 4, message_size: 32, flags: 1, error: 0 });
    assert_eq!((reply.argsz, reply.flags, reply.num_regions, reply.num_irqs), (16, 3, 2, 2));

    let s = server(false);
    let Ok(Action::Reply(bytes)) = s.handle_payload(&h, Command::DeviceGetInfo, &payload, 0) else {
        panic!("expected a reply");
    };
    assert_eq!(DeviceGetInfo::from_bytes(&bytes).unwrap().flags, 2);
}

#[test]
fn region_info_reply_and_bad_index() {
    let s = server(false);
    let h = request(Command::DeviceGetRegionInfo, 7, 48);
    let ask = |index: u32| {
        let m = DeviceGetRegionInfo { header: h, region_info: vfio_region_info { argsz: 32, index, ..Default::default() } };
        m.to_bytes()[16..].to_vec()
    };
    let Ok(Action::Reply(bytes)) = s.handle_payload(&h, Command::DeviceGetRegionInfo, &ask(1), 0) else {
        panic!("expected a reply");
    };
    let reply = DeviceGetRegionInfo::from_bytes(&bytes).unwrap();
    assert_eq!(reply.header.message_id, 7);
    assert_eq!(reply.header.message_size, 48);
    assert_eq!(reply.region_info.size, 0x2000);
    assert_eq!(reply.region_info.offset, 0x1000);
    assert!(matches!(
        s.handle_payload(&h, Command::DeviceGetRegionInfo, &ask(2), 0),
        Err(ProtocolError::InvalidInput)
    ));
}

#[test]
fn irq_info_reply_and_bad_index() {
    let s = server(false);
    let h = request(Command::GetIrqInfo, 9, 32);
    let ask = |index: u32| {
        GetIrqInfo { header: h, argsz: 16, flags: 0, index, count: 0 }.to_bytes()[16..].to_vec()
    };
    let Ok(Action::Reply(bytes)) = s.handle_payload(&h, Command::GetIrqInfo, &ask(1), 0) else {
        panic!("expected a reply");
    };
    let reply = GetIrqInfo::from_bytes(&bytes).unwrap();
    assert_eq!((reply.argsz, reply.index, reply.flags, reply.count), (16, 1, 3, 8));
    assert_eq!(reply.header.command, 7);
    assert!(matches!(
        s.handle_payload(&h, Command::GetIrqInfo, &ask(2), 0),
        Err(ProtocolError::InvalidInput)
    ));
}

#[test]
fn dma_map_goes_to_backend() {
    let s = server(false);
    let h = request(Command::DmaMap, 3, 48);
    let m = DmaMap { header: h, argsz: 32, flags: 0x8000_0003, offset: 1, address: 2, size: 3 };
    let payload = m.to_bytes()[16..].to_vec();
    match s.handle_payload(&h, Command::DmaMap, &payload, 1) {
        Ok(Action::Backend(BackendRequest::DmaMap { flags, offset, address, size })) => {
            assert_eq!(flags.bits(), 0x8000_0003);
            assert_eq!((offset, address, size), (1, 2, 3));
        }
        other => panic!("unexpected {other:?}"),
    }
    assert!(matches!(s.handle_payload(&h, Command::DmaMap, &payload, 2), Err(ProtocolError::InvalidInput)));
    let reply = Server::backend_reply(&h, Command::DmaMap, &payload, &[]);
    assert_eq!(reply_header(&reply), Header { message_id: 3, command: 2, message_size: 16, flags: 1, error: 0 });
    assert_eq!(reply.len(), 16);
}

#[test]
fn dma_unmap_reply_echoes_the_request() {
    let s = server(false);
    let h = request(Command::DmaUnmap, 4, 40);
    let m = DmaUnmap { header: h, argsz: 24, flags: 4, address: 0x10, size: 0x20 };
    let payload = m.to_bytes()[16..].to_vec();
    match s.handle_payload(&h, Command::DmaUnmap, &payload, 0) {
        Ok(Action::Backend(BackendRequest::DmaUnmap { flags, address, size })) => {
            assert_eq!((flags.bits(), address, size), (4, 0x10, 0x20));
        }
        other => panic!("unexpected {other:?}"),
    }
    let reply = DmaUnmap::from_bytes(&Server::backend_reply(&h, Command::DmaUnmap, &payload, &[])).unwrap();
    assert_eq!(reply.header, Header { message_id: 4, command: 3, message_size: 40, flags: 1, error: 0 });
    assert_eq!((reply.argsz, reply.flags, reply.address, reply.size), (24, 4, 0x10, 0x20));
}

#[test]
fn set_irqs_checks() {
    let s = server(false);
    let h = request(Command::SetIrqs, 5, 36);
    let ask = |index: u32, flags: u32| {
        SetIrqs { header: h, argsz: 20, flags, index, start: 0, count: 1 }.to_bytes()[16..].to_vec()
    };
    match s.handle_payload(&h, Command::SetIrqs, &ask(1, VFIO_IRQ_SET_DATA_EVENTFD), 1) {
        Ok(Action::Backend(BackendRequest::SetIrqs { index, flags, start, count })) => {
            assert_eq!((index, flags, start, count), (1, VFIO_IRQ_SET_DATA_EVENTFD, 0, 1));
        }
        other => panic!("unexpected {other:?}"),
    }
    assert!(matches!(s.handle_payload(&h, Command::SetIrqs, &ask(2, 0), 0), Err(ProtocolError::InvalidInput)));
    assert!(matches!(
        s.handle_payload(&h, Command::SetIrqs, &ask(0, VFIO_IRQ_SET_DATA_BOOL), 0),
        Err(ProtocolError::UnsupportedFeature)
    ));
    let reply = Server::backend_reply(&h, Command::SetIrqs, &ask(1, 0), &[]);
    assert_eq!(reply_header(&reply).command, 8);
    assert_eq!(reply.len(), 16);
}

#[test]
fn region_read_and_write() {
    let s = server(false);
    let h = request(Command::RegionRead, 6, 32);
    let ask = |region: u32| RegionAccess { header: h, offset: 0x8, region, count: 4 }.to_bytes()[16..].to_vec();
    match s.handle_payload(&h, Command::RegionRead, &ask(0), 0) {
        Ok(Action::Backend(BackendRequest::RegionRead { region, offset, count })) => {
            assert_eq!((region, offset, count), (0, 8, 4));
        }
        other => panic!("unexpected {other:?}"),
    }
    assert!(matches!(s.handle_payload(&h, Command::RegionRead, &ask(2), 0), Err(ProtocolError::InvalidInput)));
    let reply = Server::backend_reply(&h, Command::RegionRead, &ask(0), &[9, 8, 7, 6]);
    assert_eq!(reply.len(), 36);
    let head = RegionAccess::from_bytes(&reply[..32]).unwrap();
    assert_eq!(head.header, Header { message_id: 6, command: 9, message_size: 36, flags: 1, error: 0 });
    assert_eq!((head.offset, head.region, head.count), (8, 0, 4));
    assert_eq!(&reply[32..], &[9, 8, 7, 6]);

    let w = request(Command::RegionWrite, 7, 36);
    let payload = RegionAccess { header: w, offset: 0x8, region: 1, count: 4 }.to_bytes()[16..].to_vec();
    let Ok(Action::ReadData(4)) = s.handle_payload(&w, Command::RegionWrite, &payload, 0) else {
        panic!("expected to read the data");
    };
    match s.handle_data(&w, Command::RegionWrite, &payload, &[1, 2, 3, 4]) {
        Action::Backend(BackendRequest::RegionWrite { region, offset, count }) => {
            assert_eq!((region, offset, count), (1, 8, 4));
        }
        other => panic!("unexpected {other:?}"),
    }
    let reply = RegionAccess::from_bytes(&Server::backend_reply(&w, Command::RegionWrite, &payload, &[])).unwrap();
    assert_eq!(reply.header, Header { message_id: 7, command: 10, message_size: 32, flags: 1, error: 0 });
    assert_eq!((reply.offset, reply.region, reply.count), (8, 1, 4));
    let bad = RegionAccess { header: w, offset: 0, region: 9, count: 4 }.to_bytes()[16..].to_vec();
    assert!(matches!(s.handle_payload(&w, Command::RegionWrite, &bad, 0), Err(ProtocolError::InvalidInput)));
}

#[test]
fn reset_goes_to_backend() {
    let s = server(true);
    let h = request(Command::DeviceReset, 8, 16);
    assert!(matches!(s.handle_payload(&h, Command::DeviceReset, &[], 0), Ok(Action::Backend(BackendRequest::Reset))));
    let reply = Server::backend_reply(&h, Command::DeviceReset, &[], &[]);
    assert_eq!(reply_header(&reply), Header { message_id: 8, command: 13, message_size: 16, flags: 1, error: 0 });
}

#[test]
fn version_exchange() {
    let s = server(false);
    let json = b"{\"capabilities\":{}}";
    let h = request(Command::Version, 1, (20 + json.len() + 1) as u32);
    let payload = [0u8, 0, 1, 0];
    let Ok(Action::ReadData(n)) = s.handle_payload(&h, Command::Version, &payload, 0) else {
        panic!("expected to read the capabilities");
    };
    assert_eq!(n, json.len() + 1);
    let mut data = json.to_vec();
    data.push(0);
    assert!(c_string(&data));
    match s.handle_data(&h, Command::Version, &payload, &data) {
        Action::ParseCapabilities(text) => assert_eq!(text, json.to_vec()),
        other => panic!("unexpected {other:?}"),
    }
    let reply = Server::version_reply(&h, b"{}");
    assert_eq!(reply.len(), 23);
    let v = Version::from_bytes(&reply[..20]).unwrap();
    assert_eq!(v.header, Header { message_id: 1, command: 1, message_size: 23, flags: 1, error: 0 });
    assert_eq!((v.major, v.minor), (0, 0));
    assert_eq!(&reply[20..], b"{}\0");
}

#[test]
fn c_strings() {
    assert!(c_string(b"abc\0"));
    assert!(c_string(b"\0"));
    assert!(!c_string(b""));
    assert!(!c_string(b"abc"));
    assert!(!c_string(b"a\0c\0"));
}

#[test]
fn error_replies() {
    let h = request(Command::DmaMap, 11, 48);
    let r = Server::error_reply(&h, &ProtocolError::InvalidInput);
    assert_eq!((r.message_id, r.command, r.flags, r.message_size), (11, 2, 0x21, 16));
    assert_eq!(r.error, libc::EINVAL as u32);
    assert_ne!(r.error, 0);
    let r = Server::error_reply(&h, &ProtocolError::UnsupportedFeature);
    assert_eq!(r.error, 0);
    let r = Server::error_reply_errno(&h, &ProtocolError::InvalidInput, 22);
    assert_eq!(r, Header { message_id: 11, command: 2, message_size: 16, flags: 0x21, error: 22 });
    let r = Server::error_reply_errno(&h, &ProtocolError::NotPciDevice, 22);
    assert_eq!(r.error, 0);
    assert_eq!(r.to_bytes().len(), r.message_size as usize);
    let weird = Header { command: 0x99, ..h };
    let r = Server::error_reply(&weird, &ProtocolError::UnrecognizedCommand(0x99));
    assert_eq!((r.command, r.error), (0x99, 0));
}

#[test]
fn scm_rights_counts() {
    assert_eq!(scm_rights_take(false, 0, 16, 4, 5), Some(0));
    assert_eq!(scm_rights_take(true, 16 + 12, 16, 4, 5), Some(3));
    assert_eq!(scm_rights_take(true, 16 + 40, 16, 4, 5), Some(5));
    assert_eq!(scm_rights_take(true, 16 + 12, 16, 4, 0), None);
    assert_eq!(scm_rights_take(true, 16, 16, 4, 5), None);
    assert_eq!(scm_rights_take(true, 16 + 7, 16, 4, 5), Some(1));
}
