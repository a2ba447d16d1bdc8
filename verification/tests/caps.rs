use vfio_user::bindings::{
    vfio_info_cap_header, vfio_region_info, vfio_region_sparse_mmap_area,
    VFIO_REGION_INFO_CAP_SPARSE_MMAP, VFIO_REGION_INFO_CAP_TYPE,
};
use vfio_user::caps::{caps_walk_ends_within, parse_region_caps, region_caps_end};
use vfio_user::le::push_u32;

fn area(offset: u64, size: u64) -> vfio_region_sparse_mmap_area {
    vfio_region_sparse_mmap_area { offset, size }
}

/// Appends a sparse mmap capability with `areas`, pointing at `next`.
fn push_sparse(buf: &mut Vec<u8>, next: u32, areas: &[vfio_region_sparse_mmap_area]) {
    vfio_info_cap_header { id: VFIO_REGION_INFO_CAP_SPARSE_MMAP as u16, version: 1, next }
        .write_to(buf);
    push_u32(buf, areas.len() as u32);
    push_u32(buf, 0);
    for a in areas {
        a.write_to(buf);
    }
}

fn info_at(cap_offset: u32) -> vfio_region_info {
    vfio_region_info { argsz: 0, flags: 0, index: 0, cap_offset, size: 0, offset: 0 }
}

#[test]
fn no_capabilities() {
    let data = vec![1u8, 2, 3];
    assert!(region_caps_end(&data, 0));
    assert_eq!(parse_region_caps(&data, &info_at(0)).unwrap(), vec![]);
}

#[test]
fn chain_of_two_capabilities() {
    // A type capability at offset 32 (the start of the data) leads to a
    // sparse mmap capability right after it.
    let mut data = Vec::new();
    vfio_info_cap_header { id: VFIO_REGION_INFO_CAP_TYPE as u16, version: 1, next: 48 }
        .write_to(&mut data);
    push_u32(&mut data, 1);
    push_u32(&mut data, 2);
    assert_eq!(data.len(), 16);
    push_sparse(&mut data, 0, &[area(0, 0x1000), area(0x2000, 0x1000)]);
    assert!(region_caps_end(&data, 32));
    assert_eq!(
        parse_region_caps(&data, &info_at(32)).unwrap(),
        vec![area(0, 0x1000), area(0x2000, 0x1000)]
    );
}

#[test]
fn chain_stops_at_a_capability_that_does_not_fit() {
    let mut data = Vec::new();
    // The first capability points past the end of the data.
    push_sparse(&mut data, 1000, &[area(5, 6)]);
    assert!(region_caps_end(&data, 32));
    assert_eq!(parse_region_caps(&data, &info_at(32)).unwrap(), vec![area(5, 6)]);

    // A sparse capability that announces more areas than the data holds.
    let mut short = Vec::new();
    push_sparse(&mut short, 0, &[area(1, 2)]);
    short[8] = 3;
    assert!(region_caps_end(&short, 32));
    assert_eq!(parse_region_caps(&short, &info_at(32)).unwrap(), vec![]);

    // A sparse capability whose fixed part does not fit.
    let short_header: Vec<u8> = short[..12].to_vec();
    assert!(region_caps_end(&short_header, 32));
    assert_eq!(parse_region_caps(&short_header, &info_at(32)).unwrap(), vec![]);
}

#[test]
fn chains_that_do_not_end() {
    // A capability that points at itself.
    let mut data = Vec::new();
    push_sparse(&mut data, 32, &[area(1, 1)]);
    assert!(!region_caps_end(&data, 32));
    assert!(!caps_walk_ends_within(&data, 32, 1000));

    // An offset inside the region description itself.
    assert!(!region_caps_end(&data, 8));

    // An area count whose byte size overflows 32 bits.
    let mut huge = Vec::new();
    push_sparse(&mut huge, 0, &[]);
    huge[8..12].copy_from_slice(&0x1000_0000u32.to_le_bytes());
    assert!(!region_caps_end(&huge, 32));
}

#[test]
fn walk_within_fuel() {
    let mut data = Vec::new();
    vfio_info_cap_header { id: 2, version: 1, next: 40 }.write_to(&mut data);
    vfio_info_cap_header { id: 2, version: 1, next: 0 }.write_to(&mut data);
    assert!(caps_walk_ends_within(&data, 32, 3));
    assert!(!caps_walk_ends_within(&data, 32, 2));
    assert!(!caps_walk_ends_within(&data, 32, 0));
    assert!(caps_walk_ends_within(&data, 0, 1));
    assert_eq!(parse_region_caps(&data, &info_at(32)).unwrap(), vec![]);
}
