//! The chain of region capabilities that follows a region description, and
//! the sparse mmap areas that it announces.

use vstd::prelude::*;

use crate::bindings::{
    areas_at, vfio_info_cap_header, vfio_region_info, vfio_region_info_cap_sparse_mmap,
    vfio_region_sparse_mmap_area, VFIO_INFO_CAP_HEADER_SIZE, VFIO_REGION_INFO_CAP_SPARSE_MMAP,
    VFIO_REGION_INFO_CAP_SPARSE_MMAP_SIZE, VFIO_REGION_INFO_SIZE,
    VFIO_REGION_SPARSE_MMAP_AREA_SIZE,
};
use crate::error::ProtocolError;
use crate::le::{
    lemma_u16_le, lemma_u32_le, lemma_u64_in, lemma_u64_le, read_u32, u16_at, u16_le, u32_at,
    u32_le, u64_le,
};

verus! {

/// The size of the capability data, as the 32-bit count that the walk
/// compares offsets with.
pub open spec fn caps_size(data: Seq<u8>) -> int {
    (data.len() as u32) as int
}

/// Where in the capability data the capability at `off` starts: the
/// offsets of the chain count from the start of the region description.
pub open spec fn cap_start(off: u32) -> int {
    off - VFIO_REGION_INFO_SIZE
}

/// The capability at `off` is a sparse mmap capability.
pub open spec fn cap_is_sparse(data: Seq<u8>, off: u32) -> bool {
    u16_at(data, cap_start(off)) as u32 == VFIO_REGION_INFO_CAP_SPARSE_MMAP
}

/// The number of areas that the sparse mmap capability at `off` announces.
pub open spec fn cap_nr_areas(data: Seq<u8>, off: u32) -> u32 {
    u32_at(data, cap_start(off) + 8)
}

/// The capability at `off` makes the walk fail: an offset that points into
/// the region description itself, or an area count whose byte size does not
/// fit in 32 bits.
pub open spec fn cap_faults(data: Seq<u8>, off: u32) -> bool {
    off != 0 && (off < VFIO_REGION_INFO_SIZE || (cap_start(off) + VFIO_INFO_CAP_HEADER_SIZE
        <= caps_size(data) && cap_is_sparse(data, off) && cap_start(off)
        + VFIO_REGION_INFO_CAP_SPARSE_MMAP_SIZE <= caps_size(data) && cap_start(off)
        + VFIO_REGION_INFO_CAP_SPARSE_MMAP_SIZE + VFIO_REGION_SPARSE_MMAP_AREA_SIZE * cap_nr_areas(
        data,
        off,
    ) > u32::MAX))
}

/// The capability at `off` does not fit in the data, and the walk ends
/// there.
pub open spec fn cap_stops(data: Seq<u8>, off: u32) -> bool {
    cap_start(off) + VFIO_INFO_CAP_HEADER_SIZE > caps_size(data) || (cap_is_sparse(data, off) && (
    cap_start(off) + VFIO_REGION_INFO_CAP_SPARSE_MMAP_SIZE > caps_size(data) || cap_start(off)
        + VFIO_REGION_INFO_CAP_SPARSE_MMAP_SIZE + VFIO_REGION_SPARSE_MMAP_AREA_SIZE * cap_nr_areas(
        data,
        off,
    ) > caps_size(data)))
}

/// The areas that the capability at `off` contributes: those of a sparse
/// mmap capability, none for any other kind.
pub open spec fn cap_areas(data: Seq<u8>, off: u32) -> Seq<vfio_region_sparse_mmap_area> {
    if cap_is_sparse(data, off) {
        areas_at(
            data,
            cap_start(off) + VFIO_REGION_INFO_CAP_SPARSE_MMAP_SIZE,
            cap_nr_areas(data, off) as nat,
        )
    } else {
        Seq::empty()
    }
}

/// The offset of the capability that follows the one at `off`.
pub open spec fn cap_next(data: Seq<u8>, off: u32) -> u32 {
    u32_at(data, cap_start(off) + 4)
}

/// The areas collected by walking the chain from `off` for at most `fuel`
/// capabilities; `None` when the walk fails or does not end within `fuel`.
pub open spec fn caps_walk(data: Seq<u8>, off: u32, fuel: nat) -> Option<
    Seq<vfio_region_sparse_mmap_area>,
>
    decreases fuel,
{
    if fuel == 0 {
        None
    } else if off == 0 {
        Some(Seq::empty())
    } else if cap_faults(data, off) {
        None
    } else if cap_stops(data, off) {
        Some(Seq::empty())
    } else {
        match caps_walk(data, cap_next(data, off), (fuel - 1) as nat) {
            Some(rest) => Some(cap_areas(data, off) + rest),
            None => None,
        }
    }
}

/// The walk of the chain from `off` ends.
pub open spec fn caps_walk_ends(data: Seq<u8>, off: u32) -> bool {
    exists|fuel: nat| #[trigger] caps_walk(data, off, fuel) is Some
}

/// The areas that the chain from `off` announces, in the order of the
/// chain.
pub open spec fn region_caps(data: Seq<u8>, off: u32) -> Seq<vfio_region_sparse_mmap_area> {
    caps_walk(data, off, choose|fuel: nat| #[trigger] caps_walk(data, off, fuel) is Some).unwrap()
}

/// Once the walk ends, more fuel changes nothing.
pub proof fn lemma_caps_walk_fuel(data: Seq<u8>, off: u32, f: nat, g: nat)
    requires
        caps_walk(data, off, f) is Some,
        f <= g,
    ensures
        caps_walk(data, off, g) == caps_walk(data, off, f),
    decreases f,
{
    if off != 0 && !cap_faults(data, off) && !cap_stops(data, off) {
        lemma_caps_walk_fuel(data, cap_next(data, off), (f - 1) as nat, (g - 1) as nat);
    }
}

/// Any fuel with which the walk ends gives the areas of the chain.
pub proof fn lemma_region_caps(data: Seq<u8>, off: u32, f: nat)
    requires
        caps_walk(data, off, f) is Some,
    ensures
        caps_walk(data, off, f) == Some(region_caps(data, off)),
{
    let c = choose|fuel: nat| #[trigger] caps_walk(data, off, fuel) is Some;
    if c <= f {
        lemma_caps_walk_fuel(data, off, c, f);
    } else {
        lemma_caps_walk_fuel(data, off, f, c);
    }
}

/// Collects the sparse mmap areas that the capability chain of a region
/// announces. `cap_data` holds the capabilities, which follow the region
/// description `region_info` on the wire; the chain starts at
/// `region_info.cap_offset` and ends at offset 0 or at a capability that
/// does not fit in `cap_data`. Capabilities of other kinds are passed over.
pub fn parse_region_caps(cap_data: &[u8], region_info: &vfio_region_info) -> (r: Result<
    Vec<vfio_region_sparse_mmap_area>,
    ProtocolError,
>)
    requires
        caps_walk_ends(cap_data@, region_info.cap_offset),
    ensures
        match r {
            Ok(areas) => areas@ == region_caps(cap_data@, region_info.cap_offset),
            Err(_) => false,
        },
{
    let mut sparse_areas: Vec<vfio_region_sparse_mmap_area> = Vec::new();
    let cap_size: u32 = cap_data.len() as u32;
    let cap_header_size: u32 = 8;
    let mmap_cap_size: u32 = 16;
    let mmap_area_size: u32 = 16;
    let mut region_info_offset = region_info.cap_offset;
    let ghost start = region_info_offset;
    let ghost mut fuel: nat = choose|fuel: nat| #[trigger] caps_walk(cap_data@, start, fuel) is Some;
    proof {
        lemma_region_caps(cap_data@, start, fuel);
        let n = cap_data.len();
        assert((n as u32) <= n) by (bit_vector);
    }
    while region_info_offset != 0
        invariant
            caps_walk(cap_data@, region_info_offset, fuel) is Some,
            region_caps(cap_data@, start) == sparse_areas@ + caps_walk(
                cap_data@,
                region_info_offset,
                fuel,
            ).unwrap(),
            cap_size as int == caps_size(cap_data@),
            cap_size <= cap_data.len(),
            cap_header_size == 8,
            mmap_cap_size == 16,
            mmap_area_size == 16,
        ensures
            region_caps(cap_data@, start) == sparse_areas@,
        decreases fuel,
    {
        let cap_offset = region_info_offset - 32;
        if cap_offset + cap_header_size > cap_size {
            assert(sparse_areas@ + Seq::<vfio_region_sparse_mmap_area>::empty() =~= sparse_areas@);
            break;
        }
        let cap_header = vfio_info_cap_header::read_from(cap_data, cap_offset as usize);
        assert(cap_data@.subrange(cap_offset as int, cap_offset + VFIO_INFO_CAP_HEADER_SIZE)
            =~= cap_data@.subrange(cap_offset as int, cap_offset + 8));
        if cap_header.id as u32 == VFIO_REGION_INFO_CAP_SPARSE_MMAP {
            if cap_offset + mmap_cap_size > cap_size {
                assert(sparse_areas@ + Seq::<vfio_region_sparse_mmap_area>::empty()
                    =~= sparse_areas@);
                break;
            }
            let area_num = read_u32(cap_data, cap_offset as usize + 8);
            if cap_offset + mmap_cap_size + area_num * mmap_area_size > cap_size {
                assert(sparse_areas@ + Seq::<vfio_region_sparse_mmap_area>::empty()
                    =~= sparse_areas@);
                break;
            }
            let sparse_mmap = vfio_region_info_cap_sparse_mmap::read_from(
                cap_data,
                cap_offset as usize,
            );
            let areas = sparse_mmap.areas.as_slice(sparse_mmap.nr_areas as usize);
            let ghost before = sparse_areas@;
            let mut i: usize = 0;
            while i < areas.len()
                invariant
                    i <= areas@.len(),
                    sparse_areas@ == before + areas@.take(i as int),
                decreases areas@.len() - i,
            {
                sparse_areas.push(areas[i]);
                i = i + 1;
                assert(sparse_areas@ =~= before + areas@.take(i as int));
            }
            assert(areas@.take(areas@.len() as int) =~= areas@);
        }
        region_info_offset = cap_header.next;
        proof {
            fuel = (fuel - 1) as nat;
        }
    }
    Ok(sparse_areas)
}

/// The offsets of the capabilities that the walk from `off` passes and
/// goes on from, in order.
pub open spec fn caps_path(data: Seq<u8>, off: u32, fuel: nat) -> Seq<int>
    decreases fuel,
{
    if fuel == 0 || off == 0 || cap_faults(data, off) || cap_stops(data, off) {
        Seq::empty()
    } else {
        seq![off as int] + caps_path(data, cap_next(data, off), (fuel - 1) as nat)
    }
}

proof fn lemma_caps_path_fuel(data: Seq<u8>, off: u32, f: nat, g: nat)
    requires
        caps_walk(data, off, f) is Some,
        f <= g,
    ensures
        caps_path(data, off, g) == caps_path(data, off, f),
    decreases f,
{
    if off != 0 && !cap_faults(data, off) && !cap_stops(data, off) {
        lemma_caps_path_fuel(data, cap_next(data, off), (f - 1) as nat, (g - 1) as nat);
    }
}

proof fn lemma_caps_path_enough(data: Seq<u8>, off: u32, f: nat)
    requires
        caps_walk(data, off, f) is Some,
    ensures
        caps_walk(data, off, caps_path(data, off, f).len() + 1) is Some,
    decreases f,
{
    if off != 0 && !cap_faults(data, off) && !cap_stops(data, off) {
        lemma_caps_path_enough(data, cap_next(data, off), (f - 1) as nat);
    }
}

proof fn lemma_caps_path_range(data: Seq<u8>, off: u32, f: nat)
    requires
        caps_walk(data, off, f) is Some,
    ensures
        forall|i: int|
            0 <= i < caps_path(data, off, f).len() ==> VFIO_REGION_INFO_SIZE <= #[trigger] caps_path(
                data,
                off,
                f,
            )[i] && caps_path(data, off, f)[i] + VFIO_INFO_CAP_HEADER_SIZE <= caps_size(data)
                + VFIO_REGION_INFO_SIZE,
        caps_path(data, off, f).len() < f,
    decreases f,
{
    if off != 0 && !cap_faults(data, off) && !cap_stops(data, off) {
        let next = cap_next(data, off);
        lemma_caps_path_range(data, next, (f - 1) as nat);
        let p = caps_path(data, off, f);
        let q = caps_path(data, next, (f - 1) as nat);
        assert(p == seq![off as int] + q);
        assert forall|i: int| 0 < i < p.len() implies p[i] == q[i - 1] by {}
    }
}

proof fn lemma_caps_path_suffix(data: Seq<u8>, off: u32, f: nat, i: int)
    requires
        caps_walk(data, off, f) is Some,
        0 <= i < caps_path(data, off, f).len(),
    ensures
        0 <= caps_path(data, off, f)[i] <= u32::MAX,
        caps_walk(data, caps_path(data, off, f)[i] as u32, (f - i) as nat) is Some,
        caps_path(data, caps_path(data, off, f)[i] as u32, (f - i) as nat) == caps_path(
            data,
            off,
            f,
        ).subrange(i, caps_path(data, off, f).len() as int),
    decreases i,
{
    let p = caps_path(data, off, f);
    if i == 0 {
        assert(p.subrange(0, p.len() as int) =~= p);
    } else {
        let next = cap_next(data, off);
        let q = caps_path(data, next, (f - 1) as nat);
        assert(p == seq![off as int] + q);
        lemma_caps_path_suffix(data, next, (f - 1) as nat, i - 1);
        assert(p[i] == q[i - 1]);
        assert(p.subrange(i, p.len() as int) =~= q.subrange(i - 1, q.len() as int));
    }
}

proof fn lemma_caps_path_unique(data: Seq<u8>, off: u32, f: nat)
    requires
        caps_walk(data, off, f) is Some,
    ensures
        caps_path(data, off, f).no_duplicates(),
{
    let p = caps_path(data, off, f);
    assert forall|i: int, j: int| 0 <= i < p.len() && 0 <= j < p.len() && i != j implies p[i]
        != p[j] by {
        if p[i] == p[j] {
            let (a, b) = if i < j {
                (i, j)
            } else {
                (j, i)
            };
            lemma_caps_path_range(data, off, f);
            lemma_caps_path_suffix(data, off, f, a);
            lemma_caps_path_suffix(data, off, f, b);
            let o = p[a] as u32;
            lemma_caps_path_fuel(data, o, (f - b) as nat, (f - a) as nat);
            assert(p.subrange(a, p.len() as int).len() == p.subrange(b, p.len() as int).len());
        }
    }
}

/// A chain whose walk ends passes at most one capability for every eight
/// bytes of data, so it ends within `caps_size + 2` steps.
pub proof fn lemma_caps_walk_bound(data: Seq<u8>, off: u32, f: nat)
    requires
        caps_walk(data, off, f) is Some,
    ensures
        caps_walk(data, off, (caps_size(data) + 2) as nat) is Some,
{
    let p = caps_path(data, off, f);
    lemma_caps_path_range(data, off, f);
    lemma_caps_path_unique(data, off, f);
    lemma_caps_path_enough(data, off, f);
    if p.len() > 0 {
        assert(VFIO_REGION_INFO_SIZE <= p[0]);
        let lo = VFIO_REGION_INFO_SIZE as int;
        let hi = caps_size(data) + VFIO_REGION_INFO_SIZE - VFIO_INFO_CAP_HEADER_SIZE + 1;
        vstd::set_lib::lemma_int_range(lo, hi);
        p.unique_seq_to_set();
        assert(p.to_set().subset_of(vstd::set_lib::set_int_range(lo, hi)));
        vstd::set_lib::lemma_len_subset(p.to_set(), vstd::set_lib::set_int_range(lo, hi));
    }
    lemma_caps_walk_fuel(data, off, p.len() + 1, (caps_size(data) + 2) as nat);
}

/// Whether the walk of the chain from `cap_offset` ends within `fuel`
/// capabilities.
pub fn caps_walk_ends_within(cap_data: &[u8], cap_offset: u32, fuel: u64) -> (r: bool)
    ensures
        r == caps_walk(cap_data@, cap_offset, fuel as nat) is Some,
{
    let cap_size: u64 = (cap_data.len() as u32) as u64;
    let mut off = cap_offset;
    let mut left = fuel;
    proof {
        let n = cap_data.len();
        assert((n as u32) <= n) by (bit_vector);
    }
    loop
        invariant
            cap_size == caps_size(cap_data@),
            cap_size <= cap_data.len(),
            caps_walk(cap_data@, cap_offset, fuel as nat) is Some <==> caps_walk(
                cap_data@,
                off,
                left as nat,
            ) is Some,
        decreases left,
    {
        if left == 0 {
            return false;
        }
        if off == 0 {
            return true;
        }
        if off < 32 {
            return false;
        }
        let start: u64 = (off - 32) as u64;
        if start + 8 > cap_size {
            return true;
        }
        let id = crate::le::read_u16(cap_data, start as usize);
        let next = read_u32(cap_data, start as usize + 4);
        if id as u32 == VFIO_REGION_INFO_CAP_SPARSE_MMAP {
            if start + 16 > cap_size {
                return true;
            }
            let nr = read_u32(cap_data, start as usize + 8) as u64;
            if start + 16 + nr * 16 > 0xffff_ffff {
                return false;
            }
            if start + 16 + nr * 16 > cap_size {
                return true;
            }
        }
        off = next;
        left = left - 1;
    }
}

/// Whether the walk of the capability chain from `cap_offset` ends: what
/// [`parse_region_caps`] needs of its input.
pub fn region_caps_end(cap_data: &[u8], cap_offset: u32) -> (r: bool)
    ensures
        r == caps_walk_ends(cap_data@, cap_offset),
{
    let bound: u64 = (cap_data.len() as u32) as u64 + 2;
    let r = caps_walk_ends_within(cap_data, cap_offset, bound);
    proof {
        if r {
            assert(caps_walk(cap_data@, cap_offset, bound as nat) is Some);
        } else if caps_walk_ends(cap_data@, cap_offset) {
            let f = choose|fuel: nat| #[trigger] caps_walk(cap_data@, cap_offset, fuel) is Some;
            lemma_caps_walk_bound(cap_data@, cap_offset, f);
        }
    }
    r
}

/// The kernel bytes of sparse mmap areas laid one after the other: each area's
/// offset, then its size, both little-endian.
pub open spec fn areas_bytes(a: Seq<vfio_region_sparse_mmap_area>) -> Seq<u8>
    decreases a.len(),
{
    if a.len() == 0 {
        Seq::empty()
    } else {
        areas_bytes(a.drop_last()) + u64_le(a.last().offset) + u64_le(a.last().size)
    }
}

proof fn lemma_areas_bytes(a: Seq<vfio_region_sparse_mmap_area>, k: int)
    requires
        0 <= k < a.len(),
    ensures
        areas_bytes(a).len() == 16 * a.len(),
        areas_bytes(a).subrange(16 * k, 16 * k + 16) == u64_le(a[k].offset) + u64_le(a[k].size),
    decreases a.len(),
{
    lemma_u64_le(a.last().offset);
    lemma_u64_le(a.last().size);
    let p = areas_bytes(a.drop_last());
    if a.len() == 1 {
        assert(a.drop_last().len() == 0);
        assert(areas_bytes(a).subrange(0, 16) =~= u64_le(a[0].offset) + u64_le(a[0].size));
    } else if k < a.len() - 1 {
        lemma_areas_bytes(a.drop_last(), k);
        assert(areas_bytes(a).subrange(16 * k, 16 * k + 16) =~= p.subrange(16 * k, 16 * k + 16));
    } else {
        lemma_areas_bytes(a.drop_last(), 0);
        assert(areas_bytes(a).subrange(16 * k, 16 * k + 16) =~= u64_le(a[k].offset) + u64_le(
            a[k].size,
        ));
    }
}

proof fn lemma_areas_bytes_len(a: Seq<vfio_region_sparse_mmap_area>)
    ensures
        areas_bytes(a).len() == 16 * a.len(),
{
    if a.len() > 0 {
        lemma_areas_bytes(a, 0);
    }
}

/// A region whose capabilities are one sparse mmap capability, laid out as
/// the kernel does (id 1, any version, next 0, the area count, a reserved
/// word, then each area's offset and size), announces exactly those areas,
/// in order: the walk of its chain ends and collects them.
pub proof fn lemma_single_sparse_cap(version: u16, reserved: u32, a: Seq<vfio_region_sparse_mmap_area>)
    requires
        16 + 16 * a.len() <= u32::MAX,
    ensures
        ({
            let data = u16_le(1) + u16_le(version) + u32_le(0) + u32_le(a.len() as u32) + u32_le(
                reserved,
            ) + areas_bytes(a);
            &&& caps_walk_ends(data, 32)
            &&& region_caps(data, 32) == a
        }),
{
    let n = a.len();
    let head = u16_le(1) + u16_le(version) + u32_le(0) + u32_le(n as u32) + u32_le(reserved);
    let data = head + areas_bytes(a);
    lemma_areas_bytes_len(a);
    lemma_u16_le(1);
    lemma_u16_le(version);
    lemma_u32_le(0);
    lemma_u32_le(n as u32);
    lemma_u32_le(reserved);
    assert(head.len() == 16);
    assert(data.len() == 16 + 16 * n);
    assert((data.len() as u32) as int == data.len());
    assert(u16_at(data, 0) == 1);
    assert(u32_at(data, 4) == 0);
    assert(u32_at(data, 8) == n as u32);
    assert(cap_areas(data, 32) =~= a) by {
        assert forall|k: int| 0 <= k < n implies cap_areas(data, 32)[k] == a[k] by {
            lemma_areas_bytes(a, k);
            let x = u64_le(a[k].offset) + u64_le(a[k].size);
            let sub = data.subrange(16 + 16 * k, 16 + 16 * k + 16);
            assert(sub =~= x);
            lemma_u64_in(Seq::empty(), a[k].offset, u64_le(a[k].size));
            assert(Seq::<u8>::empty() + u64_le(a[k].offset) + u64_le(a[k].size) =~= x);
            lemma_u64_in(u64_le(a[k].offset), a[k].size, Seq::empty());
            assert(u64_le(a[k].offset) + u64_le(a[k].size) + Seq::<u8>::empty() =~= x);
        }
    }
    assert(caps_walk(data, 0, 1) == Some(Seq::<vfio_region_sparse_mmap_area>::empty()));
    assert(caps_walk(data, 32, 2) == Some(a + Seq::<vfio_region_sparse_mmap_area>::empty()));
    assert(a + Seq::<vfio_region_sparse_mmap_area>::empty() =~= a);
    lemma_region_caps(data, 32, 2);
}

} // verus!
