//! Page-table engine behavior: round trips, granularity and idempotence.

use hikami::memmap::AddressRange;
use hikami::memmap::GuestPhysicalAddress;
use hikami::memmap::GuestVirtualAddress;
use hikami::memmap::MemoryMap;
use hikami::memmap::PteFlag;
use hikami::page_table::export_page_table;
use hikami::page_table::g_stage_trans_addr;
use hikami::page_table::generate_page_table;
use hikami::page_table::vs_stage_trans_addr;
use hikami::page_table::PageTable;
use hikami::page_table::WalkFault;

fn identity_map(start: u64, end: u64, flags: &[PteFlag]) -> MemoryMap {
    let r = AddressRange { start, end };
    MemoryMap::new(r, r, flags)
}

const RWX: [PteFlag; 7] = [
    PteFlag::Dirty,
    PteFlag::Accessed,
    PteFlag::Exec,
    PteFlag::Write,
    PteFlag::Read,
    PteFlag::User,
    PteFlag::Valid,
];

#[test]
fn round_trip_identity_map() {
    let mut pt = PageTable::new(true);
    let maps = vec![identity_map(0x8000_0000, 0x8020_0000, &RWX)];
    generate_page_table(&mut pt, &maps).unwrap();

    for a in [0x8000_0000u64, 0x8000_1000, 0x8010_0000, 0x801f_f000] {
        let (hpa, flags) = pt.walk(a).unwrap();
        assert_eq!(hpa, a);
        assert_eq!(flags, 0xdf);
    }
    assert_eq!(pt.walk(0x8020_0000), Err(WalkFault::NotMapped));
    assert_eq!(pt.walk(0x7fff_f000), Err(WalkFault::NotMapped));
}

#[test]
fn round_trip_offset_map() {
    let mut pt = PageTable::new(true);
    let virt = AddressRange { start: 0x8000_0000, end: 0x8000_3000 };
    let phys = AddressRange { start: 0x9000_0000, end: 0x9000_3000 };
    let maps = vec![MemoryMap::new(virt, phys, &RWX)];
    generate_page_table(&mut pt, &maps).unwrap();

    let (hpa, _) = pt.walk(0x8000_0000).unwrap();
    assert_eq!(hpa, 0x9000_0000);
    let (hpa, _) = pt.walk(0x8000_2123).unwrap();
    assert_eq!(hpa, 0x9000_2123);
}

fn count_entries(pt: &PageTable) -> (usize, usize, usize) {
    // (valid leaves, valid pointers, nodes)
    let mut leaves = 0;
    let mut pointers = 0;
    for node in &pt.nodes {
        for &e in node {
            if e % 2 == 1 {
                if (e / 2) % 8 != 0 {
                    leaves += 1;
                } else {
                    pointers += 1;
                }
            }
        }
    }
    (leaves, pointers, pt.nodes.len())
}

#[test]
fn granularity_one_gib_leaf() {
    let mut pt = PageTable::new(true);
    let maps = vec![identity_map(0x4000_0000, 0x8000_0000, &RWX)];
    generate_page_table(&mut pt, &maps).unwrap();

    let (leaves, pointers, nodes) = count_entries(&pt);
    assert_eq!(leaves, 1);
    assert_eq!(pointers, 0);
    assert_eq!(nodes, 1);
}

#[test]
fn granularity_tail_page() {
    // a 1 GiB region plus one 4 KiB page of tail
    let mut pt = PageTable::new(true);
    let maps = vec![identity_map(0x4000_0000, 0x8000_1000, &RWX)];
    generate_page_table(&mut pt, &maps).unwrap();

    // one level-2 leaf; one pointer chain of two nodes to one level-0 leaf
    let (leaves, pointers, nodes) = count_entries(&pt);
    assert_eq!(leaves, 2);
    assert_eq!(pointers, 2);
    assert_eq!(nodes, 3);

    let (hpa, _) = pt.walk(0x7fff_f000).unwrap();
    assert_eq!(hpa, 0x7fff_f000);
    let (hpa, _) = pt.walk(0x8000_0000).unwrap();
    assert_eq!(hpa, 0x8000_0000);
    assert_eq!(pt.walk(0x8000_1000), Err(WalkFault::NotMapped));
}

#[test]
fn mixed_granularity_chunks() {
    // 2 MiB-aligned region of 2 MiB + 8 KiB: one level-1 leaf, two level-0
    let mut pt = PageTable::new(true);
    let maps = vec![identity_map(0x4020_0000, 0x4040_2000, &RWX)];
    generate_page_table(&mut pt, &maps).unwrap();

    for a in [0x4020_0000u64, 0x403f_f000, 0x4040_0000, 0x4040_1000] {
        let (hpa, _) = pt.walk(a).unwrap();
        assert_eq!(hpa, a);
    }
    assert_eq!(pt.walk(0x4040_2000), Err(WalkFault::NotMapped));
}

#[test]
fn regeneration_is_byte_identical() {
    let mut pt = PageTable::new(true);
    let maps = vec![
        identity_map(0x8000_0000, 0x8020_0000, &RWX),
        identity_map(0x1000_0000, 0x1000_1000, &RWX),
    ];
    generate_page_table(&mut pt, &maps).unwrap();
    let snapshot = pt.nodes.clone();

    generate_page_table(&mut pt, &maps).unwrap();
    assert_eq!(pt.nodes, snapshot);
}

#[test]
fn duplicated_identical_maps_accepted() {
    // the device registry lists some maps twice; identical overlap is fine
    let mut pt = PageTable::new(true);
    let m = identity_map(0x1000_1000, 0x1000_2000, &RWX);
    let maps = vec![m, m];
    generate_page_table(&mut pt, &maps).unwrap();
    let (hpa, _) = pt.walk(0x1000_1000).unwrap();
    assert_eq!(hpa, 0x1000_1000);
}

#[test]
fn sv39_root_is_narrow() {
    let mut pt = PageTable::new(false);
    assert_eq!(pt.nodes[0].len(), 512);
    let maps = vec![identity_map(0x8000_0000, 0x8000_1000, &RWX)];
    generate_page_table(&mut pt, &maps).unwrap();
    let (hpa, _) = pt.walk(0x8000_0000).unwrap();
    assert_eq!(hpa, 0x8000_0000);
}

#[test]
fn staged_walk_entry_points() {
    let mut g_stage = PageTable::new(true);
    let maps = vec![identity_map(0x8000_0000, 0x8020_0000, &RWX)];
    generate_page_table(&mut g_stage, &maps).unwrap();
    let (hpa, _) = g_stage_trans_addr(&g_stage, GuestPhysicalAddress(0x8000_0040)).unwrap();
    assert_eq!(hpa, 0x8000_0040);

    let mut vs_stage = PageTable::new(false);
    generate_page_table(&mut vs_stage, &maps).unwrap();
    let (gpa, _) = vs_stage_trans_addr(&vs_stage, GuestVirtualAddress(0x8000_0040)).unwrap();
    assert_eq!(gpa, 0x8000_0040);
}

#[test]
fn exported_arena_rewrites_pointers() {
    let mut pt = PageTable::new(true);
    let maps = vec![identity_map(0x8000_0000, 0x8000_1000, &RWX)];
    generate_page_table(&mut pt, &maps).unwrap();
    assert_eq!(pt.nodes.len(), 3);

    let base_ppn = 0x80_3c0;
    let words = export_page_table(&pt, base_ppn);
    assert_eq!(words.len(), 2048 + 512 * 2);

    // root: the pointer to arena node 1 now names its real page
    let root_entry = words[2]; // vpn2 of 0x8000_0000
    assert_eq!(root_entry % 1024, 1); // a pointer: valid, no R/W/X
    assert_eq!(root_entry / 1024, base_ppn + 4); // root is four pages wide
    // the level-1 pointer names the next page
    let l1_entry = words[2048];
    assert_eq!(l1_entry / 1024, base_ppn + 5);
    // the leaf passes through untouched
    let l0_entry = words[2048 + 512];
    assert_eq!(l0_entry, (0x8000_0000u64 / 4096) * 1024 + 0xdf);
}
