//! Sv39 / Sv39x4 page-table engine.
//!
//! Both formats share a 3-level tree: level 2, 1 and 0 entries cover 1 GiB,
//! 2 MiB and 4 KiB regions.  Sv39x4 differs only at the root, whose vpn[2]
//! field is 11 bits wide, so the root node has 2048 entries instead of 512.
//!
//! A table is held as an arena of nodes.  Node 0 is the root; a non-leaf
//! entry's PPN field holds the arena index of its child node (the arena is
//! allocated as one contiguous block, so the index determines the node's
//! physical page).  A leaf entry's PPN field holds a real host page number.
//!
//! A 64-bit entry is `ppn * 1024 + flags`: bits 9:0 carry the flags
//! (V R W X U G A D and two reserved bits), bits 53:10 the 44-bit PPN.
//! An entry is a leaf iff any of R/W/X (bits 3:1) is set.

use vstd::prelude::*;

use crate::memmap::MemoryMap;

verus! {

/// Page-table level.
///
/// Level 2 maps 1 GiB per entry, level 1 maps 2 MiB, level 0 maps 4 KiB.
#[derive(Clone, Copy, PartialEq, Eq, Structural, Debug)]
pub enum PageTableLevel {
    /// 1 GiB = vpn[1] (9 bit) + vpn[0] (9 bit) + offset (12 bit).
    Lv1GB,
    /// 2 MiB = vpn[0] (9 bit) + offset (12 bit).
    Lv2MB,
    /// 4 KiB = offset (12 bit).
    Lv4KB,
}

impl PageTableLevel {
    /// Size of the region one entry of this level covers.
    pub fn size(self) -> (r: u64)
        ensures
            self == PageTableLevel::Lv1GB ==> r == 0x4000_0000,
            self == PageTableLevel::Lv2MB ==> r == 0x20_0000,
            self == PageTableLevel::Lv4KB ==> r == 0x1000,
    {
        match self {
            Self::Lv1GB => 0x4000_0000,
            Self::Lv2MB => 0x20_0000,
            Self::Lv4KB => 0x1000,
        }
    }
}

/// A single 64-bit page-table entry.
#[derive(Clone, Copy, PartialEq, Eq, Structural, Debug)]
pub struct PageTableEntry(pub u64);

impl PageTableEntry {
    /// Build an entry from a physical page number and a flag byte.
    pub fn new(ppn: u64, flags: u8) -> (r: PageTableEntry)
        requires
            ppn < 0x4000_0000_0000_0000u64 / 1024,
        ensures
            r.0 == ppn * 1024 + flags,
    {
        PageTableEntry(ppn * 1024 + flags as u64)
    }

    /// Whether the entry has already been created (its valid bit is set).
    pub fn already_created(self) -> (r: bool)
        ensures
            r == pte_valid(self.0),
    {
        self.0 % 2 == 1
    }

    /// The physical page number the entry holds.
    pub fn pte(self) -> (r: u64)
        ensures
            r == pte_ppn(self.0),
    {
        self.0 / 1024
    }
}

/// The valid bit (bit 0) of an entry.
pub open spec fn pte_valid(e: u64) -> bool {
    e % 2 == 1
}

/// Whether the entry is a leaf: one of R/W/X (bits 3:1) is set.
pub open spec fn pte_leaf(e: u64) -> bool {
    (e / 2) % 8 != 0
}

/// The PPN field (bits 53:10) of an entry.
pub open spec fn pte_ppn(e: u64) -> u64 {
    e / 1024
}

/// The flag field (bits 9:0) of an entry.
pub open spec fn pte_flags(e: u64) -> u64 {
    e % 1024
}

/// A valid non-leaf entry: it points to the node whose arena index is its PPN.
pub open spec fn pte_pointer(e: u64) -> bool {
    pte_valid(e) && !pte_leaf(e)
}

/// A whole Sv39 or Sv39x4 page table: an arena of nodes rooted at node 0.
pub struct PageTable {
    /// Number of entries of the root node: 512 for Sv39, 2048 for Sv39x4.
    pub root_width: usize,
    /// The arena.  `nodes[0]` is the root; every other node has 512 entries.
    pub nodes: Vec<Vec<u64>>,
}

/// Entry `i` of node `n`.
pub open spec fn ent(pt: PageTable, n: int, i: int) -> u64 {
    pt.nodes@[n]@[i]
}

/// Number of entries of node `n`: the root is `root_width` wide, the rest 512.
pub open spec fn node_width(pt: PageTable, n: int) -> int {
    if n == 0 {
        pt.root_width as int
    } else {
        512
    }
}

impl PageTable {
    /// Well-formedness of the arena.
    ///
    /// Every node has its format's width; every pointer entry targets an
    /// existing node other than the root; and no two pointer entries target
    /// the same node, so the arena is a tree.
    pub open spec fn wf(self) -> bool {
        &&& self.root_width == 512 || self.root_width == 2048
        &&& 1 <= self.nodes@.len() <= 0x10_0000
        &&& forall|n: int|
            0 <= n < self.nodes@.len() ==> (#[trigger] self.nodes@[n])@.len() == node_width(
                self,
                n,
            )
        &&& forall|n: int, i: int|
            0 <= n < self.nodes@.len() && 0 <= i < node_width(self, n) && pte_pointer(
                #[trigger] ent(self, n, i),
            ) ==> 1 <= pte_ppn(ent(self, n, i)) < self.nodes@.len()
        &&& forall|n: int, i: int|
            0 <= n < self.nodes@.len() && 0 <= i < node_width(self, n) && pte_valid(
                #[trigger] ent(self, n, i),
            ) && pte_leaf(ent(self, n, i)) ==> pte_ppn(ent(self, n, i)) < 0x1000_0000_0000
        &&& forall|n1: int, i1: int, n2: int, i2: int|
            0 <= n1 < self.nodes@.len() && 0 <= i1 < node_width(self, n1) && 0 <= n2
                < self.nodes@.len() && 0 <= i2 < node_width(self, n2) && pte_pointer(
                #[trigger] ent(self, n1, i1),
            ) && pte_pointer(#[trigger] ent(self, n2, i2)) && pte_ppn(ent(self, n1, i1)) == pte_ppn(
                ent(self, n2, i2),
            ) ==> n1 == n2 && i1 == i2
    }

    /// Size of the address space the root covers: 2^39 for Sv39, 2^41 for
    /// Sv39x4.
    pub open spec fn space_size(self) -> int {
        self.root_width * 0x4000_0000
    }

    /// Create an empty table.  `sv39x4` selects the wide (16 KiB) root.
    pub fn new(sv39x4: bool) -> (r: PageTable)
        ensures
            r.wf(),
            r.root_width == if sv39x4 {
                2048int
            } else {
                512int
            },
            r.nodes@.len() == 1,
            forall|v2: int, v1: int, v0: int|
                0 <= v2 < r.root_width && 0 <= v1 < 512 && 0 <= v0 < 512 ==> translate_slot(
                    r,
                    v2,
                    v1,
                    v0,
                ) is None,
    {
        let width: usize = if sv39x4 {
            2048
        } else {
            512
        };
        let mut root: Vec<u64> = Vec::new();
        let mut i: usize = 0;
        while i < width
            invariant
                i <= width,
                root@.len() == i,
                forall|k: int| 0 <= k < i ==> root@[k] == 0u64,
            decreases width - i,
        {
            root.push(0);
            i += 1;
        }
        let mut nodes: Vec<Vec<u64>> = Vec::new();
        nodes.push(root);
        let r = PageTable { root_width: width, nodes };
        proof {
            assert forall|v2: int, v1: int, v0: int|
                0 <= v2 < r.root_width && 0 <= v1 < 512 && 0 <= v0 < 512 implies translate_slot(
                r,
                v2,
                v1,
                v0,
            ) is None by {
                assert(ent(r, 0, v2) == 0u64);
            }
        }
        r
    }
}

/// Result of resolving one slot triple: the mapped page and its flags.
pub open spec fn translate_slot(pt: PageTable, v2: int, v1: int, v0: int) -> Option<(int, u64)> {
    let e2 = ent(pt, 0, v2);
    if !pte_valid(e2) {
        None
    } else if pte_leaf(e2) {
        if pte_ppn(e2) % 0x40000 == 0 {
            Some((pte_ppn(e2) + v1 * 512 + v0, pte_flags(e2)))
        } else {
            None
        }
    } else {
        let n1 = pte_ppn(e2) as int;
        let e1 = ent(pt, n1, v1);
        if !pte_valid(e1) {
            None
        } else if pte_leaf(e1) {
            if pte_ppn(e1) % 512 == 0 {
                Some((pte_ppn(e1) + v0, pte_flags(e1)))
            } else {
                None
            }
        } else {
            let n0 = pte_ppn(e1) as int;
            let e0 = ent(pt, n0, v0);
            if pte_valid(e0) && pte_leaf(e0) {
                Some((pte_ppn(e0) as int, pte_flags(e0)))
            } else {
                None
            }
        }
    }
}

/// Whether resolving the slot hits a misaligned superpage (fatal: the
/// hypervisor never writes one).
pub open spec fn slot_misaligned(pt: PageTable, v2: int, v1: int, v0: int) -> bool {
    let e2 = ent(pt, 0, v2);
    pte_valid(e2) && (if pte_leaf(e2) {
        pte_ppn(e2) % 0x40000 != 0
    } else {
        let e1 = ent(pt, pte_ppn(e2) as int, v1);
        pte_valid(e1) && pte_leaf(e1) && pte_ppn(e1) % 512 != 0
    })
}

/// vpn[2] of an in-space address (no masking needed below the space bound).
pub open spec fn vpn2(a: u64) -> int {
    a as int / 0x4000_0000
}

/// vpn[1] of an address.
pub open spec fn vpn1(a: u64) -> int {
    (a as int / 0x20_0000) % 512
}

/// vpn[0] of an address.
pub open spec fn vpn0(a: u64) -> int {
    (a as int / 0x1000) % 512
}

/// The translation of a whole address, at page granularity.
pub open spec fn translate_addr(pt: PageTable, a: u64) -> Option<(int, u64)> {
    translate_slot(pt, vpn2(a), vpn1(a), vpn0(a))
}

/// Why a walk failed.
#[derive(Clone, Copy, PartialEq, Eq, Structural, Debug)]
pub enum WalkFault {
    /// Some entry on the path is invalid: a guest page fault.
    NotMapped,
    /// A superpage leaf with a misaligned PPN: a fatal programming error.
    MisalignedSuperpage,
}

impl PageTable {
    /// Walk the table: translate an address to its host page and flag set.
    ///
    /// Addresses beyond the root's reach fault like unmapped ones.
    pub fn walk(&self, gpa: u64) -> (r: Result<(u64, u64), WalkFault>)
        requires
            self.wf(),
        ensures
            match r {
                Ok((hpa, flags)) => {
                    &&& gpa < self.space_size()
                    &&& translate_addr(*self, gpa) matches Some((ppn, f)) && hpa == ppn * 4096 + (
                    gpa as int % 4096) && flags == f
                },
                Err(WalkFault::MisalignedSuperpage) => gpa < self.space_size() && slot_misaligned(
                    *self,
                    vpn2(gpa),
                    vpn1(gpa),
                    vpn0(gpa),
                ),
                Err(WalkFault::NotMapped) => gpa >= self.space_size() || (translate_addr(
                    *self,
                    gpa,
                ) is None && !slot_misaligned(*self, vpn2(gpa), vpn1(gpa), vpn0(gpa))),
            },
    {
        if gpa / 0x4000_0000 >= self.root_width as u64 {
            return Err(WalkFault::NotMapped);
        }
        let v2 = (gpa / 0x4000_0000) as usize;
        let v1 = ((gpa / 0x20_0000) % 512) as usize;
        let v0 = ((gpa / 0x1000) % 512) as usize;
        let e2 = self.nodes[0][v2];
        proof {
            assert(ent(*self, 0, v2 as int) == e2);
        }
        if e2 % 2 != 1 {
            return Err(WalkFault::NotMapped);
        }
        if (e2 / 2) % 8 != 0 {
            if (e2 / 1024) % 0x40000 != 0 {
                return Err(WalkFault::MisalignedSuperpage);
            }
            let p = e2 / 1024;
            proof {
                assert(p + 0x40000 <= 0x1000_0000_0000) by (nonlinear_arith)
                    requires
                        p % 0x40000 == 0,
                        p < 0x1000_0000_0000,
                ;
            }
            let ppn = p + (v1 * 512 + v0) as u64;
            return Ok((ppn * 4096 + gpa % 4096, e2 % 1024));
        }
        let n1 = (e2 / 1024) as usize;
        let e1 = self.nodes[n1][v1];
        proof {
            assert(ent(*self, n1 as int, v1 as int) == e1);
        }
        if e1 % 2 != 1 {
            return Err(WalkFault::NotMapped);
        }
        if (e1 / 2) % 8 != 0 {
            if (e1 / 1024) % 512 != 0 {
                return Err(WalkFault::MisalignedSuperpage);
            }
            let p = e1 / 1024;
            proof {
                assert(p + 512 <= 0x1000_0000_0000) by (nonlinear_arith)
                    requires
                        p % 512 == 0,
                        p < 0x1000_0000_0000,
                ;
            }
            let ppn = p + v0 as u64;
            return Ok((ppn * 4096 + gpa % 4096, e1 % 1024));
        }
        let n0 = (e1 / 1024) as usize;
        let e0 = self.nodes[n0][v0];
        proof {
            assert(ent(*self, n0 as int, v0 as int) == e0);
        }
        if e0 % 2 == 1 && (e0 / 2) % 8 != 0 {
            proof {
                assert(pte_ppn(e0) < 0x1000_0000_0000);
            }
            Ok(((e0 / 1024) * 4096 + gpa % 4096, e0 % 1024))
        } else {
            Err(WalkFault::NotMapped)
        }
    }
}


/// Region size one leaf of the given level covers.
pub open spec fn level_size(lvl: int) -> int {
    if lvl == 2 {
        0x4000_0000
    } else if lvl == 1 {
        0x20_0000
    } else {
        0x1000
    }
}

/// The value of a leaf entry mapping host address `pa` with the given flags.
pub open spec fn leaf_entry(pa: u64, flags: u8) -> u64 {
    ((pa / 4096) * 1024 + flags) as u64
}

/// A chunk is admissible when both its addresses are aligned to its level,
/// it lies inside the table's space, its host end fits the PPN field, and its
/// flags mark a valid leaf.
pub open spec fn wf_chunk(pt: PageTable, va: u64, lvl: int, pa: u64, flags: u8) -> bool {
    &&& 0 <= lvl <= 2
    &&& va as int % level_size(lvl) == 0
    &&& pa as int % level_size(lvl) == 0
    &&& va as int + level_size(lvl) <= pt.space_size()
    &&& pa as int + level_size(lvl) <= 0x100_0000_0000_0000
    &&& flags % 2 == 1
    &&& (flags / 2) % 8 != 0
}

/// The chunk's leaf stands in the table at exactly its level, reached over
/// pointer entries.
pub open spec fn chunk_exact(pt: PageTable, va: u64, lvl: int, pa: u64, flags: u8) -> bool {
    let e2 = ent(pt, 0, vpn2(va));
    if lvl == 2 {
        e2 == leaf_entry(pa, flags)
    } else {
        &&& pte_pointer(e2)
        &&& {
            let n1 = pte_ppn(e2) as int;
            let e1 = ent(pt, n1, vpn1(va));
            if lvl == 1 {
                e1 == leaf_entry(pa, flags)
            } else {
                &&& pte_pointer(e1)
                &&& ent(pt, pte_ppn(e1) as int, vpn0(va)) == leaf_entry(pa, flags)
            }
        }
    }
}

/// Page-aligned membership in a chunk's region.
pub open spec fn in_chunk(a: u64, va: u64, lvl: int) -> bool {
    va <= a < va as int + level_size(lvl) && a % 4096 == 0
}

/// Whether two chunk regions share no address.
pub open spec fn chunks_disjoint(va1: u64, lvl1: int, va2: u64, lvl2: int) -> bool {
    va1 + level_size(lvl1) <= va2 || va2 + level_size(lvl2) <= va1
}

/// Addition under an aligned base distributes over division.
proof fn lemma_div_add(x: int, d: int, k: int)
    requires
        k > 0,
        x >= 0,
        x % k == 0,
        d >= 0,
    ensures
        (x + d) / k == x / k + d / k,
        (x + d) % k == d % k,
{
    vstd::arithmetic::div_mod::lemma_fundamental_div_mod(x, k);
    vstd::arithmetic::div_mod::lemma_fundamental_div_mod(d, k);
    vstd::arithmetic::div_mod::lemma_mod_division_less_than_divisor(d, k);
    let q = x / k + d / k;
    let r = d % k;
    assert(x + d == q * k + r) by (nonlinear_arith)
        requires
            x == k * (x / k) + x % k,
            d == k * (d / k) + d % k,
            x % k == 0,
            q == x / k + d / k,
            r == d % k,
    ;
    vstd::arithmetic::div_mod::lemma_fundamental_div_mod_converse_mod(x + d, k, q, r);
    vstd::arithmetic::div_mod::lemma_fundamental_div_mod_converse_div(x + d, k, q, r);
}

/// An address with the same quotient as an aligned base lies in its block.
proof fn lemma_same_block(x: int, a: int, k: int)
    by (nonlinear_arith)
    requires
        k > 0,
        x % k == 0,
        a >= 0,
        a / k == x / k,
    ensures
        x <= a < x + k,
{
}

/// A multiple of `a * b` is a multiple of `a`, and its quotient by `a` is a
/// multiple of `b`.
proof fn lemma_mod_factor(x: int, a: int, b: int)
    requires
        a > 0,
        b > 0,
        x >= 0,
        x % (a * b) == 0,
    ensures
        x % a == 0,
        (x / a) % b == 0,
{
    vstd::arithmetic::div_mod::lemma_breakdown(x, a, b);
    vstd::arithmetic::div_mod::lemma_mod_division_less_than_divisor(x, a);
    vstd::arithmetic::div_mod::lemma_mod_division_less_than_divisor(x / a, b);
    assert((x / a) % b == 0 && x % a == 0) by (nonlinear_arith)
        requires
            a > 0,
            0 <= x % a,
            0 <= (x / a) % b,
            a * ((x / a) % b) + x % a == 0,
    ;
}

/// Dividing twice by constants equals dividing by their product.
proof fn lemma_div_chain(x: int)
    by (nonlinear_arith)
    requires
        x >= 0,
    ensures
        (x / 4096) / 512 == x / 0x20_0000,
        (x / 0x20_0000) / 512 == x / 0x4000_0000,
        x / 4096 == (x / 0x20_0000) * 512 + (x / 4096) % 512,
        x / 0x20_0000 == (x / 0x4000_0000) * 512 + (x / 0x20_0000) % 512,
{
}

/// How the vpns of an address inside a chunk relate to the chunk's base.
proof fn lemma_chunk_vpns(va: u64, lvl: int, a: u64)
    requires
        0 <= lvl <= 2,
        va as int % level_size(lvl) == 0,
        va <= a < va as int + level_size(lvl),
        a % 4096 == 0,
    ensures
        vpn2(a) == vpn2(va),
        lvl == 2 ==> vpn1(a) * 512 + vpn0(a) == (a - va) / 4096,
        lvl <= 1 ==> vpn1(a) == vpn1(va),
        lvl == 1 ==> vpn0(a) == (a - va) / 4096,
        lvl == 0 ==> a == va,
        (a - va) % 4096 == 0,
{
    let d = a - va;
    if lvl == 2 {
        lemma_div_add(va as int, d, 0x4000_0000);
        assert(d / 0x4000_0000 == 0) by (nonlinear_arith)
            requires
                0 <= d < 0x4000_0000,
        ;
        lemma_mod_factor(va as int, 4096, 0x40000);
        lemma_mod_factor(va as int, 0x20_0000, 512);
        lemma_div_add(va as int, d, 4096);
        lemma_div_add(va as int, d, 0x20_0000);
        // vpn1(a) = (va/2M + d/2M) % 512 = d/2M % 512 = d/2M since d < 1G
        assert((va as int / 0x20_0000 + d / 0x20_0000) % 512 == d / 0x20_0000) by (nonlinear_arith)
            requires
                (va as int / 0x20_0000) % 512 == 0,
                0 <= d < 0x4000_0000,
        ;
        lemma_mod_factor(va as int, 4096, 512);
        assert((va as int / 4096 + d / 4096) % 512 == (d / 4096) % 512) by (nonlinear_arith)
            requires
                (va as int / 4096) % 512 == 0,
                d >= 0,
        ;
        lemma_div_chain(d);
        assert(d % 4096 == (a - va) % 4096) by {
            lemma_div_add(va as int, d, 4096);
        }
        assert((d / 0x20_0000) * 512 + (d / 4096) % 512 == d / 4096);
    } else if lvl == 1 {
        lemma_div_add(va as int, d, 0x20_0000);
        assert(d / 0x20_0000 == 0) by (nonlinear_arith)
            requires
                0 <= d < 0x20_0000,
        ;
        // same 2M block, so same 1G block
        assert(va as int % 0x20_0000 == 0 && va <= a < va + 0x20_0000 ==> a as int / 0x4000_0000
            == va as int / 0x4000_0000) by (nonlinear_arith);
        lemma_div_add(va as int, d, 4096);
        assert((va as int / 4096 + d / 4096) % 512 == d / 4096) by (nonlinear_arith)
            requires
                (va as int / 4096) % 512 == 0,
                0 <= d < 0x20_0000,
        ;
        lemma_mod_factor(va as int, 4096, 512);
    } else {
        assert(a == va) by (nonlinear_arith)
            requires
                va % 0x1000 == 0,
                a % 4096 == 0,
                va <= a < va + 0x1000,
        ;
    }
}

/// An address whose vpns coincide with a chunk's down to its level lies in
/// the chunk.
proof fn lemma_vpns_to_chunk(va: u64, lvl: int, a: u64)
    requires
        0 <= lvl <= 2,
        va as int % level_size(lvl) == 0,
        a % 4096 == 0,
        vpn2(a) == vpn2(va),
        lvl <= 1 ==> vpn1(a) == vpn1(va),
        lvl == 0 ==> vpn0(a) == vpn0(va),
    ensures
        va <= a < va as int + level_size(lvl),
{
    if lvl == 2 {
        lemma_same_block(va as int, a as int, 0x4000_0000);
    } else if lvl == 1 {
        lemma_div_chain(a as int);
        lemma_div_chain(va as int);
        assert(a as int / 0x20_0000 == va as int / 0x20_0000);
        lemma_same_block(va as int, a as int, 0x20_0000);
    } else {
        lemma_div_chain(a as int);
        lemma_div_chain(va as int);
        assert(a as int / 4096 == va as int / 4096);
        lemma_same_block(va as int, a as int, 4096);
        assert(a == va) by (nonlinear_arith)
            requires
                va % 0x1000 == 0,
                a % 4096 == 0,
                va <= a < va + 4096,
        ;
    }
}


/// Replace the entry at `(n, i)` — one that maps nothing: invalid, or a
/// misaligned (hence faulting) superpage leaf — with a pointer to a freshly
/// allocated empty node.  No translation changes.
fn alloc_child(pt: &mut PageTable, n: usize, i: usize) -> (child: usize)
    requires
        old(pt).wf(),
        old(pt).nodes@.len() < 0x10_0000,
        n < old(pt).nodes@.len(),
        (i as int) < node_width(*old(pt), n as int),
        n == 0 || exists|v2: int|
            0 <= v2 < old(pt).root_width && pte_pointer(#[trigger] ent(*old(pt), 0, v2)) && pte_ppn(
                ent(*old(pt), 0, v2),
            ) == n,
        !pte_valid(ent(*old(pt), n as int, i as int)) || (pte_leaf(
            ent(*old(pt), n as int, i as int),
        ) && pte_ppn(ent(*old(pt), n as int, i as int)) as int % (if n == 0 {
            0x40000int
        } else {
            512int
        }) != 0),
    ensures
        final(pt).wf(),
        final(pt).root_width == old(pt).root_width,
        final(pt).nodes@.len() == old(pt).nodes@.len() + 1,
        child == old(pt).nodes@.len(),
        forall|n2: int, i2: int|
            0 <= n2 < old(pt).nodes@.len() && 0 <= i2 < node_width(*old(pt), n2) && !(n2 == n && i2
                == i) ==> ent(*final(pt), n2, i2) == ent(*old(pt), n2, i2),
        ent(*final(pt), n as int, i as int) == (child as u64) * 1024 + 1,
        forall|j: int| 0 <= j < 512 ==> ent(*final(pt), child as int, j) == 0,
        forall|v2: int, v1: int, v0: int|
            0 <= v2 < old(pt).root_width && 0 <= v1 < 512 && 0 <= v0 < 512 ==> translate_slot(
                *final(pt),
                v2,
                v1,
                v0,
            ) == translate_slot(*old(pt), v2, v1, v0),
{
    let ghost o = *pt;
    let child = pt.nodes.len();
    pt.nodes.push(vec![0u64; 512]);
    let e: u64 = (child as u64) * 1024 + 1;
    pt.nodes[n][i] = e;
    proof {
        let f = *pt;
        assert(pte_pointer(e) && pte_ppn(e) == child) by (nonlinear_arith)
            requires
                e == (child as u64) * 1024 + 1,
                child < 0x10_0000,
        ;
        // well-formedness
        assert forall|n2: int, i2: int|
            0 <= n2 < f.nodes@.len() && 0 <= i2 < node_width(f, n2) && pte_pointer(
                #[trigger] ent(f, n2, i2),
            ) implies 1 <= pte_ppn(ent(f, n2, i2)) < f.nodes@.len() by {
            if n2 == child {
                assert(ent(f, n2, i2) == 0);
            } else if n2 == n && i2 == i {
            } else {
                assert(ent(f, n2, i2) == ent(o, n2, i2));
            }
        }
        assert forall|n2: int, i2: int|
            0 <= n2 < f.nodes@.len() && 0 <= i2 < node_width(f, n2) && pte_valid(
                #[trigger] ent(f, n2, i2),
            ) && pte_leaf(ent(f, n2, i2)) implies pte_ppn(ent(f, n2, i2)) < 0x1000_0000_0000 by {
            if n2 == child {
                assert(ent(f, n2, i2) == 0);
            } else if n2 == n && i2 == i {
            } else {
                assert(ent(f, n2, i2) == ent(o, n2, i2));
            }
        }
        assert forall|n1: int, i1: int, n2: int, i2: int|
            0 <= n1 < f.nodes@.len() && 0 <= i1 < node_width(f, n1) && 0 <= n2 < f.nodes@.len() && 0
                <= i2 < node_width(f, n2) && pte_pointer(#[trigger] ent(f, n1, i1)) && pte_pointer(
                #[trigger] ent(f, n2, i2),
            ) && pte_ppn(ent(f, n1, i1)) == pte_ppn(ent(f, n2, i2)) implies n1 == n2 && i1
            == i2 by {
            if n1 == child || n2 == child {
                assert(n1 == child ==> ent(f, n1, i1) == 0);
                assert(n2 == child ==> ent(f, n2, i2) == 0);
            } else {
                if !(n1 == n && i1 == i) && !(n2 == n && i2 == i) {
                    assert(ent(f, n1, i1) == ent(o, n1, i1));
                    assert(ent(f, n2, i2) == ent(o, n2, i2));
                } else if n1 == n && i1 == i && !(n2 == n && i2 == i) {
                    assert(ent(f, n2, i2) == ent(o, n2, i2));
                    assert(pte_ppn(ent(o, n2, i2)) < o.nodes@.len());
                } else if n2 == n && i2 == i && !(n1 == n && i1 == i) {
                    assert(ent(f, n1, i1) == ent(o, n1, i1));
                    assert(pte_ppn(ent(o, n1, i1)) < o.nodes@.len());
                }
            }
        }
        assert(f.wf());
        // translations unchanged
        assert forall|v2: int, v1: int, v0: int|
            0 <= v2 < o.root_width && 0 <= v1 < 512 && 0 <= v0 < 512 implies translate_slot(
            f,
            v2,
            v1,
            v0,
        ) == translate_slot(o, v2, v1, v0) by {
            let e2o = ent(o, 0, v2);
            let e2f = ent(f, 0, v2);
            if n == 0 && i == v2 {
                // the replaced entry: old maps nothing, new child is empty
                assert(e2f == e);
                assert(ent(f, child as int, v1) == 0);
                assert(translate_slot(f, v2, v1, v0) is None);
                assert(translate_slot(o, v2, v1, v0) is None);
            } else {
                assert(e2f == e2o);
                if pte_pointer(e2o) {
                    let n1 = pte_ppn(e2o) as int;
                    assert(1 <= n1 < o.nodes@.len());
                    let e1o = ent(o, n1, v1);
                    let e1f = ent(f, n1, v1);
                    if n as int == n1 && i as int == v1 {
                        assert(n >= 1);
                        assert(e1f == e);
                        assert(ent(f, child as int, v0) == 0);
                        assert(translate_slot(f, v2, v1, v0) is None);
                        assert(translate_slot(o, v2, v1, v0) is None);
                    } else {
                        assert(e1f == e1o);
                        if pte_pointer(e1o) {
                            let n0 = pte_ppn(e1o) as int;
                            assert(1 <= n0 < o.nodes@.len());
                            if n as int == n0 && i as int == v0 {
                                // n would have a root parent and an inner
                                // parent at once, against injectivity
                                assert(n >= 1);
                                let w2 = choose|w2: int|
                                    0 <= w2 < o.root_width && pte_pointer(
                                        #[trigger] ent(o, 0, w2),
                                    ) && pte_ppn(ent(o, 0, w2)) == n;
                                assert(pte_pointer(ent(o, 0, w2)) && pte_pointer(ent(o, n1, v1))
                                    && pte_ppn(ent(o, 0, w2)) == pte_ppn(ent(o, n1, v1)));
                                assert(false);
                            } else {
                                assert(ent(f, n0, v0) == ent(o, n0, v0));
                            }
                        }
                    }
                }
            }
        }
    }
    child
}


/// `f` is `o` with entry `(nw, iw)` replaced by `v` (same arena shape).
pub open spec fn differs_at(o: PageTable, f: PageTable, nw: int, iw: int, v: u64) -> bool {
    &&& f.root_width == o.root_width
    &&& f.nodes@.len() == o.nodes@.len()
    &&& forall|n: int|
        0 <= n < o.nodes@.len() ==> (#[trigger] f.nodes@[n])@.len() == o.nodes@[n]@.len()
    &&& forall|n: int, i: int|
        0 <= n < o.nodes@.len() && 0 <= i < node_width(o, n) && !(n == nw && i == iw) ==> ent(
            f,
            n,
            i,
        ) == ent(o, n, i)
    &&& ent(f, nw, iw) == v
}

/// The translation a chunk's leaf dictates for an address inside it.
pub open spec fn chunk_target(a: u64, va: u64, pa: u64, flags: u8) -> Option<(int, u64)> {
    Some(((pa + (a - va)) / 4096, flags as u64))
}

/// An aligned value strictly below an aligned bound leaves room for one block.
proof fn lemma_aligned_lt(x: int, b: int, k: int)
    by (nonlinear_arith)
    requires
        k > 0,
        x % k == 0,
        b % k == 0,
        x < b,
    ensures
        x + k <= b,
{
}

/// A chunk-aligned address is page aligned, and its target page number is
/// aligned to the chunk's page count.
proof fn lemma_chunk_alignment(va: u64, lvl: int, pa: u64)
    requires
        0 <= lvl <= 2,
        va as int % level_size(lvl) == 0,
        pa as int % level_size(lvl) == 0,
    ensures
        va % 4096 == 0,
        pa % 4096 == 0,
        lvl == 2 ==> (pa / 4096) % 0x40000 == 0,
        lvl == 1 ==> (pa / 4096) % 512 == 0,
{
    if lvl == 2 {
        lemma_mod_factor(va as int, 4096, 0x40000);
        lemma_mod_factor(pa as int, 4096, 0x40000);
    } else if lvl == 1 {
        lemma_mod_factor(va as int, 4096, 512);
        lemma_mod_factor(pa as int, 4096, 512);
    }
}

/// What one leaf write at the chunk's own slot does to the table: the chunk
/// becomes mapped and exact, nothing else moves, and foreign exact chunks
/// that do not cross it survive.
#[verifier::spinoff_prover]
#[verifier::rlimit(100)]
proof fn lemma_write_leaf_effect(
    o: PageTable,
    f: PageTable,
    va: u64,
    lvl: int,
    pa: u64,
    flags: u8,
    nw: int,
    iw: int,
)
    requires
        o.wf(),
        wf_chunk(o, va, lvl, pa, flags),
        differs_at(o, f, nw, iw, leaf_entry(pa, flags)),
        lvl == 2 ==> nw == 0 && iw == vpn2(va),
        lvl == 1 ==> pte_pointer(ent(o, 0, vpn2(va))) && nw == pte_ppn(ent(o, 0, vpn2(va))) && iw
            == vpn1(va),
        lvl == 0 ==> pte_pointer(ent(o, 0, vpn2(va))) && pte_pointer(
            ent(o, pte_ppn(ent(o, 0, vpn2(va))) as int, vpn1(va)),
        ) && nw == pte_ppn(ent(o, pte_ppn(ent(o, 0, vpn2(va))) as int, vpn1(va))) && iw == vpn0(va),
    ensures
        f.wf(),
        forall|a: u64|
            in_chunk(a, va, lvl) ==> translate_addr(f, a) == chunk_target(a, va, pa, flags),
        forall|a: u64|
            a < o.space_size() && a % 4096 == 0 && !in_chunk(a, va, lvl) ==> translate_addr(f, a)
                == translate_addr(o, a),
        chunk_exact(f, va, lvl, pa, flags),
        forall|va2: u64, lvl2: int, pa2: u64, fl2: u8|
            wf_chunk(o, va2, lvl2, pa2, fl2) && #[trigger] chunk_settled(o, va2, lvl2, pa2, fl2)
                && (chunks_disjoint(va, lvl, va2, lvl2) || (va2 == va && lvl2 == lvl && pa2 == pa
                && fl2 == flags)) ==> chunk_settled(f, va2, lvl2, pa2, fl2),
{
    let target = leaf_entry(pa, flags);
    let v2 = vpn2(va);
    let v1 = vpn1(va);
    let v0 = vpn0(va);
    lemma_chunk_alignment(va, lvl, pa);
    assert(target == (pa / 4096) * 1024 + flags);
    assert(pte_ppn(target) == pa / 4096 && pte_flags(target) == flags as u64 && pte_valid(target)
        && pte_leaf(target)) by (nonlinear_arith)
        requires
            target == (pa / 4096) * 1024 + flags,
            pa / 4096 < 0x1000_0000_0000,
            flags < 1024,
            flags % 2 == 1,
            (flags / 2) % 8 != 0,
    ;
    assert(0 <= v2 < o.root_width) by {
        assert(va < o.root_width * 0x4000_0000);
        assert(va / 0x4000_0000 < o.root_width) by (nonlinear_arith)
            requires
                va < o.root_width * 0x4000_0000,
        ;
    }
    assert(0 <= nw < o.nodes@.len() && 0 <= iw < node_width(o, nw));
    // well-formedness of f
    assert forall|n2: int, i2: int|
        0 <= n2 < f.nodes@.len() && 0 <= i2 < node_width(f, n2) && pte_pointer(
            #[trigger] ent(f, n2, i2),
        ) implies 1 <= pte_ppn(ent(f, n2, i2)) < f.nodes@.len() by {
        if !(n2 == nw && i2 == iw) {
            assert(ent(f, n2, i2) == ent(o, n2, i2));
        }
    }
    assert forall|n2: int, i2: int|
        0 <= n2 < f.nodes@.len() && 0 <= i2 < node_width(f, n2) && pte_valid(
            #[trigger] ent(f, n2, i2),
        ) && pte_leaf(ent(f, n2, i2)) implies pte_ppn(ent(f, n2, i2)) < 0x1000_0000_0000 by {
        if !(n2 == nw && i2 == iw) {
            assert(ent(f, n2, i2) == ent(o, n2, i2));
        }
    }
    assert forall|n1: int, i1: int, n2: int, i2: int|
        0 <= n1 < f.nodes@.len() && 0 <= i1 < node_width(f, n1) && 0 <= n2 < f.nodes@.len() && 0
            <= i2 < node_width(f, n2) && pte_pointer(#[trigger] ent(f, n1, i1)) && pte_pointer(
            #[trigger] ent(f, n2, i2),
        ) && pte_ppn(ent(f, n1, i1)) == pte_ppn(ent(f, n2, i2)) implies n1 == n2 && i1 == i2 by {
        assert(!(n1 == nw && i1 == iw) && !(n2 == nw && i2 == iw));
        assert(ent(f, n1, i1) == ent(o, n1, i1) && ent(f, n2, i2) == ent(o, n2, i2));
    }
    assert(f.wf());
    // the path of the chunk in f
    if lvl <= 1 {
        assert(ent(f, 0, v2) == ent(o, 0, v2)) by {
            if lvl == 1 {
                assert(nw >= 1);
            } else {
                assert(nw >= 1);
            }
        }
    }
    // chunk is mapped
    assert forall|a: u64| in_chunk(a, va, lvl) implies translate_addr(f, a) == chunk_target(
        a,
        va,
        pa,
        flags,
    ) by {
        lemma_chunk_vpns(va, lvl, a);
        lemma_div_add(pa as int, a - va, 4096);
        if lvl == 2 {
            assert(ent(f, 0, vpn2(a)) == target);
            assert(translate_slot(f, vpn2(a), vpn1(a), vpn0(a)) == Some(
                (pa / 4096 + vpn1(a) * 512 + vpn0(a), flags as u64),
            ));
        } else if lvl == 1 {
            assert(ent(f, 0, vpn2(a)) == ent(o, 0, v2));
            assert(ent(f, nw, vpn1(a)) == target);
        } else {
            assert(ent(f, 0, vpn2(a)) == ent(o, 0, v2));
            let n1 = pte_ppn(ent(o, 0, v2)) as int;
            assert(n1 != nw) by {
                if n1 == nw {
                    assert(pte_pointer(ent(o, 0, v2)) && pte_pointer(ent(o, n1, v1)) && pte_ppn(
                        ent(o, n1, v1),
                    ) == nw);
                    assert(false);
                }
            }
            assert(ent(f, n1, vpn1(a)) == ent(o, n1, v1));
            assert(ent(f, nw, vpn0(a)) == target);
            assert(a == va);
        }
    }
    // frame: other addresses translate as before
    assert forall|a: u64| a < o.space_size() && a % 4096 == 0 && !in_chunk(a, va, lvl) implies
        translate_addr(f, a) == translate_addr(o, a) by {
        let w2 = vpn2(a);
        let w1 = vpn1(a);
        let w0 = vpn0(a);
        assert(0 <= w2 < o.root_width) by {
            assert(a / 0x4000_0000 < o.root_width) by (nonlinear_arith)
                requires
                    a < o.root_width * 0x4000_0000,
            ;
        }
        if lvl == 2 {
            if w2 == v2 {
                lemma_vpns_to_chunk(va, 2, a);
                assert(false);
            } else {
                assert(ent(f, 0, w2) == ent(o, 0, w2));
                if pte_pointer(ent(o, 0, w2)) {
                    let m1 = pte_ppn(ent(o, 0, w2)) as int;
                    assert(ent(f, m1, w1) == ent(o, m1, w1));
                    if pte_pointer(ent(o, m1, w1)) {
                        let m0 = pte_ppn(ent(o, m1, w1)) as int;
                        assert(ent(f, m0, w0) == ent(o, m0, w0));
                    }
                }
            }
        } else if lvl == 1 {
            assert(ent(f, 0, w2) == ent(o, 0, w2));
            if pte_pointer(ent(o, 0, w2)) {
                let m1 = pte_ppn(ent(o, 0, w2)) as int;
                if m1 == nw {
                    assert(w2 == v2);
                    if w1 == v1 {
                        lemma_vpns_to_chunk(va, 1, a);
                        assert(false);
                    } else {
                        assert(ent(f, m1, w1) == ent(o, m1, w1));
                        if pte_pointer(ent(o, m1, w1)) {
                            let m0 = pte_ppn(ent(o, m1, w1)) as int;
                            assert(m0 != nw) by {
                                if m0 == nw {
                                    assert(pte_pointer(ent(o, 0, v2)) && pte_pointer(
                                        ent(o, m1, w1),
                                    ) && pte_ppn(ent(o, 0, v2)) == pte_ppn(ent(o, m1, w1)));
                                    assert(false);
                                }
                            }
                            assert(ent(f, m0, w0) == ent(o, m0, w0));
                        }
                    }
                } else {
                    assert(ent(f, m1, w1) == ent(o, m1, w1));
                    if pte_pointer(ent(o, m1, w1)) {
                        let m0 = pte_ppn(ent(o, m1, w1)) as int;
                        assert(m0 != nw) by {
                            if m0 == nw {
                                assert(pte_pointer(ent(o, 0, v2)) && pte_pointer(ent(o, m1, w1))
                                    && pte_ppn(ent(o, 0, v2)) == pte_ppn(ent(o, m1, w1)));
                                assert(false);
                            }
                        }
                        assert(ent(f, m0, w0) == ent(o, m0, w0));
                    }
                }
            }
        } else {
            let n1 = pte_ppn(ent(o, 0, v2)) as int;
            assert(nw == pte_ppn(ent(o, n1, v1)));
            assert(nw != n1) by {
                if nw == n1 {
                    assert(pte_pointer(ent(o, 0, v2)) && pte_pointer(ent(o, n1, v1)) && pte_ppn(
                        ent(o, n1, v1),
                    ) == pte_ppn(ent(o, 0, v2)));
                    assert(false);
                }
            }
            assert(ent(f, 0, w2) == ent(o, 0, w2));
            if pte_pointer(ent(o, 0, w2)) {
                let m1 = pte_ppn(ent(o, 0, w2)) as int;
                assert(m1 != nw) by {
                    if m1 == nw {
                        assert(pte_pointer(ent(o, 0, w2)) && pte_pointer(ent(o, n1, v1)) && pte_ppn(
                            ent(o, 0, w2),
                        ) == pte_ppn(ent(o, n1, v1)));
                        assert(false);
                    }
                }
                assert(ent(f, m1, w1) == ent(o, m1, w1));
                if pte_pointer(ent(o, m1, w1)) {
                    let m0 = pte_ppn(ent(o, m1, w1)) as int;
                    if m0 == nw {
                        assert(m1 == n1 && w1 == v1);
                        assert(w2 == v2) by {
                            assert(pte_pointer(ent(o, 0, w2)) && pte_pointer(ent(o, 0, v2))
                                && pte_ppn(ent(o, 0, w2)) == pte_ppn(ent(o, 0, v2)));
                        }
                        if w0 == v0 {
                            lemma_vpns_to_chunk(va, 0, a);
                            assert(false);
                        } else {
                            assert(ent(f, m0, w0) == ent(o, m0, w0));
                        }
                    } else {
                        assert(ent(f, m0, w0) == ent(o, m0, w0));
                    }
                }
            }
        }
    }
    // settled foreign chunks that do not cross the written one stay settled
    assert forall|va2: u64, lvl2: int, pa2: u64, fl2: u8|
        wf_chunk(o, va2, lvl2, pa2, fl2) && #[trigger] chunk_settled(o, va2, lvl2, pa2, fl2) && (
        chunks_disjoint(va, lvl, va2, lvl2) || (va2 == va && lvl2 == lvl && pa2 == pa && fl2
            == flags)) implies chunk_settled(f, va2, lvl2, pa2, fl2) by {
        lemma_chunk_alignment(va2, lvl2, pa2);
        let u2 = vpn2(va2);
        assert(0 <= u2 < o.root_width) by {
            assert(va2 / 0x4000_0000 < o.root_width) by (nonlinear_arith)
                requires
                    va2 < o.root_width as int * 0x4000_0000,
            ;
        }
        if va2 == va && lvl2 == lvl && pa2 == pa && fl2 == flags {
            assert(chunk_settled(f, va2, lvl2, pa2, fl2)) by {
                if lvl == 1 {
                    assert(ent(f, 0, v2) == ent(o, 0, v2));
                } else if lvl == 0 {
                    let n1 = pte_ppn(ent(o, 0, v2)) as int;
                    assert(n1 != nw);
                    assert(ent(f, 0, v2) == ent(o, 0, v2));
                    assert(ent(f, n1, v1) == ent(o, n1, v1));
                }
            }
        } else {
            // disjoint regions: the written slot is not on the foreign path
            let e2 = ent(o, 0, u2);
            if lvl == 2 {
                assert(u2 != v2) by {
                    if u2 == v2 {
                        lemma_vpns_to_chunk(va, 2, va2);
                        lemma_aligned_lt(va2 as int, va as int + 0x4000_0000, level_size(lvl2));
                        assert(false);
                    }
                }
                assert(ent(f, 0, u2) == e2);
                if lvl2 < 2 && pte_pointer(e2) {
                    let p1 = pte_ppn(e2) as int;
                    assert(ent(f, p1, vpn1(va2)) == ent(o, p1, vpn1(va2)));
                    let e1 = ent(o, p1, vpn1(va2));
                    if lvl2 == 0 && pte_pointer(e1) {
                        let p0 = pte_ppn(e1) as int;
                        assert(ent(f, p0, vpn0(va2)) == ent(o, p0, vpn0(va2)));
                    }
                }
            } else if lvl == 1 {
                assert(nw >= 1);
                assert(ent(f, 0, u2) == e2);
                if lvl2 < 2 && pte_pointer(e2) {
                    let p1 = pte_ppn(e2) as int;
                    let e1 = ent(o, p1, vpn1(va2));
                    if p1 == nw && vpn1(va2) == v1 {
                        assert(u2 == v2) by {
                            assert(pte_pointer(ent(o, 0, u2)) && pte_pointer(ent(o, 0, v2))
                                && pte_ppn(ent(o, 0, u2)) == pte_ppn(ent(o, 0, v2)));
                        }
                        lemma_vpns_to_chunk(va, 1, va2);
                        lemma_aligned_lt(va2 as int, va as int + 0x20_0000, level_size(lvl2));
                        assert(false);
                    }
                    assert(ent(f, p1, vpn1(va2)) == e1);
                    if lvl2 == 0 && pte_pointer(e1) {
                        let p0 = pte_ppn(e1) as int;
                        assert(p0 != nw) by {
                            if p0 == nw {
                                assert(pte_pointer(ent(o, p1, vpn1(va2))) && pte_pointer(
                                    ent(o, 0, v2),
                                ) && pte_ppn(ent(o, p1, vpn1(va2))) == pte_ppn(ent(o, 0, v2)));
                                assert(false);
                            }
                        }
                        assert(ent(f, p0, vpn0(va2)) == ent(o, p0, vpn0(va2)));
                    }
                }
            } else {
                let n1 = pte_ppn(ent(o, 0, v2)) as int;
                assert(nw == pte_ppn(ent(o, n1, v1)));
                assert(nw >= 1 && nw != n1) by {
                    if nw == n1 {
                        assert(pte_pointer(ent(o, 0, v2)) && pte_pointer(ent(o, n1, v1))
                            && pte_ppn(ent(o, n1, v1)) == pte_ppn(ent(o, 0, v2)));
                        assert(false);
                    }
                }
                assert(ent(f, 0, u2) == e2);
                if lvl2 < 2 && pte_pointer(e2) {
                    let p1 = pte_ppn(e2) as int;
                    assert(p1 != nw) by {
                        if p1 == nw {
                            assert(pte_pointer(ent(o, 0, u2)) && pte_pointer(ent(o, n1, v1))
                                && pte_ppn(ent(o, 0, u2)) == pte_ppn(ent(o, n1, v1)));
                            assert(false);
                        }
                    }
                    let e1 = ent(o, p1, vpn1(va2));
                    assert(ent(f, p1, vpn1(va2)) == e1);
                    if lvl2 == 0 && pte_pointer(e1) {
                        let p0 = pte_ppn(e1) as int;
                        if p0 == nw && vpn0(va2) == v0 {
                            assert(p1 == n1 && vpn1(va2) == v1) by {
                                assert(pte_pointer(ent(o, p1, vpn1(va2))) && pte_pointer(
                                    ent(o, n1, v1),
                                ) && pte_ppn(ent(o, p1, vpn1(va2))) == pte_ppn(ent(o, n1, v1)));
                            }
                            assert(u2 == v2) by {
                                assert(pte_pointer(ent(o, 0, u2)) && pte_pointer(ent(o, 0, v2))
                                    && pte_ppn(ent(o, 0, u2)) == pte_ppn(ent(o, 0, v2)));
                            }
                            lemma_vpns_to_chunk(va, 0, va2);
                            assert(false);
                        }
                        if p0 != nw || vpn0(va2) != v0 {
                            assert(ent(f, p0, vpn0(va2)) == ent(o, p0, vpn0(va2)));
                        }
                    }
                }
            }
        }
    }
}



/// A chunk is settled when writing it would change nothing: its own leaf
/// stands at its exact level, or an aligned superpage leaf already covers it.
pub open spec fn chunk_settled(pt: PageTable, va: u64, lvl: int, pa: u64, flags: u8) -> bool {
    let e2 = ent(pt, 0, vpn2(va));
    if lvl == 2 {
        e2 == leaf_entry(pa, flags)
    } else {
        ||| pte_valid(e2) && pte_leaf(e2) && pte_ppn(e2) % 0x40000 == 0
        ||| (pte_pointer(e2) && {
            let e1 = ent(pt, pte_ppn(e2) as int, vpn1(va));
            if lvl == 1 {
                e1 == leaf_entry(pa, flags)
            } else {
                ||| pte_valid(e1) && pte_leaf(e1) && pte_ppn(e1) % 512 == 0
                ||| (pte_pointer(e1) && ent(pt, pte_ppn(e1) as int, vpn0(va)) == leaf_entry(
                    pa,
                    flags,
                ))
            }
        })
    }
}

/// An exact chunk leaf makes every page of the chunk translate to its target.
proof fn lemma_exact_implies_mapped(pt: PageTable, va: u64, lvl: int, pa: u64, flags: u8)
    requires
        pt.wf(),
        wf_chunk(pt, va, lvl, pa, flags),
        chunk_exact(pt, va, lvl, pa, flags),
    ensures
        forall|a: u64|
            in_chunk(a, va, lvl) ==> translate_addr(pt, a) == chunk_target(a, va, pa, flags),
        chunk_settled(pt, va, lvl, pa, flags),
{
    let target = leaf_entry(pa, flags);
    lemma_chunk_alignment(va, lvl, pa);
    assert(pte_ppn(target) == pa / 4096 && pte_flags(target) == flags as u64 && pte_valid(target)
        && pte_leaf(target)) by (nonlinear_arith)
        requires
            target == (pa / 4096) * 1024 + flags,
            pa / 4096 < 0x1000_0000_0000,
            flags < 1024,
            flags % 2 == 1,
            (flags / 2) % 8 != 0,
    ;
    assert forall|a: u64| in_chunk(a, va, lvl) implies translate_addr(pt, a) == chunk_target(
        a,
        va,
        pa,
        flags,
    ) by {
        lemma_chunk_vpns(va, lvl, a);
        lemma_div_add(pa as int, a - va, 4096);
    }
}

/// A chunk fully under an aligned superpage leaf is already mapped; by the
/// compatibility premise the superpage carries the chunk's own translation.
proof fn lemma_covered_by_super(pt: PageTable, va: u64, lvl: int, pa: u64, flags: u8)
    requires
        pt.wf(),
        0 <= lvl <= 1,
        wf_chunk(pt, va, lvl, pa, flags),
        forall|a: u64|
            in_chunk(a, va, lvl) ==> translate_addr(pt, a) is None || translate_addr(pt, a)
                == chunk_target(a, va, pa, flags),
        ({
            let e2 = ent(pt, 0, vpn2(va));
            ||| (pte_valid(e2) && pte_leaf(e2) && pte_ppn(e2) % 0x40000 == 0)
            ||| (lvl == 0 && pte_pointer(e2) && {
                let e1 = ent(pt, pte_ppn(e2) as int, vpn1(va));
                pte_valid(e1) && pte_leaf(e1) && pte_ppn(e1) % 512 == 0
            })
        }),
    ensures
        forall|a: u64|
            in_chunk(a, va, lvl) ==> translate_addr(pt, a) == chunk_target(a, va, pa, flags),
        chunk_settled(pt, va, lvl, pa, flags),
{
    assert forall|a: u64| in_chunk(a, va, lvl) implies translate_addr(pt, a) == chunk_target(
        a,
        va,
        pa,
        flags,
    ) by {
        lemma_chunk_vpns(va, lvl, a);
        assert(translate_addr(pt, a) is Some);
    }
}

/// Hanging an empty node behind a dead entry leaves every settled chunk
/// settled.
#[verifier::spinoff_prover]
#[verifier::rlimit(100)]
proof fn lemma_alloc_keeps_settled(o: PageTable, f: PageTable, n: int, i: int)
    requires
        o.wf(),
        f.wf(),
        f.root_width == o.root_width,
        f.nodes@.len() == o.nodes@.len() + 1,
        0 <= n < o.nodes@.len(),
        0 <= i < node_width(o, n),
        forall|n2: int, i2: int|
            0 <= n2 < o.nodes@.len() && 0 <= i2 < node_width(o, n2) && !(n2 == n && i2 == i) ==> ent(
                f,
                n2,
                i2,
            ) == ent(o, n2, i2),
        !pte_valid(ent(o, n, i)) || (pte_leaf(ent(o, n, i)) && pte_ppn(ent(o, n, i)) as int % (if n
            == 0 {
            0x40000int
        } else {
            512int
        }) != 0),
        n == 0 || exists|w2: int|
            0 <= w2 < o.root_width && pte_pointer(#[trigger] ent(o, 0, w2)) && pte_ppn(
                ent(o, 0, w2),
            ) == n,
    ensures
        forall|va2: u64, lvl2: int, pa2: u64, fl2: u8|
            wf_chunk(o, va2, lvl2, pa2, fl2) && #[trigger] chunk_settled(o, va2, lvl2, pa2, fl2)
                ==> chunk_settled(f, va2, lvl2, pa2, fl2),
{
    assert forall|va2: u64, lvl2: int, pa2: u64, fl2: u8|
        wf_chunk(o, va2, lvl2, pa2, fl2) && #[trigger] chunk_settled(
            o,
            va2,
            lvl2,
            pa2,
            fl2,
        ) implies chunk_settled(f, va2, lvl2, pa2, fl2) by {
        lemma_chunk_alignment(va2, lvl2, pa2);
        let target2 = leaf_entry(pa2, fl2);
        assert(pte_ppn(target2) == pa2 / 4096 && pte_valid(target2) && pte_leaf(target2))
            by (nonlinear_arith)
            requires
                target2 == (pa2 / 4096) * 1024 + fl2,
                pa2 / 4096 < 0x1000_0000_0000,
                fl2 < 1024,
                fl2 % 2 == 1,
                (fl2 / 2) % 8 != 0,
        ;
        let u2 = vpn2(va2);
        assert(0 <= u2 < o.root_width) by {
            assert(va2 / 0x4000_0000 < o.root_width) by (nonlinear_arith)
                requires
                    va2 < o.root_width as int * 0x4000_0000,
            ;
        }
        let e2 = ent(o, 0, u2);
        // the root slot of the foreign chunk is never the dead entry
        assert(!(n == 0 && i == u2) ==> ent(f, 0, u2) == e2);
        if n == 0 && i == u2 {
            if lvl2 == 2 {
                assert(pte_ppn(target2) % 0x40000 == 0);
                assert(false);
            } else {
                assert(false);
            }
        }
        if lvl2 < 2 && pte_pointer(e2) {
            let p1 = pte_ppn(e2) as int;
            let e1 = ent(o, p1, vpn1(va2));
            if n == p1 && i == vpn1(va2) {
                // the dead entry cannot be the foreign chunk's level-1 slot
                if pte_pointer(e1) || (pte_valid(e1) && pte_leaf(e1) && pte_ppn(e1) % 512 == 0) {
                    assert(false);
                } else if lvl2 == 1 && e1 == target2 {
                    assert(pte_ppn(target2) % 512 == 0);
                    assert(false);
                }
            }
            if chunk_settled(o, va2, lvl2, pa2, fl2) && !(pte_valid(e2) && pte_leaf(e2)) {
                assert(ent(f, p1, vpn1(va2)) == e1);
                if lvl2 == 0 && pte_pointer(e1) {
                    let p0 = pte_ppn(e1) as int;
                    if n == p0 && i == vpn0(va2) {
                        // node n would have two parents
                        assert(n >= 1);
                        let w2 = choose|w2: int|
                            0 <= w2 < o.root_width && pte_pointer(#[trigger] ent(o, 0, w2))
                                && pte_ppn(ent(o, 0, w2)) == n;
                        assert(pte_pointer(ent(o, 0, w2)) && pte_pointer(ent(o, p1, vpn1(va2)))
                            && pte_ppn(ent(o, 0, w2)) == pte_ppn(ent(o, p1, vpn1(va2))));
                        assert(false);
                    }
                    assert(ent(f, p0, vpn0(va2)) == ent(o, p0, vpn0(va2)));
                }
            }
        }
    }
}


/// Slot-wise equal tables translate every in-space address alike.
proof fn lemma_addr_eq_from_slots(p1: PageTable, p2: PageTable)
    requires
        p1.root_width == p2.root_width,
        forall|v2: int, v1: int, v0: int|
            0 <= v2 < p1.root_width && 0 <= v1 < 512 && 0 <= v0 < 512 ==> translate_slot(
                p1,
                v2,
                v1,
                v0,
            ) == translate_slot(p2, v2, v1, v0),
    ensures
        forall|a: u64|
            a < p1.space_size() ==> #[trigger] translate_addr(p1, a) == translate_addr(p2, a),
{
    assert forall|a: u64| a < p1.space_size() implies #[trigger] translate_addr(p1, a)
        == translate_addr(p2, a) by {
        assert(0 <= vpn2(a) < p1.root_width) by (nonlinear_arith)
            requires
                a < p1.root_width as int * 0x4000_0000,
        ;
        assert(0 <= vpn1(a) < 512 && 0 <= vpn0(a) < 512);
    }
}


/// Why a table could not be built.
#[derive(Clone, Copy, PartialEq, Eq, Structural, Debug)]
pub enum PageTableError {
    /// The node arena reached its capacity.
    ArenaExhausted,
}

/// Premise of mapping one chunk: a well-formed table and chunk, and a table
/// that nowhere contradicts the chunk's translation.
pub open spec fn map_chunk_pre(o: PageTable, va: u64, lvl: int, pa: u64, flags: u8) -> bool {
    &&& o.wf()
    &&& wf_chunk(o, va, lvl, pa, flags)
    &&& forall|a: u64|
        in_chunk(a, va, lvl) ==> translate_addr(o, a) is None || translate_addr(o, a)
            == chunk_target(a, va, pa, flags)
}

/// Outcome of mapping one chunk: the chunk translates to its target and is
/// settled, nothing else moved, a settled table stays untouched, and settled
/// chunks that do not cross this one stay settled.
pub open spec fn map_chunk_post(
    o: PageTable,
    f: PageTable,
    va: u64,
    lvl: int,
    pa: u64,
    flags: u8,
) -> bool {
    &&& f.wf()
    &&& f.root_width == o.root_width
    &&& f.nodes@.len() >= o.nodes@.len()
    &&& forall|a: u64|
        in_chunk(a, va, lvl) ==> translate_addr(f, a) == chunk_target(a, va, pa, flags)
    &&& forall|a: u64|
        a < o.space_size() && a % 4096 == 0 && !in_chunk(a, va, lvl) ==> #[trigger] translate_addr(
            f,
            a,
        ) == translate_addr(o, a)
    &&& chunk_settled(f, va, lvl, pa, flags)
    &&& (chunk_settled(o, va, lvl, pa, flags) ==> f == o)
    &&& forall|va2: u64, lvl2: int, pa2: u64, fl2: u8|
        wf_chunk(o, va2, lvl2, pa2, fl2) && #[trigger] chunk_settled(o, va2, lvl2, pa2, fl2) && (
        chunks_disjoint(va, lvl, va2, lvl2) || (va2 == va && lvl2 == lvl && pa2 == pa && fl2
            == flags)) ==> chunk_settled(f, va2, lvl2, pa2, fl2)
}

/// Outcome of a failed mapping: a well-formed table that translates as
/// before — and an arena that genuinely hit its capacity.
pub open spec fn map_chunk_err_post(o: PageTable, f: PageTable) -> bool {
    &&& f.wf()
    &&& f.root_width == o.root_width
    &&& f.nodes@.len() >= o.nodes@.len()
    &&& f.nodes@.len() >= 0x10_0000
    &&& forall|a: u64|
        a < o.space_size() ==> #[trigger] translate_addr(f, a) == translate_addr(o, a)
}

/// Map a 1 GiB chunk: its leaf lives in the root node.
#[verifier::spinoff_prover]
#[verifier::rlimit(100)]
fn map_chunk_lv2(pt: &mut PageTable, va: u64, pa: u64, flags: u8)
    requires
        map_chunk_pre(*old(pt), va, 2, pa, flags),
    ensures
        map_chunk_post(*old(pt), *final(pt), va, 2, pa, flags),
{
    let ghost o = *pt;
    proof {
        lemma_chunk_alignment(va, 2, pa);
        assert(va / 0x4000_0000 < o.root_width) by (nonlinear_arith)
            requires
                va < o.root_width as int * 0x4000_0000,
        ;
    }
    let v2 = (va / 0x4000_0000) as usize;
    let target: u64 = (pa / 4096) * 1024 + flags as u64;
    proof {
        assert(target == leaf_entry(pa, flags));
    }
    let e2 = pt.nodes[0][v2];
    if e2 == target {
        proof {
            assert(chunk_exact(o, va, 2, pa, flags));
            lemma_exact_implies_mapped(o, va, 2, pa, flags);
        }
        return ;
    }
    pt.nodes[0][v2] = target;
    proof {
        assert(differs_at(o, *pt, 0, v2 as int, target));
        lemma_write_leaf_effect(o, *pt, va, 2, pa, flags, 0, v2 as int);
        lemma_exact_implies_mapped(*pt, va, 2, pa, flags);
    }
}

/// Map a 2 MiB chunk: descend once from the root, then write the leaf.
#[verifier::spinoff_prover]
#[verifier::rlimit(100)]
fn map_chunk_lv1(pt: &mut PageTable, va: u64, pa: u64, flags: u8) -> (r: Result<
    (),
    PageTableError,
>)
    requires
        map_chunk_pre(*old(pt), va, 1, pa, flags),
    ensures
        r is Ok ==> map_chunk_post(*old(pt), *final(pt), va, 1, pa, flags),
        r is Err ==> map_chunk_err_post(*old(pt), *final(pt)),
{
    let ghost o = *pt;
    proof {
        lemma_chunk_alignment(va, 1, pa);
        assert(va / 0x4000_0000 < o.root_width) by (nonlinear_arith)
            requires
                va < o.root_width as int * 0x4000_0000,
        ;
    }
    let v2 = (va / 0x4000_0000) as usize;
    let target: u64 = (pa / 4096) * 1024 + flags as u64;
    proof {
        assert(target == leaf_entry(pa, flags));
    }
    let e2 = pt.nodes[0][v2];
    let n1: usize;
    if e2 % 2 == 1 && (e2 / 2) % 8 != 0 && (e2 / 1024) % 0x40000 == 0 {
        // an aligned 1 GiB leaf covers the chunk; by compatibility it already
        // carries the chunk's translation
        proof {
            lemma_covered_by_super(o, va, 1, pa, flags);
        }
        return Ok(());
    } else if e2 % 2 == 1 && (e2 / 2) % 8 == 0 {
        n1 = (e2 / 1024) as usize;
    } else {
        if pt.nodes.len() >= 0x10_0000 {
            return Err(PageTableError::ArenaExhausted);
        }
        n1 = alloc_child(pt, 0, v2);
        proof {
            lemma_alloc_keeps_settled(o, *pt, 0, v2 as int);
            lemma_addr_eq_from_slots(*pt, o);
            assert(!chunk_settled(o, va, 1, pa, flags)) by {
                        }
        }
    }
    let ghost mid = *pt;
    proof {
        assert(pte_pointer(ent(mid, 0, v2 as int)) && pte_ppn(ent(mid, 0, v2 as int)) == n1);
        assert(forall|a: u64|
            a < o.space_size() ==> #[trigger] translate_addr(mid, a) == translate_addr(o, a));
        assert(forall|va2: u64, lvl2: int, pa2: u64, fl2: u8|
            wf_chunk(o, va2, lvl2, pa2, fl2) && #[trigger] chunk_settled(o, va2, lvl2, pa2, fl2)
                ==> chunk_settled(mid, va2, lvl2, pa2, fl2));
    }
    let v1 = ((va / 0x20_0000) % 512) as usize;
    let e1 = pt.nodes[n1][v1];
    if e1 == target {
        proof {
            assert(chunk_exact(mid, va, 1, pa, flags));
            lemma_exact_implies_mapped(mid, va, 1, pa, flags);
            assert(chunk_settled(o, va, 1, pa, flags) ==> *pt == o) by {
                        }
        }
        return Ok(());
    }
    pt.nodes[n1][v1] = target;
    proof {
        assert(differs_at(mid, *pt, n1 as int, v1 as int, target));
        lemma_write_leaf_effect(mid, *pt, va, 1, pa, flags, n1 as int, v1 as int);
        lemma_exact_implies_mapped(*pt, va, 1, pa, flags);
        assert(!chunk_settled(o, va, 1, pa, flags)) by {
            if chunk_settled(o, va, 1, pa, flags) {
                assert(mid == o);
                assert(ent(o, 0, v2 as int) == e2);
            }
        }
        assert forall|a: u64| a < o.space_size() && a % 4096 == 0 && !in_chunk(a, va, 1) implies
            #[trigger] translate_addr(*pt, a) == translate_addr(o, a) by {
            assert(translate_addr(*pt, a) == translate_addr(mid, a));
        }
        assert forall|va2: u64, lvl2: int, pa2: u64, fl2: u8|
            wf_chunk(o, va2, lvl2, pa2, fl2) && #[trigger] chunk_settled(o, va2, lvl2, pa2, fl2)
                && (chunks_disjoint(va, 1, va2, lvl2) || (va2 == va && lvl2 == 1 && pa2 == pa
                && fl2 == flags)) implies chunk_settled(*pt, va2, lvl2, pa2, fl2) by {
            assert(chunk_settled(mid, va2, lvl2, pa2, fl2));
            assert(wf_chunk(mid, va2, lvl2, pa2, fl2));
        }
    }
    Ok(())
}

/// Outcome of descending to the level-0 node of a 4 KiB chunk.
enum DescendLv0 {
    /// An aligned superpage leaf already covers the chunk.
    Covered,
    /// The node with this arena index is in place.
    Node(usize),
    /// The arena is full.
    Full,
}

/// Secure the level-1 node under a 4 KiB chunk's root slot.
#[verifier::spinoff_prover]
#[verifier::rlimit(100)]
fn secure_l1_node(pt: &mut PageTable, va: u64, pa: u64, flags: u8) -> (r: DescendLv0)
    requires
        map_chunk_pre(*old(pt), va, 0, pa, flags),
    ensures
        final(pt).wf(),
        final(pt).root_width == old(pt).root_width,
        final(pt).nodes@.len() >= old(pt).nodes@.len(),
        forall|a: u64|
            a < old(pt).space_size() ==> #[trigger] translate_addr(*final(pt), a) == translate_addr(
                *old(pt),
                a,
            ),
        forall|va2: u64, lvl2: int, pa2: u64, fl2: u8|
            wf_chunk(*old(pt), va2, lvl2, pa2, fl2) && #[trigger] chunk_settled(
                *old(pt),
                va2,
                lvl2,
                pa2,
                fl2,
            ) ==> chunk_settled(*final(pt), va2, lvl2, pa2, fl2),
        r is Covered ==> map_chunk_post(*old(pt), *final(pt), va, 0, pa, flags),
        r is Full ==> final(pt).nodes@.len() >= 0x10_0000,
        r matches DescendLv0::Node(n1) ==> {
            &&& pte_pointer(ent(*final(pt), 0, vpn2(va)))
            &&& n1 == pte_ppn(ent(*final(pt), 0, vpn2(va)))
            &&& (chunk_settled(*old(pt), va, 0, pa, flags) ==> *final(pt) == *old(pt))
        },
{
    let ghost o = *pt;
    proof {
        lemma_chunk_alignment(va, 0, pa);
        assert(va / 0x4000_0000 < o.root_width) by (nonlinear_arith)
            requires
                va < o.root_width as int * 0x4000_0000,
        ;
    }
    let v2 = (va / 0x4000_0000) as usize;
    let e2 = pt.nodes[0][v2];
    if e2 % 2 == 1 && (e2 / 2) % 8 != 0 && (e2 / 1024) % 0x40000 == 0 {
        proof {
            lemma_covered_by_super(o, va, 0, pa, flags);
        }
        return DescendLv0::Covered;
    } else if e2 % 2 == 1 && (e2 / 2) % 8 == 0 {
        return DescendLv0::Node((e2 / 1024) as usize);
    } else {
        if pt.nodes.len() >= 0x10_0000 {
            return DescendLv0::Full;
        }
        let n1 = alloc_child(pt, 0, v2);
        proof {
            lemma_alloc_keeps_settled(o, *pt, 0, v2 as int);
            lemma_addr_eq_from_slots(*pt, o);
            assert(!chunk_settled(o, va, 0, pa, flags));
        }
        return DescendLv0::Node(n1);
    }
}

/// Descend to (or build) the level-0 node under a 4 KiB chunk's path.
#[verifier::spinoff_prover]
#[verifier::rlimit(100)]
fn descend_lv0(pt: &mut PageTable, va: u64, pa: u64, flags: u8) -> (r: DescendLv0)
    requires
        map_chunk_pre(*old(pt), va, 0, pa, flags),
    ensures
        final(pt).wf(),
        final(pt).root_width == old(pt).root_width,
        final(pt).nodes@.len() >= old(pt).nodes@.len(),
        forall|a: u64|
            a < old(pt).space_size() ==> #[trigger] translate_addr(*final(pt), a) == translate_addr(
                *old(pt),
                a,
            ),
        forall|va2: u64, lvl2: int, pa2: u64, fl2: u8|
            wf_chunk(*old(pt), va2, lvl2, pa2, fl2) && #[trigger] chunk_settled(
                *old(pt),
                va2,
                lvl2,
                pa2,
                fl2,
            ) ==> chunk_settled(*final(pt), va2, lvl2, pa2, fl2),
        r is Covered ==> map_chunk_post(*old(pt), *final(pt), va, 0, pa, flags),
        r is Full ==> final(pt).nodes@.len() >= 0x10_0000,
        r matches DescendLv0::Node(n0) ==> {
            &&& pte_pointer(ent(*final(pt), 0, vpn2(va)))
            &&& pte_pointer(
                ent(*final(pt), pte_ppn(ent(*final(pt), 0, vpn2(va))) as int, vpn1(va)),
            )
            &&& n0 == pte_ppn(
                ent(*final(pt), pte_ppn(ent(*final(pt), 0, vpn2(va))) as int, vpn1(va)),
            )
            &&& (chunk_settled(*old(pt), va, 0, pa, flags) ==> *final(pt) == *old(pt) && ent(
                *final(pt),
                n0 as int,
                vpn0(va),
            ) == leaf_entry(pa, flags))
        },
{
    let ghost o = *pt;
    proof {
        lemma_chunk_alignment(va, 0, pa);
    }
    let n1: usize;
    match secure_l1_node(pt, va, pa, flags) {
        DescendLv0::Covered => {
            return DescendLv0::Covered;
        },
        DescendLv0::Full => {
            return DescendLv0::Full;
        },
        DescendLv0::Node(n) => {
            n1 = n;
        },
    }
    let ghost mid = *pt;
    let v2 = (va / 0x4000_0000) as usize;
    proof {
        assert(va / 0x4000_0000 < o.root_width) by (nonlinear_arith)
            requires
                va < o.root_width as int * 0x4000_0000,
        ;
        assert(pte_pointer(ent(mid, 0, v2 as int)) && pte_ppn(ent(mid, 0, v2 as int)) == n1);
    }
    let v1 = ((va / 0x20_0000) % 512) as usize;
    let e1 = pt.nodes[n1][v1];
    if e1 % 2 == 1 && (e1 / 2) % 8 != 0 && (e1 / 1024) % 512 == 0 {
        proof {
            assert forall|a: u64| in_chunk(a, va, 0) implies translate_addr(mid, a) is None
                || translate_addr(mid, a) == chunk_target(a, va, pa, flags) by {
                assert(a < o.space_size());
                assert(translate_addr(mid, a) == translate_addr(o, a));
            }
            lemma_covered_by_super(mid, va, 0, pa, flags);
            assert forall|a: u64| in_chunk(a, va, 0) implies translate_addr(*pt, a)
                == chunk_target(a, va, pa, flags) by {
                assert(translate_addr(mid, a) == chunk_target(a, va, pa, flags));
            }
            assert(chunk_settled(o, va, 0, pa, flags) ==> *pt == o);
        }
        return DescendLv0::Covered;
    } else if e1 % 2 == 1 && (e1 / 2) % 8 == 0 {
        let n0 = (e1 / 1024) as usize;
        proof {
            if chunk_settled(o, va, 0, pa, flags) {
                assert(mid == o);
                assert(ent(o, n1 as int, v1 as int) == e1);
            }
        }
        return DescendLv0::Node(n0);
    } else {
        if pt.nodes.len() >= 0x10_0000 {
            return DescendLv0::Full;
        }
        proof {
            assert(n1 >= 1);
        }
        let n0 = alloc_child(pt, n1, v1);
        proof {
            lemma_alloc_keeps_settled(mid, *pt, n1 as int, v1 as int);
            lemma_addr_eq_from_slots(*pt, mid);
            assert(!chunk_settled(o, va, 0, pa, flags)) by {
                if chunk_settled(o, va, 0, pa, flags) {
                    assert(chunk_settled(mid, va, 0, pa, flags));
                    assert(ent(mid, n1 as int, v1 as int) == e1);
                }
            }
            assert(ent(*pt, 0, v2 as int) == ent(mid, 0, v2 as int));
        }
        return DescendLv0::Node(n0);
    }
}

/// Map a 4 KiB chunk: descend twice from the root, then write the leaf.
#[verifier::spinoff_prover]
#[verifier::rlimit(100)]
fn map_chunk_lv0(pt: &mut PageTable, va: u64, pa: u64, flags: u8) -> (r: Result<
    (),
    PageTableError,
>)
    requires
        map_chunk_pre(*old(pt), va, 0, pa, flags),
    ensures
        r is Ok ==> map_chunk_post(*old(pt), *final(pt), va, 0, pa, flags),
        r is Err ==> map_chunk_err_post(*old(pt), *final(pt)),
{
    let ghost o = *pt;
    proof {
        lemma_chunk_alignment(va, 0, pa);
    }
    let target: u64 = (pa / 4096) * 1024 + flags as u64;
    proof {
        assert(target == leaf_entry(pa, flags));
    }
    let n0: usize;
    match descend_lv0(pt, va, pa, flags) {
        DescendLv0::Covered => {
            return Ok(());
        },
        DescendLv0::Full => {
            return Err(PageTableError::ArenaExhausted);
        },
        DescendLv0::Node(n) => {
            n0 = n;
        },
    }
    let ghost mid2 = *pt;
    proof {
        assert(forall|a: u64|
            in_chunk(a, va, 0) ==> translate_addr(mid2, a) is None || translate_addr(mid2, a)
                == chunk_target(a, va, pa, flags)) by {
            assert forall|a: u64| in_chunk(a, va, 0) implies translate_addr(mid2, a) is None
                || translate_addr(mid2, a) == chunk_target(a, va, pa, flags) by {
                assert(a < o.space_size());
                assert(translate_addr(mid2, a) == translate_addr(o, a));
            }
        }
    }
    let v0 = ((va / 0x1000) % 512) as usize;
    let e0 = pt.nodes[n0][v0];
    if e0 == target {
        proof {
            assert(chunk_exact(mid2, va, 0, pa, flags));
            lemma_exact_implies_mapped(mid2, va, 0, pa, flags);
            assert(chunk_settled(o, va, 0, pa, flags) ==> *pt == o);
        }
        return Ok(());
    }
    pt.nodes[n0][v0] = target;
    proof {
        assert(differs_at(mid2, *pt, n0 as int, v0 as int, target));
        lemma_write_leaf_effect(mid2, *pt, va, 0, pa, flags, n0 as int, v0 as int);
        lemma_exact_implies_mapped(*pt, va, 0, pa, flags);
        assert(!chunk_settled(o, va, 0, pa, flags)) by {
            if chunk_settled(o, va, 0, pa, flags) {
                assert(mid2 == o);
                assert(ent(o, n0 as int, v0 as int) == e0);
            }
        }
        assert forall|a: u64| a < o.space_size() && a % 4096 == 0 && !in_chunk(a, va, 0) implies
            #[trigger] translate_addr(*pt, a) == translate_addr(o, a) by {
            assert(translate_addr(*pt, a) == translate_addr(mid2, a));
        }
        assert forall|va2: u64, lvl2: int, pa2: u64, fl2: u8|
            wf_chunk(o, va2, lvl2, pa2, fl2) && #[trigger] chunk_settled(o, va2, lvl2, pa2, fl2)
                && (chunks_disjoint(va, 0, va2, lvl2) || (va2 == va && lvl2 == 0 && pa2 == pa
                && fl2 == flags)) implies chunk_settled(*pt, va2, lvl2, pa2, fl2) by {
            assert(chunk_settled(mid2, va2, lvl2, pa2, fl2));
            assert(wf_chunk(mid2, va2, lvl2, pa2, fl2));
        }
    }
    Ok(())
}

/// Map one chunk at the given level.
fn map_chunk(pt: &mut PageTable, va: u64, pa: u64, lvl: usize, flags: u8) -> (r: Result<
    (),
    PageTableError,
>)
    requires
        lvl <= 2,
        map_chunk_pre(*old(pt), va, lvl as int, pa, flags),
    ensures
        r is Ok ==> map_chunk_post(*old(pt), *final(pt), va, lvl as int, pa, flags),
        r is Err ==> map_chunk_err_post(*old(pt), *final(pt)),
{
    if lvl == 2 {
        map_chunk_lv2(pt, va, pa, flags);
        Ok(())
    } else if lvl == 1 {
        map_chunk_lv1(pt, va, pa, flags)
    } else {
        map_chunk_lv0(pt, va, pa, flags)
    }
}


/// The coarsest level whose page size divides both addresses and fits the
/// remaining length.
pub open spec fn spec_best_level(va: int, pa: int, rem: int) -> int {
    if va % 0x4000_0000 == 0 && pa % 0x4000_0000 == 0 && rem >= 0x4000_0000 {
        2
    } else if va % 0x20_0000 == 0 && pa % 0x20_0000 == 0 && rem >= 0x20_0000 {
        1
    } else {
        0
    }
}

/// The largest-fitting chunk decomposition of a region: triples of guest
/// address, host address and level.
pub open spec fn chunks_from(va: int, pa: int, rem: int) -> Seq<(int, int, int)>
    decreases rem,
{
    if rem < 0x1000 {
        Seq::empty()
    } else {
        let l = spec_best_level(va, pa, rem);
        seq![(va, pa, l)] + chunks_from(va + level_size(l), pa + level_size(l), rem - level_size(l))
    }
}

/// The chunk decomposition of one memory map.
pub open spec fn map_chunks(m: MemoryMap) -> Seq<(int, int, int)> {
    chunks_from(m.virt.start as int, m.phys.start as int, m.virt.spec_len())
}

/// Whether a chunk triple of a map is settled in the table.
pub open spec fn tuple_settled(pt: PageTable, c: (int, int, int), flags: u8) -> bool {
    chunk_settled(pt, c.0 as u64, c.2, c.1 as u64, flags)
}

/// Whether every chunk of the map stands settled in the table.
pub open spec fn map_settled(pt: PageTable, m: MemoryMap) -> bool {
    forall|k: int|
        0 <= k < map_chunks(m).len() ==> tuple_settled(pt, #[trigger] map_chunks(m)[k], m.flags)
}

/// The translation a map dictates for a page inside it.
pub open spec fn map_target(m: MemoryMap, a: u64) -> Option<(int, u64)> {
    Some(((m.phys.start + (a - m.virt.start)) / 4096, m.flags as u64))
}

/// Shape of the chunk decomposition: chunks are aligned to their level, keep
/// the region's guest-to-host phase, stay inside the region, and sit in
/// ascending disjoint order.
proof fn lemma_chunks_props(va: int, pa: int, rem: int)
    requires
        va >= 0,
        pa >= 0,
        va % 4096 == 0,
        pa % 4096 == 0,
        rem % 4096 == 0,
        rem >= 0,
    ensures
        forall|k: int|
            0 <= k < chunks_from(va, pa, rem).len() ==> {
                let c = #[trigger] chunks_from(va, pa, rem)[k];
                &&& 0 <= c.2 <= 2
                &&& c.0 % level_size(c.2) == 0
                &&& c.1 % level_size(c.2) == 0
                &&& va <= c.0
                &&& c.0 + level_size(c.2) <= va + rem
                &&& c.1 - c.0 == pa - va
            },
        forall|k1: int, k2: int|
            0 <= k1 < k2 < chunks_from(va, pa, rem).len() ==> (#[trigger] chunks_from(
                va,
                pa,
                rem,
            )[k1]).0 + level_size(chunks_from(va, pa, rem)[k1].2) <= (#[trigger] chunks_from(
                va,
                pa,
                rem,
            )[k2]).0,
    decreases rem,
{
    if rem >= 0x1000 {
        let l = spec_best_level(va, pa, rem);
        let sz = level_size(l);
        assert(va % sz == 0 && pa % sz == 0 && rem >= sz);
        assert((va + sz) % 4096 == 0 && (pa + sz) % 4096 == 0 && (rem - sz) % 4096 == 0) by {
            if l == 2 {
                lemma_mod_factor(va, 4096, 0x40000);
                lemma_mod_factor(pa, 4096, 0x40000);
                lemma_div_add(va, sz, 4096);
                lemma_div_add(pa, sz, 4096);
                assert((va + sz) % 4096 == sz % 4096);
                assert((rem - sz) % 4096 == 0) by (nonlinear_arith)
                    requires
                        rem % 4096 == 0,
                        sz == 0x4000_0000,
                        rem >= sz,
                ;
            } else if l == 1 {
                lemma_div_add(va, sz, 4096);
                lemma_div_add(pa, sz, 4096);
                assert((rem - sz) % 4096 == 0) by (nonlinear_arith)
                    requires
                        rem % 4096 == 0,
                        sz == 0x20_0000,
                        rem >= sz,
                ;
            } else {
                lemma_div_add(va, sz, 4096);
                lemma_div_add(pa, sz, 4096);
                assert(rem >= sz) by (nonlinear_arith)
                    requires
                        rem % 4096 == 0,
                        rem >= 0x1000,
                        sz == 0x1000,
                ;
                assert((rem - sz) % 4096 == 0) by (nonlinear_arith)
                    requires
                        rem % 4096 == 0,
                        sz == 0x1000,
                        rem >= sz,
                ;
            }
        }
        assert(rem >= sz) by {
            if l == 0 {
                assert(rem >= 0x1000);
            }
        }
        lemma_chunks_props(va + sz, pa + sz, rem - sz);
        let tail = chunks_from(va + sz, pa + sz, rem - sz);
        assert(chunks_from(va, pa, rem) == seq![(va, pa, l)] + tail);
        assert forall|k: int| 0 <= k < chunks_from(va, pa, rem).len() implies {
            let c = #[trigger] chunks_from(va, pa, rem)[k];
            &&& 0 <= c.2 <= 2
            &&& c.0 % level_size(c.2) == 0
            &&& c.1 % level_size(c.2) == 0
            &&& va <= c.0
            &&& c.0 + level_size(c.2) <= va + rem
            &&& c.1 - c.0 == pa - va
        } by {
            if k == 0 {
                assert(chunks_from(va, pa, rem)[0] == (va, pa, l));
            } else {
                assert(chunks_from(va, pa, rem)[k] == tail[k - 1]);
            }
        }
        assert forall|k1: int, k2: int|
            0 <= k1 < k2 < chunks_from(va, pa, rem).len() implies (#[trigger] chunks_from(
            va,
            pa,
            rem,
        )[k1]).0 + level_size(chunks_from(va, pa, rem)[k1].2) <= (#[trigger] chunks_from(
            va,
            pa,
            rem,
        )[k2]).0 by {
            if k1 == 0 {
                assert(chunks_from(va, pa, rem)[k2] == tail[k2 - 1]);
            } else {
                assert(chunks_from(va, pa, rem)[k1] == tail[k1 - 1]);
                assert(chunks_from(va, pa, rem)[k2] == tail[k2 - 1]);
            }
        }
    }
}



/// After one chunk of `m` is mapped, the already-settled prefix of `m`'s
/// chunks, and the new chunk, are settled.
#[verifier::spinoff_prover]
#[verifier::rlimit(100)]
proof fn lemma_step_settles_prefix(
    pre: PageTable,
    cur: PageTable,
    m: MemoryMap,
    va: u64,
    pa: u64,
    lvl: int,
    idx: int,
)
    requires
        pre.wf(),
        m.wf(),
        m.virt.end <= pre.space_size(),
        map_chunk_post(pre, cur, va, lvl, pa, m.flags),
        0 <= idx < map_chunks(m).len(),
        map_chunks(m)[idx] == (va as int, pa as int, lvl),
        forall|k: int| 0 <= k < idx ==> tuple_settled(pre, #[trigger] map_chunks(m)[k], m.flags),
    ensures
        forall|k: int| 0 <= k < idx + 1 ==> tuple_settled(cur, #[trigger] map_chunks(m)[k], m.flags),
{
    lemma_chunks_props(m.virt.start as int, m.phys.start as int, m.virt.spec_len());
    assert forall|k: int| 0 <= k < idx + 1 implies tuple_settled(
        cur,
        #[trigger] map_chunks(m)[k],
        m.flags,
    ) by {
        let c = map_chunks(m)[k];
        if k < idx {
            assert(wf_chunk(pre, c.0 as u64, c.2, c.1 as u64, m.flags)) by {
                assert(c.1 + level_size(c.2) <= m.phys.end);
            }
            assert(chunks_disjoint(va, lvl, c.0 as u64, c.2)) by {
                assert(c.0 + level_size(c.2) <= va as int);
            }
            assert(tuple_settled(pre, map_chunks(m)[k], m.flags));
        } else {
            assert(c == (va as int, pa as int, lvl));
        }
    }
}

/// After one chunk of `m` is mapped, any map settled before — one disjoint
/// from `m` or identical to it — is still settled.
#[verifier::spinoff_prover]
#[verifier::rlimit(100)]
proof fn lemma_step_preserves_settled_map(
    pre: PageTable,
    cur: PageTable,
    m: MemoryMap,
    mi: MemoryMap,
    va: u64,
    pa: u64,
    lvl: int,
    idx: int,
)
    requires
        pre.wf(),
        m.wf(),
        mi.wf(),
        m.virt.end <= pre.space_size(),
        mi.virt.end <= pre.space_size(),
        map_chunk_post(pre, cur, va, lvl, pa, m.flags),
        0 <= idx < map_chunks(m).len(),
        map_chunks(m)[idx] == (va as int, pa as int, lvl),
        mi.virt.end <= m.virt.start || m.virt.end <= mi.virt.start || mi == m,
        map_settled(pre, mi),
    ensures
        map_settled(cur, mi),
{
    lemma_chunks_props(m.virt.start as int, m.phys.start as int, m.virt.spec_len());
    lemma_chunks_props(mi.virt.start as int, mi.phys.start as int, mi.virt.spec_len());
    let sz = level_size(lvl);
    assert(m.virt.start <= va && va + sz <= m.virt.end);
    assert forall|k: int| 0 <= k < map_chunks(mi).len() implies tuple_settled(
        cur,
        #[trigger] map_chunks(mi)[k],
        mi.flags,
    ) by {
        let c = map_chunks(mi)[k];
        assert(tuple_settled(pre, c, mi.flags));
        assert(wf_chunk(pre, c.0 as u64, c.2, c.1 as u64, mi.flags)) by {
            assert(c.1 + level_size(c.2) <= mi.phys.end);
        }
        if mi == m {
            if c == (va as int, pa as int, lvl) && mi.flags == m.flags {
                assert(chunk_settled(cur, va, lvl, pa, m.flags));
            } else {
                assert(c == map_chunks(m)[k]);
                if k == idx {
                } else if k < idx {
                    assert(map_chunks(m)[k].0 + level_size(map_chunks(m)[k].2)
                        <= map_chunks(m)[idx].0);
                    assert(chunks_disjoint(va, lvl, c.0 as u64, c.2));
                } else {
                    assert(map_chunks(m)[idx].0 + level_size(map_chunks(m)[idx].2)
                        <= map_chunks(m)[k].0);
                    assert(chunks_disjoint(va, lvl, c.0 as u64, c.2));
                }
            }
        } else {
            assert(chunks_disjoint(va, lvl, c.0 as u64, c.2)) by {
                assert(mi.virt.start <= c.0 && c.0 + level_size(c.2) <= mi.virt.end);
            }
        }
    }
}



/// The next chunk of a region in mid-traversal satisfies the mapping premise.
#[verifier::spinoff_prover]
#[verifier::rlimit(100)]
proof fn lemma_region_chunk_pre(
    o: PageTable,
    pre: PageTable,
    m: MemoryMap,
    va: u64,
    pa: u64,
    lvl: int,
    idx: int,
)
    requires
        o.wf(),
        pre.wf(),
        pre.root_width == o.root_width,
        m.wf(),
        m.virt.end <= o.space_size(),
        m.virt.start <= va < m.virt.end,
        va % 4096 == 0,
        pa == m.phys.start + (va - m.virt.start),
        0 <= idx <= map_chunks(m).len(),
        chunks_from(va as int, pa as int, m.virt.end - va) == map_chunks(m).skip(idx),
        lvl == spec_best_level(va as int, pa as int, m.virt.end - va),
        forall|a: u64|
            m.virt.contains(a) && a % 4096 == 0 ==> translate_addr(o, a) is None || translate_addr(
                o,
                a,
            ) == map_target(m, a),
        forall|a: u64|
            a < o.space_size() && a % 4096 == 0 && !(m.virt.start <= a < va)
                ==> #[trigger] translate_addr(pre, a) == translate_addr(o, a),
    ensures
        idx < map_chunks(m).len(),
        map_chunks(m)[idx] == (va as int, pa as int, lvl),
        va as int + level_size(lvl) <= m.virt.end,
        pa as int + level_size(lvl) <= m.phys.end,
        map_chunk_pre(pre, va, lvl, pa, m.flags),
        chunks_from(va as int + level_size(lvl), pa as int + level_size(lvl), m.virt.end - va
            - level_size(lvl)) == map_chunks(m).skip(idx + 1),
        (va as int + level_size(lvl)) % 4096 == 0,
{
    let rem = m.virt.end - va;
    let sz = level_size(lvl);
    assert(rem % 4096 == 0) by {
        lemma_div_add(m.virt.start as int, va - m.virt.start, 4096);
        lemma_div_add(va as int, m.virt.end - va, 4096);
    }
    assert(rem >= 0x1000) by (nonlinear_arith)
        requires
            rem > 0,
            rem % 4096 == 0,
    ;
    assert(chunks_from(va as int, pa as int, rem) == seq![(va as int, pa as int, lvl)]
        + chunks_from(va + sz, pa + sz, rem - sz));
    assert(map_chunks(m)[idx] == (va as int, pa as int, lvl)) by {
        assert(map_chunks(m).skip(idx)[0] == map_chunks(m)[idx]);
    }
    assert(idx < map_chunks(m).len());
    assert(sz <= rem) by {
        if lvl == 0 {
        }
    }
    assert(wf_chunk(pre, va, lvl, pa, m.flags));
    assert forall|a: u64| in_chunk(a, va, lvl) implies translate_addr(pre, a) is None
        || translate_addr(pre, a) == chunk_target(a, va, pa, m.flags) by {
        assert(m.virt.contains(a) && !(m.virt.start <= a < va));
        assert(translate_addr(pre, a) == translate_addr(o, a));
        assert(chunk_target(a, va, pa, m.flags) == map_target(m, a));
    }
    assert(chunks_from(va + sz, pa + sz, rem - sz) == map_chunks(m).skip(idx + 1)) by {
        assert(map_chunks(m).skip(idx + 1) =~= map_chunks(m).skip(idx).skip(1));
        assert((seq![(va as int, pa as int, lvl)] + chunks_from(va + sz, pa + sz, rem - sz)).skip(1)
            =~= chunks_from(va + sz, pa + sz, rem - sz));
    }
    assert((va as int + sz) % 4096 == 0) by {
        if lvl == 2 {
            lemma_mod_factor(va as int, 4096, 0x40000);
            lemma_div_add(va as int, sz, 4096);
        } else if lvl == 1 {
            lemma_mod_factor(va as int, 4096, 512);
            lemma_div_add(va as int, sz, 4096);
        } else {
            lemma_div_add(va as int, sz, 4096);
        }
    }
}

/// One mapped chunk advances the region traversal: the mapped prefix grows,
/// the outside stays put, settled things stay settled.
#[verifier::spinoff_prover]
#[verifier::rlimit(100)]
proof fn lemma_region_step(
    o: PageTable,
    pre: PageTable,
    cur: PageTable,
    m: MemoryMap,
    va: u64,
    pa: u64,
    lvl: int,
    idx: int,
)
    requires
        o.wf(),
        pre.wf(),
        pre.root_width == o.root_width,
        m.wf(),
        m.virt.end <= o.space_size(),
        m.virt.start <= va < m.virt.end,
        va % 4096 == 0,
        pa == m.phys.start + (va - m.virt.start),
        0 <= idx < map_chunks(m).len(),
        map_chunks(m)[idx] == (va as int, pa as int, lvl),
        0 <= lvl <= 2,
        va as int + level_size(lvl) <= m.virt.end,
        map_chunk_post(pre, cur, va, lvl, pa, m.flags),
        forall|k: int| 0 <= k < idx ==> tuple_settled(pre, #[trigger] map_chunks(m)[k], m.flags),
        forall|a: u64|
            m.virt.start <= a < va && a % 4096 == 0 ==> translate_addr(pre, a) == map_target(m, a),
        forall|a: u64|
            a < o.space_size() && a % 4096 == 0 && !(m.virt.start <= a < va)
                ==> #[trigger] translate_addr(pre, a) == translate_addr(o, a),
        forall|mi: MemoryMap|
            mi.wf() && mi.virt.end <= o.space_size() && (mi.virt.end <= m.virt.start || m.virt.end
                <= mi.virt.start || mi == m) && #[trigger] map_settled(o, mi) ==> map_settled(
                pre,
                mi,
            ),
        map_settled(o, m) ==> pre == o,
    ensures
        cur.wf(),
        cur.root_width == o.root_width,
        cur.nodes@.len() >= pre.nodes@.len(),
        forall|k: int| 0 <= k < idx + 1 ==> tuple_settled(cur, #[trigger] map_chunks(m)[k], m.flags),
        forall|a: u64|
            m.virt.start <= a < va as int + level_size(lvl) && a % 4096 == 0 ==> translate_addr(
                cur,
                a,
            ) == map_target(m, a),
        forall|a: u64|
            a < o.space_size() && a % 4096 == 0 && !(m.virt.start <= a < va as int + level_size(
                lvl,
            )) ==> #[trigger] translate_addr(cur, a) == translate_addr(o, a),
        forall|mi: MemoryMap|
            mi.wf() && mi.virt.end <= o.space_size() && (mi.virt.end <= m.virt.start || m.virt.end
                <= mi.virt.start || mi == m) && #[trigger] map_settled(o, mi) ==> map_settled(
                cur,
                mi,
            ),
        map_settled(o, m) ==> cur == o,
{
    let sz = level_size(lvl);
    lemma_step_settles_prefix(pre, cur, m, va, pa, lvl, idx);
    assert forall|mi: MemoryMap|
        mi.wf() && mi.virt.end <= o.space_size() && (mi.virt.end <= m.virt.start || m.virt.end
            <= mi.virt.start || mi == m) && #[trigger] map_settled(o, mi) implies map_settled(
        cur,
        mi,
    ) by {
        lemma_step_preserves_settled_map(pre, cur, m, mi, va, pa, lvl, idx);
    }
    if map_settled(o, m) {
        assert(chunk_settled(pre, va, lvl, pa, m.flags)) by {
            assert(tuple_settled(o, map_chunks(m)[idx], m.flags));
        }
        assert(cur == pre);
    }
    assert forall|a: u64| m.virt.start <= a < va as int + sz && a % 4096 == 0 implies
        translate_addr(cur, a) == map_target(m, a) by {
        if a < va {
            assert(!in_chunk(a, va, lvl));
            assert(translate_addr(cur, a) == translate_addr(pre, a));
        } else {
            assert(in_chunk(a, va, lvl));
            assert(chunk_target(a, va, pa, m.flags) == map_target(m, a));
        }
    }
    assert forall|a: u64|
        a < o.space_size() && a % 4096 == 0 && !(m.virt.start <= a < va as int + sz) implies
        #[trigger] translate_addr(cur, a) == translate_addr(o, a) by {
        assert(!in_chunk(a, va, lvl));
        assert(translate_addr(cur, a) == translate_addr(pre, a));
    }
}

/// Map one whole region in largest-fitting chunks.
#[verifier::spinoff_prover]
#[verifier::rlimit(100)]
fn map_region(pt: &mut PageTable, m: MemoryMap) -> (r: Result<(), PageTableError>)
    requires
        old(pt).wf(),
        m.wf(),
        m.virt.end <= old(pt).space_size(),
        forall|a: u64|
            m.virt.contains(a) && a % 4096 == 0 ==> translate_addr(*old(pt), a) is None
                || translate_addr(*old(pt), a) == map_target(m, a),
    ensures
        final(pt).wf(),
        final(pt).root_width == old(pt).root_width,
        final(pt).nodes@.len() >= old(pt).nodes@.len(),
        r is Err ==> final(pt).nodes@.len() >= 0x10_0000,
        r is Ok ==> forall|a: u64|
            m.virt.contains(a) && a % 4096 == 0 ==> translate_addr(*final(pt), a) == map_target(
                m,
                a,
            ),
        r is Ok ==> forall|a: u64|
            a < old(pt).space_size() && a % 4096 == 0 && !m.virt.contains(a)
                ==> #[trigger] translate_addr(*final(pt), a) == translate_addr(*old(pt), a),
        r is Ok ==> map_settled(*final(pt), m),
        r is Ok && map_settled(*old(pt), m) ==> *final(pt) == *old(pt),
        r is Ok ==> forall|mi: MemoryMap|
            mi.wf() && mi.virt.end <= old(pt).space_size() && (mi.virt.end <= m.virt.start
                || m.virt.end <= mi.virt.start || mi == m) && #[trigger] map_settled(*old(pt), mi)
                ==> map_settled(*final(pt), mi),
{
    let ghost o = *pt;
    proof {
        lemma_chunks_props(m.virt.start as int, m.phys.start as int, m.virt.spec_len());
        assert(map_chunks(m) =~= map_chunks(m).skip(0));
    }
    let mut va: u64 = m.virt.start;
    let mut pa: u64 = m.phys.start;
    let ghost mut idx: int = 0;
    while va < m.virt.end
        invariant
            o == *old(pt),
            o.wf(),
            pt.wf(),
            pt.root_width == o.root_width,
            pt.nodes@.len() >= o.nodes@.len(),
            m.wf(),
            m.virt.end <= o.space_size(),
            m.virt.start <= va <= m.virt.end,
            va % 4096 == 0,
            pa == m.phys.start + (va - m.virt.start),
            0 <= idx <= map_chunks(m).len(),
            chunks_from(va as int, pa as int, m.virt.end - va) == map_chunks(m).skip(idx),
            forall|k: int|
                0 <= k < idx ==> tuple_settled(*pt, #[trigger] map_chunks(m)[k], m.flags),
            forall|a: u64|
                m.virt.contains(a) && a % 4096 == 0 ==> translate_addr(o, a) is None
                    || translate_addr(o, a) == map_target(m, a),
            forall|a: u64|
                m.virt.start <= a < va && a % 4096 == 0 ==> translate_addr(*pt, a) == map_target(
                    m,
                    a,
                ),
            forall|a: u64|
                a < o.space_size() && a % 4096 == 0 && !(m.virt.start <= a < va)
                    ==> #[trigger] translate_addr(*pt, a) == translate_addr(o, a),
            map_settled(o, m) ==> *pt == o,
            forall|mi: MemoryMap|
                mi.wf() && mi.virt.end <= o.space_size() && (mi.virt.end <= m.virt.start
                    || m.virt.end <= mi.virt.start || mi == m) && #[trigger] map_settled(o, mi)
                    ==> map_settled(*pt, mi),
        decreases m.virt.end - va,
    {
        let rem = m.virt.end - va;
        let lvl: usize = if va % 0x4000_0000 == 0 && pa % 0x4000_0000 == 0 && rem >= 0x4000_0000 {
            2
        } else if va % 0x20_0000 == 0 && pa % 0x20_0000 == 0 && rem >= 0x20_0000 {
            1
        } else {
            0
        };
        let sz: u64 = if lvl == 2 {
            0x4000_0000
        } else if lvl == 1 {
            0x20_0000
        } else {
            0x1000
        };
        let ghost pre = *pt;
        proof {
            assert(lvl as int == spec_best_level(va as int, pa as int, rem as int));
            assert(sz as int == level_size(lvl as int));
            lemma_region_chunk_pre(o, pre, m, va, pa, lvl as int, idx);
        }
        match map_chunk(pt, va, pa, lvl, m.flags) {
            Ok(()) => {},
            Err(e) => {
                proof {
                    assert(map_chunk_err_post(pre, *pt));
                }
                return Err(e);
            },
        }
        proof {
            lemma_region_step(o, pre, *pt, m, va, pa, lvl as int, idx);
            idx = idx + 1;
        }
        va = va + sz;
        pa = pa + sz;
    }
    proof {
        assert(map_settled(*pt, m)) by {
            assert(chunks_from(va as int, pa as int, m.virt.end - va) =~= Seq::<
                (int, int, int),
            >::empty());
            assert(idx == map_chunks(m).len()) by {
                assert(map_chunks(m).skip(idx).len() == 0);
            }
        }
    }
    Ok(())
}

/// Populate the table so that every page of every map translates to its
/// target, walking each map in largest-fitting chunks.
///
/// Maps must be pairwise disjoint in guest space or fully identical, and the
/// table must not already map any of their pages elsewhere.  Re-applying the
/// same maps leaves the table byte-identical.
pub fn generate_page_table(pt: &mut PageTable, maps: &[MemoryMap]) -> (r: Result<
    (),
    PageTableError,
>)
    requires
        old(pt).wf(),
        forall|i: int|
            0 <= i < maps@.len() ==> (#[trigger] maps@[i]).wf() && maps@[i].virt.end <= old(
                pt,
            ).space_size(),
        forall|i: int, j: int|
            0 <= i < maps@.len() && 0 <= j < maps@.len() && i != j ==> (#[trigger] maps@[i]).virt.end
                <= (#[trigger] maps@[j]).virt.start || maps@[j].virt.end <= maps@[i].virt.start
                || maps@[i] == maps@[j],
        forall|i: int, a: u64|
            0 <= i < maps@.len() && #[trigger] maps@[i].virt.contains(a) && a % 4096 == 0
                ==> translate_addr(*old(pt), a) is None || translate_addr(*old(pt), a)
                == map_target(maps@[i], a),
    ensures
        final(pt).wf(),
        final(pt).root_width == old(pt).root_width,
        r is Err ==> final(pt).nodes@.len() >= 0x10_0000,
        r is Ok ==> forall|i: int, a: u64|
            0 <= i < maps@.len() && #[trigger] maps@[i].virt.contains(a) && a % 4096 == 0
                ==> translate_addr(*final(pt), a) == map_target(maps@[i], a),
        r is Ok ==> forall|a: u64|
            a < old(pt).space_size() && a % 4096 == 0 && (forall|i: int|
                0 <= i < maps@.len() ==> !(#[trigger] maps@[i]).virt.contains(a))
                ==> #[trigger] translate_addr(*final(pt), a) == translate_addr(*old(pt), a),
        r is Ok ==> forall|i: int|
            0 <= i < maps@.len() ==> map_settled(*final(pt), #[trigger] maps@[i]),
        r is Ok && (forall|i: int|
            0 <= i < maps@.len() ==> map_settled(*old(pt), #[trigger] maps@[i])) ==> *final(pt)
            == *old(pt),
{
    let ghost o = *pt;
    let ghost hyp = forall|i: int| 0 <= i < maps@.len() ==> map_settled(o, #[trigger] maps@[i]);
    let mut j: usize = 0;
    while j < maps.len()
        invariant
            o == *old(pt),
            o.wf(),
            pt.wf(),
            pt.root_width == o.root_width,
            pt.nodes@.len() >= o.nodes@.len(),
            j <= maps@.len(),
            hyp == (forall|i: int| 0 <= i < maps@.len() ==> map_settled(o, #[trigger] maps@[i])),
            forall|i: int|
                0 <= i < maps@.len() ==> (#[trigger] maps@[i]).wf() && maps@[i].virt.end
                    <= o.space_size(),
            forall|i: int, i2: int|
                0 <= i < maps@.len() && 0 <= i2 < maps@.len() && i != i2 ==> (
                #[trigger] maps@[i]).virt.end <= (#[trigger] maps@[i2]).virt.start
                    || maps@[i2].virt.end <= maps@[i].virt.start || maps@[i] == maps@[i2],
            forall|i: int, a: u64|
                0 <= i < maps@.len() && #[trigger] maps@[i].virt.contains(a) && a % 4096 == 0
                    ==> translate_addr(o, a) is None || translate_addr(o, a) == map_target(
                    maps@[i],
                    a,
                ),
            forall|i: int, a: u64|
                0 <= i < j && #[trigger] maps@[i].virt.contains(a) && a % 4096 == 0
                    ==> translate_addr(*pt, a) == map_target(maps@[i], a),
            forall|a: u64|
                a < o.space_size() && a % 4096 == 0 && (forall|i: int|
                    0 <= i < j ==> !(#[trigger] maps@[i]).virt.contains(a))
                    ==> #[trigger] translate_addr(*pt, a) == translate_addr(o, a),
            forall|i: int| 0 <= i < j ==> map_settled(*pt, #[trigger] maps@[i]),
            hyp ==> *pt == o,
        decreases maps@.len() - j,
    {
        let m = maps[j];
        let ghost base = *pt;
        proof {
            assert forall|a: u64| m.virt.contains(a) && a % 4096 == 0 implies translate_addr(
                base,
                a,
            ) is None || translate_addr(base, a) == map_target(m, a) by {
                if exists|i: int| 0 <= i < j && (#[trigger] maps@[i]).virt.contains(a) {
                    let i = choose|i: int| 0 <= i < j && (#[trigger] maps@[i]).virt.contains(a);
                    assert(maps@[i] == m);
                    assert(translate_addr(base, a) == map_target(maps@[i], a));
                } else {
                    assert(translate_addr(base, a) == translate_addr(o, a));
                }
            }
        }
        match map_region(pt, m) {
            Ok(()) => {},
            Err(e) => {
                return Err(e);
            },
        }
        j += 1;
        proof {
            let jj = j as int;
            assert forall|i: int, a: u64|
                0 <= i < jj && #[trigger] maps@[i].virt.contains(a) && a % 4096
                    == 0 implies translate_addr(*pt, a) == map_target(maps@[i], a) by {
                if i == jj - 1 {
                } else if m.virt.contains(a) {
                    assert(maps@[i] == m);
                } else {
                    assert(translate_addr(*pt, a) == translate_addr(base, a));
                }
            }
            assert forall|a: u64|
                a < o.space_size() && a % 4096 == 0 && (forall|i: int|
                    0 <= i < jj ==> !(#[trigger] maps@[i]).virt.contains(a)) implies
                #[trigger] translate_addr(*pt, a) == translate_addr(o, a) by {
                assert(!maps@[jj - 1].virt.contains(a));
                assert(translate_addr(*pt, a) == translate_addr(base, a));
            }
            assert forall|i: int| 0 <= i < jj implies map_settled(*pt, #[trigger] maps@[i]) by {
                if i < jj - 1 {
                    assert(maps@[i].virt.end <= m.virt.start || m.virt.end <= maps@[i].virt.start
                        || maps@[i] == m);
                    assert(map_settled(base, maps@[i]));
                }
            }
            if hyp {
                assert(map_settled(base, m)) by {
                    assert(map_settled(o, maps@[jj - 1]));
                }
            }
        }
    }
    Ok(())
}


/// Walk the guest's `vsatp`-rooted Sv39 table: translate a guest-virtual
/// address to the guest-physical page it names.
pub fn vs_stage_trans_addr(table: &PageTable, gva: crate::memmap::GuestVirtualAddress) -> (r:
    Result<(u64, u64), WalkFault>)
    requires
        table.wf(),
    ensures
        r matches Ok((gpa, flags)) ==> gva.0 < table.space_size() && (translate_addr(*table, gva.0)
            matches Some((ppn, f)) && gpa == ppn * 4096 + (gva.0 as int % 4096) && flags == f),
        r is Err ==> translate_addr(*table, gva.0) is None || gva.0 >= table.space_size(),
{
    table.walk(gva.0)
}

/// Walk the hypervisor's `hgatp`-rooted Sv39x4 table: translate a
/// guest-physical address to the host-physical page it names.
pub fn g_stage_trans_addr(table: &PageTable, gpa: crate::memmap::GuestPhysicalAddress) -> (r:
    Result<(u64, u64), WalkFault>)
    requires
        table.wf(),
    ensures
        r matches Ok((hpa, flags)) ==> gpa.0 < table.space_size() && (translate_addr(*table, gpa.0)
            matches Some((ppn, f)) && hpa == ppn * 4096 + (gpa.0 as int % 4096) && flags == f),
        r is Err ==> translate_addr(*table, gpa.0) is None || gpa.0 >= table.space_size(),
{
    table.walk(gpa.0)
}


/// Where node `n`'s entry `i` sits in the flat arena image.
pub open spec fn export_index(pt: PageTable, n: int, i: int) -> int {
    if n == 0 {
        i
    } else {
        pt.root_width + 512 * (n - 1) + i
    }
}

/// The word written out for an entry: a pointer's arena index becomes the
/// page number its node occupies in the materialized arena; leaves and
/// invalid entries pass through.
pub open spec fn spec_export_entry(pt: PageTable, base_ppn: u64, e: u64) -> u64 {
    if pte_pointer(e) {
        ((base_ppn + pt.root_width / 512 + pte_ppn(e) - 1) * 1024 + pte_flags(e)) as u64
    } else {
        e
    }
}

/// Materialize the table for memory starting at page `base_ppn`: the root
/// first (one page for Sv39, four for Sv39x4), then every inner node in
/// arena order, with pointer entries rewritten to real page numbers.
pub fn export_page_table(pt: &PageTable, base_ppn: u64) -> (r: Vec<u64>)
    requires
        pt.wf(),
        base_ppn + pt.root_width / 512 + pt.nodes@.len() <= 0x1000_0000_0000,
    ensures
        r@.len() == pt.root_width + 512 * (pt.nodes@.len() - 1),
        forall|n: int, i: int|
            0 <= n < pt.nodes@.len() && 0 <= i < node_width(*pt, n) ==> r@[export_index(
                *pt,
                n,
                i,
            )] == spec_export_entry(*pt, base_ppn, #[trigger] ent(*pt, n, i)),
{
    let mut out: Vec<u64> = Vec::new();
    let root_pages = pt.root_width / 512;
    let mut n: usize = 0;
    while n < pt.nodes.len()
        invariant
            pt.wf(),
            base_ppn + pt.root_width / 512 + pt.nodes@.len() <= 0x1000_0000_0000,
            root_pages == pt.root_width / 512,
            n <= pt.nodes@.len(),
            out@.len() == if n == 0 {
                0int
            } else {
                pt.root_width + 512 * (n - 1)
            },
            forall|n2: int, i: int|
                0 <= n2 < n && 0 <= i < node_width(*pt, n2) ==> out@[export_index(*pt, n2, i)]
                    == spec_export_entry(*pt, base_ppn, #[trigger] ent(*pt, n2, i)),
        decreases pt.nodes@.len() - n,
    {
        let width = if n == 0 {
            pt.root_width
        } else {
            512
        };
        let mut i: usize = 0;
        while i < width
            invariant
                pt.wf(),
                base_ppn + pt.root_width / 512 + pt.nodes@.len() <= 0x1000_0000_0000,
                root_pages == pt.root_width / 512,
                n < pt.nodes@.len(),
                width == node_width(*pt, n as int),
                i <= width,
                out@.len() == export_index(*pt, n as int, i as int),
                forall|n2: int, k: int|
                    0 <= n2 < n && 0 <= k < node_width(*pt, n2) ==> out@[export_index(*pt, n2, k)]
                        == spec_export_entry(*pt, base_ppn, #[trigger] ent(*pt, n2, k)),
                forall|k: int|
                    0 <= k < i ==> out@[export_index(*pt, n as int, k)] == spec_export_entry(
                        *pt,
                        base_ppn,
                        #[trigger] ent(*pt, n as int, k),
                    ),
            decreases width - i,
        {
            let e = pt.nodes[n][i];
            let word = if e % 2 == 1 && (e / 2) % 8 == 0 {
                // a pointer: place its target at the node's real page
                proof {
                    assert(ent(*pt, n as int, i as int) == e);
                    assert(pte_ppn(e) < pt.nodes@.len());
                }
                (base_ppn + root_pages as u64 + e / 1024 - 1) * 1024 + e % 1024
            } else {
                e
            };
            out.push(word);
            i += 1;
        }
        n += 1;
    }
    out
}

} // verus!
