//! Device-tree queries, through the `fdt` parser.
//!
//! Each name stands for what the parser extracts from the flattened device
//! tree's bytes; the wrappers hand the values out as plain integers.

use vstd::prelude::*;

use fdt::Fdt;

verus! {

/// The `reg = <base size>` pair of the node at the given path, if the blob
/// parses and the node exists with a readable `reg`.
pub uninterp spec fn fdt_region_of(dtb: Seq<u8>, path: Seq<char>) -> Option<(u64, u64)>;

/// The `reg` pairs and first interrupt of every `/soc/virtio_mmio` node.
pub uninterp spec fn fdt_virtio_of(dtb: Seq<u8>) -> Seq<(u64, u64, u64)>;

/// The initrd range `/chosen` carries, as `(start, end)`.
pub uninterp spec fn fdt_initrd_of(dtb: Seq<u8>) -> Option<(u64, u64)>;

/// The phandle of the first interrupt controller under `/cpus/cpu@0`.
pub uninterp spec fn fdt_plic_context_of(dtb: Seq<u8>) -> Option<u64>;

/// Relies on fdt's `Fdt::new`, `find_node` and `FdtNode::reg`: the base and
/// size of the node at `path`.  The parser's node walk panics on malformed
/// structure blocks; `spec_fdt_ok` admits only blobs on which every step of
/// that walk stays in its domain.
#[verifier::external_body]
pub fn fdt_node_region(dtb: &[u8], path: &str) -> (r: Option<(u64, u64)>)
    requires
        spec_fdt_ok(dtb@),
    ensures
        r == fdt_region_of(dtb@, path@),
{
    let fdt = Fdt::new(dtb).ok()?;
    let node = fdt.find_node(path)?;
    let reg = node.reg()?.next()?;
    Some((reg.starting_address as u64, reg.size.unwrap_or(0) as u64))
}

/// Relies on fdt's `find_all_nodes`, `FdtNode::reg` and
/// `FdtNode::interrupts`: base, size and interrupt of every virtio node.
/// `spec_fdt_ok` keeps the walk, including the phandle search behind
/// `interrupt-parent`, inside its domain.
#[verifier::external_body]
pub fn fdt_virtio_regions(dtb: &[u8]) -> (r: Vec<(u64, u64, u64)>)
    requires
        spec_fdt_ok(dtb@),
    ensures
        r@ == fdt_virtio_of(dtb@),
{
    let Ok(fdt) = Fdt::new(dtb) else { return Vec::new() };
    let mut out: Vec<(u64, u64, u64)> = Vec::new();
    for node in fdt.find_all_nodes("/soc/virtio_mmio") {
        let reg = node.reg().and_then(|mut it| it.next());
        let irq = node.interrupts().and_then(|mut it| it.next()).unwrap_or(0);
        if let Some(bs) = reg {
            out.push((bs.starting_address as u64, bs.size.unwrap_or(0) as u64, irq as u64));
        }
    }
    out
}

/// Relies on fdt's `find_node` and `FdtNode::property`: the
/// `linux,initrd-start` and `linux,initrd-end` values under `/chosen`.
/// `spec_fdt_ok` keeps the walk inside its domain.
#[verifier::external_body]
pub fn fdt_initrd_region(dtb: &[u8]) -> (r: Option<(u64, u64)>)
    requires
        spec_fdt_ok(dtb@),
    ensures
        r == fdt_initrd_of(dtb@),
{
    let fdt = Fdt::new(dtb).ok()?;
    let chosen = fdt.find_node("/chosen")?;
    let start = chosen.property("linux,initrd-start")?.as_usize()? as u64;
    let end = chosen.property("linux,initrd-end")?.as_usize()? as u64;
    Some((start, end))
}

/// Relies on fdt's `find_node`, `FdtNode::children` and `property`: the
/// first byte of the phandle of the cpu's interrupt controller, read as the
/// PLIC context id.  `spec_fdt_ok` keeps the walk inside its domain.
#[verifier::external_body]
pub fn fdt_plic_context_id(dtb: &[u8]) -> (r: Option<u64>)
    requires
        spec_fdt_ok(dtb@),
    ensures
        r == fdt_plic_context_of(dtb@),
{
    let fdt = Fdt::new(dtb).ok()?;
    let cpu = fdt.find_node("/cpus/cpu")?;
    let intc = cpu.children().next()?;
    let phandle = intc.property("phandle")?;
    Some(*phandle.value.first()? as u64)
}


// --- flattened-device-tree structure validation -----------------------------
//
// The parser walks the structure block assuming it is well formed; on a
// crafted blob that walk panics (truncated token streams, unterminated or
// non-ASCII names, property data running past the block, string offsets
// without a terminator, interleaved NOP tokens, short `#address-cells`
// values, unbalanced or over-deep trees).  `spec_fdt_ok` accepts only blobs
// on which every walk the wrappers perform stays inside its domain, and
// `fdt_structure_ok` decides it; the wrappers require it.  The check is
// conservative: a tree using NOP tokens, names outside printable ASCII or
// more than 32 levels is refused outright rather than walked.  Two more
// shapes are refused because the parser mishandles them even when well
// formed: a root node carrying a non-empty name (the `find_node("/")`
// fallback inside `find_all_nodes` unwraps on it), and a root child named
// `aliases` (the alias fallback of `find_node` would re-enter the lookup
// and can recurse without bound on a self-referential alias).

/// The big-endian 32-bit word at byte offset `i`.
pub open spec fn be32(s: Seq<u8>, i: int) -> int {
    s[i] * 0x100_0000 + s[i + 1] * 0x1_0000 + s[i + 2] * 0x100 + s[i + 3]
}

/// `n` rounded up to the next multiple of 4.
pub open spec fn align4(n: int) -> int {
    ((n + 3) / 4) * 4
}

/// Index of the nul ending the printable-ASCII name that starts at `i`, or
/// -1 when the name runs to `end` or holds an unprintable byte.
pub open spec fn spec_name_end(s: Seq<u8>, i: int, end: int) -> int
    decreases end - i,
{
    if i < 0 || i >= end || end > s.len() {
        -1
    } else if s[i] == 0 {
        i
    } else if s[i] < 0x20 || s[i] > 0x7e {
        -1
    } else {
        spec_name_end(s, i + 1, end)
    }
}

/// The name starting at `off` is exactly the byte string `pat`.
pub open spec fn spec_name_is(s: Seq<u8>, off: int, end: int, pat: Seq<u8>) -> bool {
    &&& spec_name_end(s, off, end) == off + pat.len()
    &&& forall|k: int| 0 <= k < pat.len() ==> s[off + k] == pat[k]
}

/// The bytes of the property name `#address-cells`.
pub open spec fn addr_cells_name() -> Seq<u8> {
    seq![35u8, 97, 100, 100, 114, 101, 115, 115, 45, 99, 101, 108, 108, 115]
}

/// The bytes of the property name `#size-cells`.
pub open spec fn size_cells_name() -> Seq<u8> {
    seq![35u8, 115, 105, 122, 101, 45, 99, 101, 108, 108, 115]
}

/// The bytes of the node name `aliases`.
pub open spec fn aliases_name() -> Seq<u8> {
    seq![97u8, 108, 105, 97, 115, 101, 115]
}

/// Whether the node beginning at `i` is named `aliases`, with or without a
/// unit address — the name the parser's alias fallback looks up.
pub open spec fn spec_child_is_aliases(dtb: Seq<u8>, bend: int, i: int) -> bool {
    &&& i + 12 <= bend
    &&& (forall|k: int| 0 <= k < 7 ==> dtb[i + 4 + k] == aliases_name()[k])
    &&& (dtb[i + 11] == 0 || dtb[i + 11] == 0x40)
}

/// Check one node starting at `i`: a begin token, a name, properties, child
/// nodes and an end token.  Returns the index after the end token, or -1.
pub open spec fn spec_node(dtb: Seq<u8>, bend: int, ss: int, send: int, i: int, depth: int) -> int
    decreases bend - i, 0int,
{
    if depth > 32 || i < 0 || i + 4 > bend || be32(dtb, i) != 1 {
        -1
    } else {
        let ne = spec_name_end(dtb, i + 4, bend);
        if ne < 0 {
            -1
        } else {
            let j = i + 4 + align4(ne + 1 - (i + 4));
            if j <= i || j > bend {
                -1
            } else {
                spec_items(dtb, bend, ss, send, j, depth, false)
            }
        }
    }
}

/// Check a node's body from `i`: properties first, then child nodes, then
/// the end token.  Returns the index after the end token, or -1.
pub open spec fn spec_items(
    dtb: Seq<u8>,
    bend: int,
    ss: int,
    send: int,
    i: int,
    depth: int,
    seen_child: bool,
) -> int
    decreases bend - i, 1int,
{
    if i < 0 || i + 4 > bend {
        -1
    } else if be32(dtb, i) == 2 {
        i + 4
    } else if be32(dtb, i) == 3 && !seen_child {
        if i + 12 > bend {
            -1
        } else {
            let plen = be32(dtb, i + 4);
            let noff = be32(dtb, i + 8);
            if i + 12 + align4(plen) > bend {
                -1
            } else if !(ss + noff < send && spec_name_end(dtb, ss + noff, send) >= 0) {
                -1
            } else if (spec_name_is(dtb, ss + noff, send, addr_cells_name()) || spec_name_is(
                dtb,
                ss + noff,
                send,
                size_cells_name(),
            )) && plen != 4 {
                -1
            } else {
                spec_items(dtb, bend, ss, send, i + 12 + align4(plen), depth, false)
            }
        }
    } else if be32(dtb, i) == 1 {
        if depth == 1 && spec_child_is_aliases(dtb, bend, i) {
            -1
        } else {
            let e = spec_node(dtb, bend, ss, send, i, depth + 1);
            if e <= i || e > bend {
                -1
            } else {
                spec_items(dtb, bend, ss, send, e, depth, true)
            }
        }
    } else {
        -1
    }
}

/// A blob the parser can walk without leaving its domain: sound header
/// ranges, one well-formed root node, an end token after it.
pub open spec fn spec_fdt_ok(dtb: Seq<u8>) -> bool {
    &&& dtb.len() >= 40
    &&& be32(dtb, 8) + be32(dtb, 36) <= dtb.len()
    &&& be32(dtb, 12) + be32(dtb, 32) <= dtb.len()
    &&& {
        let bs = be32(dtb, 8);
        let bend = be32(dtb, 8) + be32(dtb, 36);
        let ss = be32(dtb, 12);
        let send = be32(dtb, 12) + be32(dtb, 32);
        let e = spec_node(dtb, bend, ss, send, bs, 1);
        &&& e >= 0
        &&& e + 4 <= bend
        &&& be32(dtb, e) == 9
        // the root node's name must be empty: the parser's root lookup
        // matches only a nameless root
        &&& bs + 5 <= dtb.len()
        &&& dtb[bs + 4] == 0
    }
}

/// The big-endian 32-bit word at byte offset `i`.
fn read_be32(dtb: &[u8], i: usize) -> (r: u64)
    requires
        i + 4 <= dtb@.len(),
    ensures
        r == be32(dtb@, i as int),
        r < 0x1_0000_0000,
{
    (dtb[i] as u64) * 0x100_0000 + (dtb[i + 1] as u64) * 0x1_0000 + (dtb[i + 2] as u64) * 0x100 + (
    dtb[i + 3] as u64)
}

/// Scan the printable-ASCII name starting at `i`; its nul index, or `None`.
fn scan_name(dtb: &[u8], i: usize, end: usize) -> (r: Option<usize>)
    requires
        end <= dtb@.len(),
    ensures
        match r {
            Some(ne) => spec_name_end(dtb@, i as int, end as int) == ne && i <= ne < end
                && dtb@[ne as int] == 0,
            None => spec_name_end(dtb@, i as int, end as int) == -1,
        },
{
    let mut j = i;
    loop
        invariant
            end <= dtb@.len(),
            i <= j,
            spec_name_end(dtb@, i as int, end as int) == spec_name_end(
                dtb@,
                j as int,
                end as int,
            ),
        decreases end - j,
    {
        if j >= end {
            return None;
        }
        let b = dtb[j];
        if b == 0 {
            return Some(j);
        }
        if b < 0x20 || b > 0x7e {
            return None;
        }
        j += 1;
    }
}

/// Whether the name at `off` matches `pat` (handed as the matching spec
/// sequence), given its nul sits at `ne`.
fn name_matches(dtb: &[u8], off: usize, ne: usize, pat: &[u8]) -> (r: bool)
    requires
        off <= ne < dtb@.len(),
        dtb@[ne as int] == 0,
    ensures
        r == (ne - off == pat@.len() && forall|k: int|
            0 <= k < pat@.len() ==> dtb@[off + k] == pat@[k]),
{
    if ne - off != pat.len() {
        return false;
    }
    let mut k: usize = 0;
    while k < pat.len()
        invariant
            off + pat@.len() == ne < dtb@.len(),
            k <= pat@.len(),
            forall|q: int| 0 <= q < k ==> dtb@[off + q] == pat@[q],
        decreases pat@.len() - k,
    {
        if dtb[off + k] != pat[k] {
            return false;
        }
        k += 1;
    }
    true
}

/// Decide `spec_child_is_aliases`.
fn is_aliases_child(dtb: &[u8], bend: usize, i: usize) -> (r: bool)
    requires
        bend <= dtb@.len(),
        i <= bend,
    ensures
        r == spec_child_is_aliases(dtb@, bend as int, i as int),
{
    if bend - i < 12 {
        return false;
    }
    let pat: [u8; 7] = [97, 108, 105, 97, 115, 101, 115];
    let mut k: usize = 0;
    while k < 7
        invariant
            i + 12 <= bend <= dtb@.len(),
            k <= 7,
            forall|q: int| 0 <= q < k ==> dtb@[i + 4 + q] == aliases_name()[q],
            pat@ =~= aliases_name(),
        decreases 7 - k,
    {
        if dtb[i + 4 + k] != pat[k] {
            return false;
        }
        k += 1;
    }
    let b = dtb[i + 11];
    b == 0 || b == 0x40
}

/// Check one node, mirroring `spec_node`.
fn check_node(dtb: &[u8], bend: usize, ss: usize, send: usize, i: usize, depth: usize) -> (r:
    Option<usize>)
    requires
        bend <= dtb@.len(),
        send <= dtb@.len(),
        bend <= 0x2_0000_0000,
        send <= 0x2_0000_0000,
        ss <= send,
        i <= bend,
        depth <= 0x1000,
    ensures
        match r {
            Some(e) => spec_node(
                dtb@,
                bend as int,
                ss as int,
                send as int,
                i as int,
                depth as int,
            ) == e && i < e <= bend,
            None => spec_node(dtb@, bend as int, ss as int, send as int, i as int, depth as int)
                == -1,
        },
    decreases bend - i, 0int,
{
    if depth > 32 || bend < 4 || i > bend - 4 {
        return None;
    }
    if read_be32(dtb, i) != 1 {
        return None;
    }
    let ne = match scan_name(dtb, i + 4, bend) {
        Some(ne) => ne,
        None => { return None },
    };
    // the name and its nul, padded to the next 4-byte boundary
    let name_len = ne + 1 - (i + 4);
    let j64 = i as u64 + 4 + ((name_len as u64 + 3) / 4) * 4;
    proof {
        assert(j64 == i + 4 + align4(ne + 1 - (i + 4)));
    }
    if j64 > bend as u64 {
        return None;
    }
    let j = j64 as usize;
    let mut k = j;
    let mut seen_child = false;
    loop
        invariant
            bend <= dtb@.len(),
            send <= dtb@.len(),
            bend <= 0x2_0000_0000,
            send <= 0x2_0000_0000,
            ss <= send,
            depth <= 32,
            i < j <= k <= bend,
            spec_node(dtb@, bend as int, ss as int, send as int, i as int, depth as int)
                == spec_items(
                dtb@,
                bend as int,
                ss as int,
                send as int,
                k as int,
                depth as int,
                seen_child,
            ),
        decreases bend - k,
    {
        if bend - k < 4 {
            return None;
        }
        let t = read_be32(dtb, k);
        if t == 2 {
            return Some(k + 4);
        }
        if t == 3 && !seen_child {
            if bend - k < 12 {
                return None;
            }
            let plen = read_be32(dtb, k + 4);
            let noff = read_be32(dtb, k + 8);
            let aligned = ((plen + 3) / 4) * 4;
            proof {
                assert(aligned == align4(plen as int));
            }
            if aligned > (bend - (k + 12)) as u64 {
                return None;
            }
            if ss as u64 + noff >= send as u64 {
                return None;
            }
            let abs_off = (ss as u64 + noff) as usize;
            let pne = match scan_name(dtb, abs_off, send) {
                Some(p) => p,
                None => { return None },
            };
            let addr_pat: [u8; 14] = [35, 97, 100, 100, 114, 101, 115, 115, 45, 99, 101, 108, 108,
                115];
            let size_pat: [u8; 11] = [35, 115, 105, 122, 101, 45, 99, 101, 108, 108, 115];
            let is_addr = name_matches(dtb, abs_off, pne, addr_pat.as_slice());
            let is_size = name_matches(dtb, abs_off, pne, size_pat.as_slice());
            proof {
                assert(addr_pat@ =~= addr_cells_name());
                assert(size_pat@ =~= size_cells_name());
                assert(is_addr == spec_name_is(
                    dtb@,
                    abs_off as int,
                    send as int,
                    addr_cells_name(),
                ));
                assert(is_size == spec_name_is(
                    dtb@,
                    abs_off as int,
                    send as int,
                    size_cells_name(),
                ));
            }
            if (is_addr || is_size) && plen != 4 {
                return None;
            }
            k = k + 12 + aligned as usize;
        } else if t == 1 {
            if depth == 1 && is_aliases_child(dtb, bend, k) {
                return None;
            }
            let e = match check_node(dtb, bend, ss, send, k, depth + 1) {
                Some(e) => e,
                None => { return None },
            };
            k = e;
            seen_child = true;
        } else {
            return None;
        }
    }
}

/// Decide `spec_fdt_ok`: whether the parser can walk this blob safely.
pub fn fdt_structure_ok(dtb: &[u8]) -> (r: bool)
    ensures
        r == spec_fdt_ok(dtb@),
{
    if dtb.len() < 40 {
        return false;
    }
    let len = dtb.len() as u64;
    let bs = read_be32(dtb, 8);
    let bsz = read_be32(dtb, 36);
    let ssoff = read_be32(dtb, 12);
    let ssz = read_be32(dtb, 32);
    if bs + bsz > len || ssoff + ssz > len {
        return false;
    }
    let bend = (bs + bsz) as usize;
    let send = (ssoff + ssz) as usize;
    let e = match check_node(dtb, bend, ssoff as usize, send, bs as usize, 1) {
        Some(e) => e,
        None => { return false },
    };
    if bend - e < 4 {
        return false;
    }
    if read_be32(dtb, e) != 9 {
        return false;
    }
    // the root node's name must be empty
    let bs4 = bs as usize + 4;
    if bs4 + 1 > dtb.len() {
        return false;
    }
    dtb[bs4] == 0
}

} // verus!
