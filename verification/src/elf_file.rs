//! ELF program headers, through the `elf` parser.

use vstd::prelude::*;

use elf::endian::AnyEndian;
use elf::ElfBytes;

verus! {

/// The `PT_LOAD` program-header type.
pub const PT_LOAD: u32 = 1;

/// One program header of the guest image.
#[derive(Clone, Copy, PartialEq, Eq, Structural, Debug)]
pub struct ElfSegment {
    pub p_type: u32,
    pub p_offset: u64,
    pub p_vaddr: u64,
    pub p_paddr: u64,
    pub p_filesz: u64,
    pub p_memsz: u64,
    pub p_flags: u32,
    pub p_align: u64,
}

/// What the parser extracts from an ELF image: its program headers in file
/// order, or nothing when the bytes do not parse or carry no header table.
pub uninterp spec fn elf_segments_of(bytes: Seq<u8>) -> Option<Seq<ElfSegment>>;

/// Relies on elf's `ElfBytes::minimal_parse` and `segments`: the program
/// headers of the image.
#[verifier::external_body]
pub fn parse_elf_segments(bytes: &[u8]) -> (r: Option<Vec<ElfSegment>>)
    ensures
        match r {
            Some(v) => elf_segments_of(bytes@) == Some(v@),
            None => elf_segments_of(bytes@) is None,
        },
{
    let file = ElfBytes::<AnyEndian>::minimal_parse(bytes).ok()?;
    let segs = file.segments()?;
    let mut out: Vec<ElfSegment> = Vec::new();
    for p in segs.iter() {
        let (p_type, p_offset, p_vaddr, p_paddr) = (p.p_type, p.p_offset, p.p_vaddr, p.p_paddr);
        let (p_filesz, p_memsz, p_flags, p_align) = (p.p_filesz, p.p_memsz, p.p_flags, p.p_align);
        out.push(ElfSegment { p_type, p_offset, p_vaddr, p_paddr, p_filesz, p_memsz, p_flags, p_align });
    }
    Some(out)
}

} // verus!
