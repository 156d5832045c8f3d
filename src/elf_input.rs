use vstd::prelude::*;

verus! {

/// The fields of one program header that the flattening reads:
/// `(p_type, p_offset, p_vaddr, p_filesz, p_memsz)`.
pub type RawHeader = (u32, u64, u64, u64, u64);

/// The program header type of a loadable segment.
pub const PT_LOAD: u32 = 1;

#[verifier::external_type_specification]
#[verifier::external_body]
pub struct ExParseError(elf::ParseError);

/// What parsing `data` as an executable image gives: `None` where the file
/// header or the program header table cannot be read, else the entry address
/// and the program headers in table order (`None` where the image has no
/// program header table).
pub uninterp spec fn elf_parse(data: Seq<u8>) -> Option<(u64, Option<Seq<RawHeader>>)>;

/// Relies on elf's `ElfBytes::minimal_parse` to read the file header and
/// locate the program header table (32 or 64 bits, either byte order), on
/// its `ehdr.e_entry` for the entry address, and on `segments()` and the
/// table's iterator for the program headers. The outcome depends on the
/// bytes alone.
#[verifier::external_body]
pub(crate) fn parse_elf(data: &[u8]) -> (r: Result<(u64, Option<Vec<RawHeader>>), elf::ParseError>)
    ensures
        match r {
            Ok((entry, None)) => elf_parse(data@) == Some((entry, None::<Seq<RawHeader>>)),
            Ok((entry, Some(hs))) => elf_parse(data@) == Some((entry, Some(hs@))),
            Err(_) => elf_parse(data@) is None,
        },
{
    let file = elf::ElfBytes::<elf::endian::AnyEndian>::minimal_parse(data)?;
    let headers = file.segments().map(
        |table| table.iter().map(|p| (p.p_type, p.p_offset, p.p_vaddr, p.p_filesz, p.p_memsz)).collect(),
    );
    Ok((file.ehdr.e_entry, headers))
}

} // verus!
