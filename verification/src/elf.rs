//! The sections of an object file (an ELF image) that the debug information
//! is read from.
use vstd::prelude::*;
use object::{Object, ObjectSection};

verus! {

/// What `object` reads from the bytes `elf` as the data of the section named
/// `name`: `Err` where the bytes are not an object file it can parse, none
/// where there is no such section or its data cannot be read.
pub uninterp spec fn elf_section_of(elf: Seq<u8>, name: Seq<char>) -> Result<Option<Seq<u8>>, ()>;

/// Parses `elf` with `object::File::parse` and reads the section `name` with
/// `section_by_name` and `uncompressed_data`. The contract claims only that
/// the outcome is the named function of the bytes and the name.
#[verifier::external_body]
fn elf_section(elf: &[u8], name: &str) -> (r: Result<Option<Vec<u8>>, ()>)
    ensures
        match elf_section_of(elf@, name@) {
            Err(()) => r is Err,
            Ok(None) => r == Ok::<Option<Vec<u8>>, ()>(None),
            Ok(Some(d)) => r matches Ok(Some(v)) && v@ == d,
        },
{
    let file = match object::File::parse(elf) {
        Ok(f) => f,
        Err(_) => return Err(()),
    };
    match file.section_by_name(name) {
        None => Ok(None),
        Some(section) => match section.uncompressed_data() {
            Ok(data) => Ok(Some(data.to_vec())),
            Err(_) => Ok(None),
        },
    }
}

/// The data of the section `name` of the object file `elf` as the DWARF
/// reader loads it: empty where the file has no such section or its data
/// cannot be read; `Err` where `elf` is not an object file.
pub fn read_section(elf: &[u8], name: &str) -> (r: Result<Vec<u8>, ()>)
    ensures
        match elf_section_of(elf@, name@) {
            Err(()) => r is Err,
            Ok(None) => r matches Ok(v) && v@ == Seq::<u8>::empty(),
            Ok(Some(d)) => r matches Ok(v) && v@ == d,
        },
{
    match elf_section(elf, name) {
        Err(()) => Err(()),
        Ok(None) => Ok(Vec::new()),
        Ok(Some(data)) => Ok(data),
    }
}

} // verus!
