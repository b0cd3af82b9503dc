use rust_debug::elf::read_section;

fn u16le(v: &mut Vec<u8>, x: u16) {
    v.extend_from_slice(&x.to_le_bytes());
}

fn u32le(v: &mut Vec<u8>, x: u32) {
    v.extend_from_slice(&x.to_le_bytes());
}

fn section_header(v: &mut Vec<u8>, name: u32, kind: u32, offset: u32, size: u32) {
    for x in [name, kind, 0, 0, offset, size, 0, 0, 1, 0] {
        u32le(v, x);
    }
}

/// A relocatable 32-bit little-endian ARM ELF image with the sections
/// `.shstrtab` and `.debug_str` (holding `hello\0`).
fn tiny_elf() -> Vec<u8> {
    let names = b"\0.shstrtab\0.debug_str\0";
    let data = b"hello\0";
    let names_off = 52u32;
    let data_off = names_off + names.len() as u32;
    let mut sh_off = data_off + data.len() as u32;
    while sh_off % 4 != 0 {
        sh_off += 1;
    }
    let mut v = vec![0x7f, b'E', b'L', b'F', 1, 1, 1, 0, 0, 0, 0, 0, 0, 0, 0, 0];
    u16le(&mut v, 1);
    u16le(&mut v, 40);
    u32le(&mut v, 1);
    u32le(&mut v, 0);
    u32le(&mut v, 0);
    u32le(&mut v, sh_off);
    u32le(&mut v, 0);
    u16le(&mut v, 52);
    u16le(&mut v, 0);
    u16le(&mut v, 0);
    u16le(&mut v, 40);
    u16le(&mut v, 3);
    u16le(&mut v, 1);
    v.extend_from_slice(names);
    v.extend_from_slice(data);
    while (v.len() as u32) < sh_off {
        v.push(0);
    }
    section_header(&mut v, 0, 0, 0, 0);
    section_header(&mut v, 1, 3, names_off, names.len() as u32);
    section_header(&mut v, 11, 1, data_off, data.len() as u32);
    v
}

#[test]
fn section_data_is_read_from_the_object_file() {
    let elf = tiny_elf();
    assert_eq!(read_section(&elf, ".debug_str"), Ok(b"hello\0".to_vec()));
}

#[test]
fn missing_section_reads_as_empty() {
    let elf = tiny_elf();
    assert_eq!(read_section(&elf, ".debug_info"), Ok(vec![]));
}

#[test]
fn bytes_that_are_not_an_object_file_are_refused() {
    assert_eq!(read_section(b"not an object file", ".debug_info"), Err(()));
}
