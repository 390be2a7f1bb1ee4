use elf_headers::bytes::{read_uint, Encoding};
use elf_headers::layout::{
    decode_file_header, decode_identification, decode_program_header, segment_range, DecodeError,
    ElfClass, ProgramHeader,
};
use elf_headers::reader::{ElfReader, ReadError};

fn put(buf: &mut Vec<u8>, off: usize, width: usize, value: u64, big: bool) {
    for k in 0..width {
        let shift = if big { 8 * (width - 1 - k) } else { 8 * k };
        buf[off + k] = (value >> shift) as u8;
    }
}

/// A 64-bit little-endian header with the given table position and shape.
fn header64(phoff: u64, phentsize: u16, phnum: u16) -> Vec<u8> {
    let mut b = vec![0u8; 64];
    b[0..4].copy_from_slice(&[0x7f, b'E', b'L', b'F']);
    b[4] = 2;
    b[5] = 1;
    b[6] = 1;
    b[7] = 3;
    b[8] = 0;
    put(&mut b, 16, 2, 2, false);
    put(&mut b, 18, 2, 0x3e, false);
    put(&mut b, 20, 4, 1, false);
    put(&mut b, 24, 8, 0x401000, false);
    put(&mut b, 32, 8, phoff, false);
    put(&mut b, 40, 8, 0x2000, false);
    put(&mut b, 48, 4, 0, false);
    put(&mut b, 52, 2, 64, false);
    put(&mut b, 54, 2, phentsize as u64, false);
    put(&mut b, 56, 2, phnum as u64, false);
    put(&mut b, 58, 2, 64, false);
    put(&mut b, 60, 2, 7, false);
    put(&mut b, 62, 2, 6, false);
    b
}

fn phdr64(i: u64) -> ProgramHeader {
    ProgramHeader {
        p_type: 1 + i as u32,
        p_flags: 4 + i as u32,
        p_offset: 0x1000 * (i + 1),
        p_vaddr: 0x400000 + 0x1000 * i,
        p_paddr: 0x500000 + 0x1000 * i,
        p_filesz: 0x100 + i,
        p_memsz: 0x200 + i,
        p_align: 0x1000,
    }
}

fn put_phdr64(b: &mut Vec<u8>, off: usize, p: &ProgramHeader) {
    put(b, off, 4, p.p_type as u64, false);
    put(b, off + 4, 4, p.p_flags as u64, false);
    put(b, off + 8, 8, p.p_offset, false);
    put(b, off + 16, 8, p.p_vaddr, false);
    put(b, off + 24, 8, p.p_paddr, false);
    put(b, off + 32, 8, p.p_filesz, false);
    put(b, off + 40, 8, p.p_memsz, false);
    put(b, off + 48, 8, p.p_align, false);
}

/// A 64-bit file with three program headers right after the file header.
fn three_entry_file() -> Vec<u8> {
    let mut b = header64(64, 56, 3);
    b.resize(64 + 3 * 56, 0);
    for i in 0..3u64 {
        put_phdr64(&mut b, 64 + 56 * i as usize, &phdr64(i));
    }
    b
}

#[test]
fn read_uint_little_and_big_endian() {
    let b = [0x01u8, 0x02, 0x03, 0x04, 0x05, 0x06, 0x07, 0x08];
    assert_eq!(read_uint(&b, 0, 2, Encoding::LittleEndian), 0x0201);
    assert_eq!(read_uint(&b, 0, 2, Encoding::BigEndian), 0x0102);
    assert_eq!(read_uint(&b, 4, 4, Encoding::LittleEndian), 0x08070605);
    assert_eq!(read_uint(&b, 0, 8, Encoding::BigEndian), 0x0102030405060708);
    assert_eq!(read_uint(&b, 0, 8, Encoding::LittleEndian), 0x0807060504030201);
    assert_eq!(read_uint(&[0xffu8; 8], 0, 8, Encoding::BigEndian), u64::MAX);
    assert_eq!(read_uint(&b, 3, 0, Encoding::BigEndian), 0);
}

#[test]
fn identification_fields() {
    let b = header64(64, 56, 0);
    let id = decode_identification(&b).unwrap();
    assert_eq!(id.class, ElfClass::Elf64);
    assert_eq!(id.encoding, Encoding::LittleEndian);
    assert_eq!(id.version, 1);
    assert_eq!(id.osabi, 3);
    assert_eq!(id.abi_version, 0);
}

#[test]
fn identification_errors() {
    let mut b = header64(64, 56, 0);
    b[4] = 0;
    assert_eq!(decode_identification(&b), Err(DecodeError::UnsupportedClass));
    b[4] = 3;
    assert_eq!(decode_identification(&b), Err(DecodeError::UnsupportedClass));
    b[4] = 2;
    b[5] = 0;
    assert_eq!(decode_identification(&b), Err(DecodeError::UnsupportedEncoding));
    assert_eq!(decode_identification(&b[0..10]), Err(DecodeError::TruncatedInput));
    assert_eq!(decode_identification(&b[0..2]), Err(DecodeError::TruncatedInput));
}

#[test]
fn bad_magic_is_invalid_magic() {
    let mut b = header64(64, 56, 0);
    b[1] = b'e';
    assert_eq!(decode_identification(&b), Err(DecodeError::InvalidMagic));
    assert_eq!(decode_file_header(&b), Err(DecodeError::InvalidMagic));
    assert_eq!(decode_identification(&b[0..4]), Err(DecodeError::InvalidMagic));
    let r = ElfReader::open(&b);
    assert_eq!(r.read_file_header(), Err(ReadError::Decode(DecodeError::InvalidMagic)));
    assert_eq!(r.read_program_headers(), Err(ReadError::Decode(DecodeError::InvalidMagic)));
}

#[test]
fn file_header_fields_64_little_endian() {
    let h = decode_file_header(&header64(64, 56, 3)).unwrap();
    assert_eq!(h.e_type, 2);
    assert_eq!(h.e_machine, 0x3e);
    assert_eq!(h.e_version, 1);
    assert_eq!(h.e_entry, 0x401000);
    assert_eq!(h.e_phoff, 64);
    assert_eq!(h.e_shoff, 0x2000);
    assert_eq!(h.e_flags, 0);
    assert_eq!(h.e_ehsize, 64);
    assert_eq!(h.e_phentsize, 56);
    assert_eq!(h.e_phnum, 3);
    assert_eq!(h.e_shentsize, 64);
    assert_eq!(h.e_shnum, 7);
    assert_eq!(h.e_shstrndx, 6);
}

#[test]
fn file_header_fields_32_big_endian() {
    let mut b = vec![0u8; 52];
    b[0..4].copy_from_slice(&[0x7f, b'E', b'L', b'F']);
    b[4] = 1;
    b[5] = 2;
    put(&mut b, 16, 2, 2, true);
    put(&mut b, 18, 2, 8, true);
    put(&mut b, 20, 4, 1, true);
    put(&mut b, 24, 4, 0x10000, true);
    put(&mut b, 28, 4, 52, true);
    put(&mut b, 32, 4, 0x3000, true);
    put(&mut b, 36, 4, 0x1234, true);
    put(&mut b, 40, 2, 52, true);
    put(&mut b, 42, 2, 32, true);
    put(&mut b, 44, 2, 2, true);
    put(&mut b, 46, 2, 40, true);
    put(&mut b, 48, 2, 5, true);
    put(&mut b, 50, 2, 4, true);
    let h = decode_file_header(&b).unwrap();
    assert_eq!(h.ident.class, ElfClass::Elf32);
    assert_eq!(h.ident.encoding, Encoding::BigEndian);
    assert_eq!(h.e_machine, 8);
    assert_eq!(h.e_entry, 0x10000);
    assert_eq!(h.e_phoff, 52);
    assert_eq!(h.e_shoff, 0x3000);
    assert_eq!(h.e_flags, 0x1234);
    assert_eq!(h.e_phentsize, 32);
    assert_eq!(h.e_phnum, 2);
    assert_eq!(h.e_shnum, 5);
    assert_eq!(h.e_shstrndx, 4);
    assert_eq!(decode_file_header(&b[0..51]), Err(DecodeError::TruncatedInput));
}

#[test]
fn file_header_64_truncated() {
    let b = header64(64, 56, 3);
    assert_eq!(decode_file_header(&b[0..63]), Err(DecodeError::TruncatedInput));
}

#[test]
fn program_header_32_layout() {
    let mut b = vec![0u8; 32];
    for k in 0..8 {
        put(&mut b, 4 * k, 4, 0x10 + k as u64, false);
    }
    let p = decode_program_header(&b, ElfClass::Elf32, Encoding::LittleEndian).unwrap();
    assert_eq!(p.p_type, 0x10);
    assert_eq!(p.p_offset, 0x11);
    assert_eq!(p.p_vaddr, 0x12);
    assert_eq!(p.p_paddr, 0x13);
    assert_eq!(p.p_filesz, 0x14);
    assert_eq!(p.p_memsz, 0x15);
    assert_eq!(p.p_flags, 0x16);
    assert_eq!(p.p_align, 0x17);
    assert_eq!(
        decode_program_header(&b[0..31], ElfClass::Elf32, Encoding::LittleEndian),
        Err(DecodeError::TruncatedInput)
    );
}

#[test]
fn program_header_64_big_endian() {
    let mut b = vec![0u8; 60];
    put(&mut b, 0, 4, 6, true);
    put(&mut b, 4, 4, 5, true);
    put(&mut b, 8, 8, 0x40, true);
    put(&mut b, 32, 8, 0x2d8, true);
    let p = decode_program_header(&b, ElfClass::Elf64, Encoding::BigEndian).unwrap();
    assert_eq!(p.p_type, 6);
    assert_eq!(p.p_flags, 5);
    assert_eq!(p.p_offset, 0x40);
    assert_eq!(p.p_filesz, 0x2d8);
    assert_eq!(
        decode_program_header(&b[0..55], ElfClass::Elf64, Encoding::BigEndian),
        Err(DecodeError::TruncatedInput)
    );
}

#[test]
fn three_entries_read_at_64_120_176() {
    let b = three_entry_file();
    for i in 0..3u64 {
        let off = (64 + 56 * i) as usize;
        assert_eq!(
            decode_program_header(&b[off..off + 56], ElfClass::Elf64, Encoding::LittleEndian),
            Ok(phdr64(i))
        );
    }
    let r = ElfReader::open(&b);
    let v = r.read_program_headers().unwrap();
    assert_eq!(v.len(), 3);
    assert_eq!(v, vec![phdr64(0), phdr64(1), phdr64(2)]);
    assert_ne!(v[0], v[1]);
    assert_ne!(v[1], v[2]);
    assert_eq!(segment_range(&v[1]), (0x2000, 0x101));
}

#[test]
fn file_header_read_twice_is_identical() {
    let b = three_entry_file();
    let r = ElfReader::open(&b);
    let a = r.read_file_header();
    let b = r.read_file_header();
    assert!(a.is_ok());
    assert_eq!(a, b);
}

#[test]
fn short_source_is_short_read() {
    let b = header64(64, 56, 0);
    for n in [0usize, 1, 4, 16, 52, 63] {
        let r = ElfReader::open(&b[0..n]);
        assert_eq!(r.read_file_header(), Err(ReadError::ShortRead));
        assert_eq!(r.read_program_headers(), Err(ReadError::ShortRead));
    }
}

#[test]
fn no_entries_is_empty_table() {
    let b = header64(0x7fff_ffff_ffff_ffff, 56, 0);
    let r = ElfReader::open(&b);
    assert_eq!(r.read_program_headers(), Ok(vec![]));
}

#[test]
fn table_end_past_address_width_is_overflow() {
    let b = header64(u64::MAX - 8, 56, 1);
    let r = ElfReader::open(&b);
    assert_eq!(r.read_program_headers(), Err(ReadError::Overflow));
    let b = header64(u64::MAX - 1000, 56, 20);
    let r = ElfReader::open(&b);
    assert_eq!(r.read_program_headers(), Err(ReadError::Overflow));
}

#[test]
fn table_end_past_32_bit_width_is_overflow() {
    let mut b = vec![0u8; 64];
    b[0..4].copy_from_slice(&[0x7f, b'E', b'L', b'F']);
    b[4] = 1;
    b[5] = 1;
    put(&mut b, 28, 4, 0xffff_fff0, false);
    put(&mut b, 42, 2, 32, false);
    put(&mut b, 44, 2, 1, false);
    let r = ElfReader::open(&b);
    assert_eq!(r.read_program_headers(), Err(ReadError::Overflow));
    let mut b = b.clone();
    put(&mut b, 28, 4, 0xffff_ffd0, false);
    let r = ElfReader::open(&b);
    assert_eq!(r.read_program_headers(), Err(ReadError::ShortRead));
}

#[test]
fn slot_past_source_end_is_short_read() {
    let mut b = three_entry_file();
    b.truncate(64 + 2 * 56 + 10);
    let r = ElfReader::open(&b);
    assert_eq!(r.read_program_headers(), Err(ReadError::ShortRead));
}

#[test]
fn small_entry_size_is_truncated_record() {
    let mut b = three_entry_file();
    put(&mut b, 54, 2, 40, false);
    let r = ElfReader::open(&b);
    assert_eq!(
        r.read_program_headers(),
        Err(ReadError::Decode(DecodeError::TruncatedInput))
    );
}

#[test]
fn first_entry_is_not_skipped() {
    let b = three_entry_file();
    let mut one = b.clone();
    put(&mut one, 56, 2, 1, false);
    let r = ElfReader::open(&one);
    assert_eq!(r.read_program_headers(), Ok(vec![phdr64(0)]));
}
