//! Fixed-layout ELF records and their decoding from byte spans.
use vstd::prelude::*;
use crate::bytes::{read_uint, uint_at, lemma_pow256_values, Encoding};

verus! {

/// Address width of the file: 4-byte or 8-byte address and offset fields.
#[derive(Debug, Clone, Copy, PartialEq, Eq, Structural)]
pub enum ElfClass {
    Elf32,
    Elf64,
}

/// Why a byte span is not a record of the expected kind.
#[derive(Debug, Clone, Copy, PartialEq, Eq, Structural)]
pub enum DecodeError {
    InvalidMagic,
    UnsupportedClass,
    UnsupportedEncoding,
    TruncatedInput,
}

/// The decoded part of the 16-byte `e_ident` block; the magic is checked,
/// padding and the reserved byte carry nothing and are not kept.
#[derive(Debug, Clone, Copy, PartialEq, Eq, Structural)]
pub struct Identification {
    pub class: ElfClass,
    pub encoding: Encoding,
    pub version: u8,
    pub osabi: u8,
    pub abi_version: u8,
}

/// The ELF file header; address-width fields are widened to 64 bits.
#[derive(Debug, Clone, Copy, PartialEq, Eq, Structural)]
pub struct FileHeader {
    pub ident: Identification,
    pub e_type: u16,
    pub e_machine: u16,
    pub e_version: u32,
    pub e_entry: u64,
    pub e_phoff: u64,
    pub e_shoff: u64,
    pub e_flags: u32,
    pub e_ehsize: u16,
    pub e_phentsize: u16,
    pub e_phnum: u16,
    pub e_shentsize: u16,
    pub e_shnum: u16,
    pub e_shstrndx: u16,
}

/// One entry of the program header table; address-width fields are widened
/// to 64 bits.
#[derive(Debug, Clone, Copy, PartialEq, Eq, Structural)]
pub struct ProgramHeader {
    pub p_type: u32,
    pub p_flags: u32,
    pub p_offset: u64,
    pub p_vaddr: u64,
    pub p_paddr: u64,
    pub p_filesz: u64,
    pub p_memsz: u64,
    pub p_align: u64,
}

/// Length of the identification block.
pub const IDENT_LEN: usize = 16;

/// The file starts with `0x7F 'E' 'L' 'F'`.
pub open spec fn has_elf_magic(b: Seq<u8>) -> bool {
    &&& b.len() >= 4
    &&& b[0] == 0x7f
    &&& b[1] == 0x45
    &&& b[2] == 0x4c
    &&& b[3] == 0x46
}

/// Bytes per address or offset field.
pub open spec fn addr_width(c: ElfClass) -> int {
    match c {
        ElfClass::Elf32 => 4,
        ElfClass::Elf64 => 8,
    }
}

/// Bytes in a file header of class `c`.
pub open spec fn header_size(c: ElfClass) -> int {
    match c {
        ElfClass::Elf32 => 52,
        ElfClass::Elf64 => 64,
    }
}

/// Bytes in a program header of class `c`.
pub open spec fn phdr_size(c: ElfClass) -> int {
    match c {
        ElfClass::Elf32 => 32,
        ElfClass::Elf64 => 56,
    }
}

/// What decoding an identification block from `b` gives.
pub open spec fn spec_decode_identification(b: Seq<u8>) -> Result<Identification, DecodeError> {
    if b.len() < 4 {
        Err(DecodeError::TruncatedInput)
    } else if !has_elf_magic(b) {
        Err(DecodeError::InvalidMagic)
    } else if b.len() < IDENT_LEN {
        Err(DecodeError::TruncatedInput)
    } else if b[4] != 1 && b[4] != 2 {
        Err(DecodeError::UnsupportedClass)
    } else if b[5] != 1 && b[5] != 2 {
        Err(DecodeError::UnsupportedEncoding)
    } else {
        Ok(
            Identification {
                class: if b[4] == 1 { ElfClass::Elf32 } else { ElfClass::Elf64 },
                encoding: if b[5] == 1 { Encoding::LittleEndian } else { Encoding::BigEndian },
                version: b[6],
                osabi: b[7],
                abi_version: b[8],
            },
        )
    }
}

/// The file header fields that follow `id` in `b`, at the offsets of its class.
pub open spec fn header_fields(b: Seq<u8>, id: Identification) -> FileHeader {
    let w = addr_width(id.class);
    let e = id.encoding;
    FileHeader {
        ident: id,
        e_type: uint_at(b, 16, 2, e) as u16,
        e_machine: uint_at(b, 18, 2, e) as u16,
        e_version: uint_at(b, 20, 4, e) as u32,
        e_entry: uint_at(b, 24, w, e) as u64,
        e_phoff: uint_at(b, 24 + w, w, e) as u64,
        e_shoff: uint_at(b, 24 + 2 * w, w, e) as u64,
        e_flags: uint_at(b, 24 + 3 * w, 4, e) as u32,
        e_ehsize: uint_at(b, 28 + 3 * w, 2, e) as u16,
        e_phentsize: uint_at(b, 30 + 3 * w, 2, e) as u16,
        e_phnum: uint_at(b, 32 + 3 * w, 2, e) as u16,
        e_shentsize: uint_at(b, 34 + 3 * w, 2, e) as u16,
        e_shnum: uint_at(b, 36 + 3 * w, 2, e) as u16,
        e_shstrndx: uint_at(b, 38 + 3 * w, 2, e) as u16,
    }
}

/// What decoding a file header from `b` gives.
pub open spec fn spec_decode_file_header(b: Seq<u8>) -> Result<FileHeader, DecodeError> {
    match spec_decode_identification(b) {
        Err(e) => Err(e),
        Ok(id) => if b.len() < header_size(id.class) {
            Err(DecodeError::TruncatedInput)
        } else {
            Ok(header_fields(b, id))
        },
    }
}

/// The program header in `b`: the 64-bit layout puts `p_flags` second, the
/// 32-bit layout puts it seventh.
pub open spec fn phdr_fields(b: Seq<u8>, c: ElfClass, e: Encoding) -> ProgramHeader {
    match c {
        ElfClass::Elf64 => ProgramHeader {
            p_type: uint_at(b, 0, 4, e) as u32,
            p_flags: uint_at(b, 4, 4, e) as u32,
            p_offset: uint_at(b, 8, 8, e) as u64,
            p_vaddr: uint_at(b, 16, 8, e) as u64,
            p_paddr: uint_at(b, 24, 8, e) as u64,
            p_filesz: uint_at(b, 32, 8, e) as u64,
            p_memsz: uint_at(b, 40, 8, e) as u64,
            p_align: uint_at(b, 48, 8, e) as u64,
        },
        ElfClass::Elf32 => ProgramHeader {
            p_type: uint_at(b, 0, 4, e) as u32,
            p_offset: uint_at(b, 4, 4, e) as u64,
            p_vaddr: uint_at(b, 8, 4, e) as u64,
            p_paddr: uint_at(b, 12, 4, e) as u64,
            p_filesz: uint_at(b, 16, 4, e) as u64,
            p_memsz: uint_at(b, 20, 4, e) as u64,
            p_flags: uint_at(b, 24, 4, e) as u32,
            p_align: uint_at(b, 28, 4, e) as u64,
        },
    }
}

/// What decoding a program header of class `c` and byte order `e` from `b` gives.
pub open spec fn spec_decode_program_header(b: Seq<u8>, c: ElfClass, e: Encoding) -> Result<
    ProgramHeader,
    DecodeError,
> {
    if b.len() < phdr_size(c) {
        Err(DecodeError::TruncatedInput)
    } else {
        Ok(phdr_fields(b, c, e))
    }
}

/// Decodes the identification block at the start of `bytes`.
pub fn decode_identification(bytes: &[u8]) -> (r: Result<Identification, DecodeError>)
    ensures
        r == spec_decode_identification(bytes@),
{
    if bytes.len() < 4 {
        return Err(DecodeError::TruncatedInput);
    }
    if !(bytes[0] == 0x7f && bytes[1] == 0x45 && bytes[2] == 0x4c && bytes[3] == 0x46) {
        return Err(DecodeError::InvalidMagic);
    }
    if bytes.len() < IDENT_LEN {
        return Err(DecodeError::TruncatedInput);
    }
    let class = match bytes[4] {
        1 => ElfClass::Elf32,
        2 => ElfClass::Elf64,
        _ => return Err(DecodeError::UnsupportedClass),
    };
    let encoding = match bytes[5] {
        1 => Encoding::LittleEndian,
        2 => Encoding::BigEndian,
        _ => return Err(DecodeError::UnsupportedEncoding),
    };
    Ok(
        Identification {
            class,
            encoding,
            version: bytes[6],
            osabi: bytes[7],
            abi_version: bytes[8],
        },
    )
}

/// Bytes per address or offset field of class `c`.
fn class_addr_width(c: ElfClass) -> (r: usize)
    ensures
        r == addr_width(c),
{
    match c {
        ElfClass::Elf32 => 4,
        ElfClass::Elf64 => 8,
    }
}

/// Bytes in a file header of class `c`.
fn class_header_size(c: ElfClass) -> (r: usize)
    ensures
        r == header_size(c),
{
    match c {
        ElfClass::Elf32 => 52,
        ElfClass::Elf64 => 64,
    }
}

/// Bytes in a program header of class `c`.
fn class_phdr_size(c: ElfClass) -> (r: usize)
    ensures
        r == phdr_size(c),
{
    match c {
        ElfClass::Elf32 => 32,
        ElfClass::Elf64 => 56,
    }
}

/// Decodes a file header from `bytes`, in the width and byte order that its
/// identification block names.
pub fn decode_file_header(bytes: &[u8]) -> (r: Result<FileHeader, DecodeError>)
    ensures
        r == spec_decode_file_header(bytes@),
{
    let id = decode_identification(bytes)?;
    if bytes.len() < class_header_size(id.class) {
        return Err(DecodeError::TruncatedInput);
    }
    let w = class_addr_width(id.class);
    let e = id.encoding;
    proof {
        lemma_pow256_values();
    }
    Ok(
        FileHeader {
            ident: id,
            e_type: read_uint(bytes, 16, 2, e) as u16,
            e_machine: read_uint(bytes, 18, 2, e) as u16,
            e_version: read_uint(bytes, 20, 4, e) as u32,
            e_entry: read_uint(bytes, 24, w, e),
            e_phoff: read_uint(bytes, 24 + w, w, e),
            e_shoff: read_uint(bytes, 24 + 2 * w, w, e),
            e_flags: read_uint(bytes, 24 + 3 * w, 4, e) as u32,
            e_ehsize: read_uint(bytes, 28 + 3 * w, 2, e) as u16,
            e_phentsize: read_uint(bytes, 30 + 3 * w, 2, e) as u16,
            e_phnum: read_uint(bytes, 32 + 3 * w, 2, e) as u16,
            e_shentsize: read_uint(bytes, 34 + 3 * w, 2, e) as u16,
            e_shnum: read_uint(bytes, 36 + 3 * w, 2, e) as u16,
            e_shstrndx: read_uint(bytes, 38 + 3 * w, 2, e) as u16,
        },
    )
}

/// Decodes a program header of class `class` from `bytes`, whose fields are in
/// byte order `encoding`; bytes past the record are ignored.
pub fn decode_program_header(bytes: &[u8], class: ElfClass, encoding: Encoding) -> (r: Result<
    ProgramHeader,
    DecodeError,
>)
    ensures
        r == spec_decode_program_header(bytes@, class, encoding),
{
    if bytes.len() < class_phdr_size(class) {
        return Err(DecodeError::TruncatedInput);
    }
    let e = encoding;
    proof {
        lemma_pow256_values();
    }
    match class {
        ElfClass::Elf64 => Ok(
            ProgramHeader {
                p_type: read_uint(bytes, 0, 4, e) as u32,
                p_flags: read_uint(bytes, 4, 4, e) as u32,
                p_offset: read_uint(bytes, 8, 8, e),
                p_vaddr: read_uint(bytes, 16, 8, e),
                p_paddr: read_uint(bytes, 24, 8, e),
                p_filesz: read_uint(bytes, 32, 8, e),
                p_memsz: read_uint(bytes, 40, 8, e),
                p_align: read_uint(bytes, 48, 8, e),
            },
        ),
        ElfClass::Elf32 => Ok(
            ProgramHeader {
                p_type: read_uint(bytes, 0, 4, e) as u32,
                p_offset: read_uint(bytes, 4, 4, e),
                p_vaddr: read_uint(bytes, 8, 4, e),
                p_paddr: read_uint(bytes, 12, 4, e),
                p_filesz: read_uint(bytes, 16, 4, e),
                p_memsz: read_uint(bytes, 20, 4, e),
                p_flags: read_uint(bytes, 24, 4, e) as u32,
                p_align: read_uint(bytes, 28, 4, e),
            },
        ),
    }
}

/// The byte range `(p_offset, p_filesz)` of the file that `ph` describes.
pub fn segment_range(ph: &ProgramHeader) -> (r: (u64, u64))
    ensures
        r == (ph.p_offset, ph.p_filesz),
{
    (ph.p_offset, ph.p_filesz)
}

} // verus!
