//! Reading the file header and the program header table out of a byte source.
use vstd::prelude::*;
use crate::bytes::{lemma_pow256_values, pow256};
use crate::layout::{
    addr_width, decode_file_header, decode_program_header, spec_decode_file_header,
    spec_decode_program_header, DecodeError, ElfClass, FileHeader, ProgramHeader,
};

verus! {

/// Why the header or the program header table could not be read.
#[derive(Debug, Clone, Copy, PartialEq, Eq, Structural)]
pub enum ReadError {
    /// The source ends before the record does.
    ShortRead,
    /// An offset of the table does not fit the file's address width.
    Overflow,
    /// The bytes were there but are not a valid record.
    Decode(DecodeError),
}

/// Bytes read at offset 0 for the file header: the size of the largest
/// (64-bit) file header.
pub const FILE_HEADER_READ_LEN: usize = 64;

/// Read access to a byte source holding an ELF file; the source itself is
/// owned by the caller.
pub struct ElfReader<'a> {
    source: &'a [u8],
}

impl<'a> View for ElfReader<'a> {
    type V = Seq<u8>;

    closed spec fn view(&self) -> Seq<u8> {
        self.source@
    }
}

/// What reading the file header from a source holding `src` gives.
pub open spec fn spec_read_file_header(src: Seq<u8>) -> Result<FileHeader, ReadError> {
    if src.len() < FILE_HEADER_READ_LEN {
        Err(ReadError::ShortRead)
    } else {
        match spec_decode_file_header(src.subrange(0, FILE_HEADER_READ_LEN as int)) {
            Ok(h) => Ok(h),
            Err(e) => Err(ReadError::Decode(e)),
        }
    }
}

/// One past the largest offset that the address width of `c` can express.
pub open spec fn addr_limit(c: ElfClass) -> nat {
    pow256(addr_width(c) as nat)
}

/// Offset of slot `i` of the program header table.
pub open spec fn slot_offset(h: FileHeader, i: int) -> int {
    h.e_phoff + i * h.e_phentsize
}

/// Offset one past the end of the program header table.
pub open spec fn table_end(h: FileHeader) -> int {
    slot_offset(h, h.e_phnum as int)
}

/// Reading slot `i`: `e_phentsize` bytes at its offset, decoded in the class
/// and byte order of `h`.
pub open spec fn spec_read_slot(src: Seq<u8>, h: FileHeader, i: int) -> Result<
    ProgramHeader,
    ReadError,
> {
    let off = slot_offset(h, i);
    let end = off + h.e_phentsize;
    if end > src.len() {
        Err(ReadError::ShortRead)
    } else {
        match spec_decode_program_header(
            src.subrange(off, end),
            h.ident.class,
            h.ident.encoding,
        ) {
            Ok(p) => Ok(p),
            Err(e) => Err(ReadError::Decode(e)),
        }
    }
}

/// Reading slots `0 .. n` in order, stopping at the first that fails.
pub open spec fn spec_read_table(src: Seq<u8>, h: FileHeader, n: nat) -> Result<
    Seq<ProgramHeader>,
    ReadError,
>
    decreases n,
{
    if n == 0 {
        Ok(Seq::empty())
    } else {
        match spec_read_table(src, h, (n - 1) as nat) {
            Err(e) => Err(e),
            Ok(s) => match spec_read_slot(src, h, n - 1) {
                Err(e) => Err(e),
                Ok(p) => Ok(s.push(p)),
            },
        }
    }
}

/// What reading the program header table from a source holding `src` gives:
/// the header first, then a check that the table's end fits the address
/// width, then the slots in order.
pub open spec fn spec_read_program_headers(src: Seq<u8>) -> Result<Seq<ProgramHeader>, ReadError> {
    match spec_read_file_header(src) {
        Err(e) => Err(e),
        Ok(h) => if table_end(h) >= addr_limit(h.ident.class) {
            Err(ReadError::Overflow)
        } else {
            spec_read_table(src, h, h.e_phnum as nat)
        },
    }
}

proof fn lemma_table_err_persists(src: Seq<u8>, h: FileHeader, m: nat, n: nat)
    requires
        m <= n,
        spec_read_table(src, h, m) is Err,
    ensures
        spec_read_table(src, h, n) == spec_read_table(src, h, m),
    decreases n,
{
    if m < n {
        lemma_table_err_persists(src, h, m, (n - 1) as nat);
    }
}

impl<'a> ElfReader<'a> {
    /// Borrows `source` for reading; nothing is read yet.
    pub fn open(source: &'a [u8]) -> (r: ElfReader<'a>)
        ensures
            r@ == source@,
    {
        ElfReader { source }
    }

    /// Reads and decodes the file header at offset 0.
    pub fn read_file_header(&self) -> (r: Result<FileHeader, ReadError>)
        ensures
            r == spec_read_file_header(self@),
    {
        if self.source.len() < FILE_HEADER_READ_LEN {
            return Err(ReadError::ShortRead);
        }
        match decode_file_header(&self.source[0..FILE_HEADER_READ_LEN]) {
            Ok(h) => Ok(h),
            Err(e) => Err(ReadError::Decode(e)),
        }
    }

    /// Reads and decodes slot `i` of the table that `h` describes.
    fn read_slot(&self, h: &FileHeader, i: u16) -> (r: Result<ProgramHeader, ReadError>)
        requires
            i < h.e_phnum,
            table_end(*h) < addr_limit(h.ident.class),
        ensures
            r == spec_read_slot(self@, *h, i as int),
    {
        proof {
            lemma_pow256_values();
            assert(slot_offset(*h, i as int) + h.e_phentsize <= table_end(*h)) by (nonlinear_arith)
                requires
                    i < h.e_phnum,
            ;
            assert(addr_limit(h.ident.class) <= 0x1_0000_0000_0000_0000);
        }
        let off: u64 = h.e_phoff + i as u64 * h.e_phentsize as u64;
        let end: u64 = off + h.e_phentsize as u64;
        if end > self.source.len() as u64 {
            return Err(ReadError::ShortRead);
        }
        let slot = &self.source[off as usize..end as usize];
        match decode_program_header(slot, h.ident.class, h.ident.encoding) {
            Ok(p) => Ok(p),
            Err(e) => Err(ReadError::Decode(e)),
        }
    }

    /// Reads the file header, then every entry of the program header table, in
    /// table order.
    pub fn read_program_headers(&self) -> (r: Result<Vec<ProgramHeader>, ReadError>)
        ensures
            match r {
                Ok(v) => spec_read_program_headers(self@) == Ok::<Seq<ProgramHeader>, ReadError>(v@),
                Err(e) => spec_read_program_headers(self@) == Err::<Seq<ProgramHeader>, ReadError>(e),
            },
    {
        let h = self.read_file_header()?;
        proof {
            let (n, w) = (h.e_phnum as int, h.e_phentsize as int);
            assert(n * w <= 0xffff * 0xffff) by (nonlinear_arith)
                requires
                    0 <= n <= 0xffff,
                    0 <= w <= 0xffff,
            ;
        }
        let span: u64 = h.e_phnum as u64 * h.e_phentsize as u64;
        let end = h.e_phoff.checked_add(span);
        let fits = match end {
            None => false,
            Some(x) => match h.ident.class {
                ElfClass::Elf64 => true,
                ElfClass::Elf32 => x <= 0xffff_ffff,
            },
        };
        proof {
            lemma_pow256_values();
        }
        if !fits {
            return Err(ReadError::Overflow);
        }
        let mut v: Vec<ProgramHeader> = Vec::new();
        let mut i: u16 = 0;
        while i < h.e_phnum
            invariant
                h == spec_read_file_header(self@)->Ok_0,
                spec_read_file_header(self@) is Ok,
                table_end(h) < addr_limit(h.ident.class),
                i <= h.e_phnum,
                spec_read_table(self@, h, i as nat) == Ok::<Seq<ProgramHeader>, ReadError>(v@),
            decreases h.e_phnum - i,
        {
            match self.read_slot(&h, i) {
                Ok(p) => {
                    v.push(p);
                },
                Err(e) => {
                    proof {
                        lemma_table_err_persists(self@, h, (i + 1) as nat, h.e_phnum as nat);
                    }
                    return Err(e);
                },
            }
            i = i + 1;
        }
        Ok(v)
    }
}

} // verus!
