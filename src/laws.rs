//! Facts about reading a whole source, proved from the readers' definitions.
use vstd::prelude::*;
use crate::bytes::{lemma_pow256_values, lemma_uint_at_bound};
use crate::layout::{
    addr_width, phdr_fields, phdr_size, spec_decode_file_header, spec_decode_identification,
    DecodeError, ProgramHeader,
};
use crate::reader::{
    addr_limit, slot_offset, spec_read_file_header, spec_read_program_headers, spec_read_slot,
    spec_read_table, table_end, ReadError, FILE_HEADER_READ_LEN,
};

verus! {

/// Reading the first `n` slots succeeds exactly when each of them can be read,
/// and then yields `n` entries, entry `i` being slot `i`.
pub proof fn lemma_table_slots(src: Seq<u8>, h: crate::layout::FileHeader, n: nat)
    ensures
        spec_read_table(src, h, n) is Ok <==> (forall|i: int|
            0 <= i < n ==> #[trigger] spec_read_slot(src, h, i) is Ok),
        spec_read_table(src, h, n) is Ok ==> {
            let s = spec_read_table(src, h, n)->Ok_0;
            &&& s.len() == n
            &&& forall|i: int|
                0 <= i < n ==> #[trigger] spec_read_slot(src, h, i) == Ok::<
                    ProgramHeader,
                    ReadError,
                >(s[i])
        },
    decreases n,
{
    if n > 0 {
        lemma_table_slots(src, h, (n - 1) as nat);
        if spec_read_table(src, h, (n - 1) as nat) is Ok && spec_read_slot(src, h, n - 1) is Ok {
            let s = spec_read_table(src, h, (n - 1) as nat)->Ok_0;
            let t = spec_read_table(src, h, n)->Ok_0;
            assert forall|i: int| 0 <= i < n implies #[trigger] spec_read_slot(src, h, i) == Ok::<
                ProgramHeader,
                ReadError,
            >(t[i]) by {
                if i < n - 1 {
                    assert(t[i] == s[i]);
                }
            }
        }
    }
}

/// A successful read of the program headers yields exactly `e_phnum` entries,
/// in table order: entry `i` is the record in slot `i`.
pub proof fn lemma_program_headers_in_file_order(src: Seq<u8>)
    requires
        spec_read_program_headers(src) is Ok,
    ensures
        spec_read_file_header(src) is Ok,
        ({
            let h = spec_read_file_header(src)->Ok_0;
            let s = spec_read_program_headers(src)->Ok_0;
            &&& s.len() == h.e_phnum
            &&& forall|i: int|
                0 <= i < s.len() ==> #[trigger] spec_read_slot(src, h, i) == Ok::<
                    ProgramHeader,
                    ReadError,
                >(s[i])
        }),
{
    let h = spec_read_file_header(src)->Ok_0;
    lemma_table_slots(src, h, h.e_phnum as nat);
}

/// In a valid file (the table lies inside the source, its end fits the address
/// width, and each slot is large enough for a program header) reading the
/// program headers succeeds with `e_phnum` entries, entry `i` decoded from the
/// slot at `e_phoff + i * e_phentsize`.
pub proof fn lemma_valid_table_reads_in_file_order(src: Seq<u8>)
    requires
        spec_read_file_header(src) is Ok,
        table_end(spec_read_file_header(src)->Ok_0) <= src.len(),
        table_end(spec_read_file_header(src)->Ok_0) < addr_limit(
            spec_read_file_header(src)->Ok_0.ident.class,
        ),
        spec_read_file_header(src)->Ok_0.e_phentsize >= phdr_size(
            spec_read_file_header(src)->Ok_0.ident.class,
        ),
    ensures
        spec_read_program_headers(src) is Ok,
        ({
            let h = spec_read_file_header(src)->Ok_0;
            let s = spec_read_program_headers(src)->Ok_0;
            &&& s.len() == h.e_phnum
            &&& forall|i: int|
                0 <= i < s.len() ==> #[trigger] s[i] == phdr_fields(
                    src.subrange(slot_offset(h, i), slot_offset(h, i) + h.e_phentsize),
                    h.ident.class,
                    h.ident.encoding,
                )
        }),
{
    let h = spec_read_file_header(src)->Ok_0;
    assert forall|i: int| 0 <= i < h.e_phnum implies #[trigger] spec_read_slot(src, h, i) is Ok by {
        let (n, w, o) = (h.e_phnum as int, h.e_phentsize as int, h.e_phoff as int);
        assert(o + i * w + w <= o + n * w) by (nonlinear_arith)
            requires
                0 <= i < n,
                0 <= w,
        ;
    }
    lemma_table_slots(src, h, h.e_phnum as nat);
    let s = spec_read_program_headers(src)->Ok_0;
    assert forall|i: int| 0 <= i < s.len() implies #[trigger] s[i] == phdr_fields(
        src.subrange(slot_offset(h, i), slot_offset(h, i) + h.e_phentsize),
        h.ident.class,
        h.ident.encoding,
    ) by {
        assert(spec_read_slot(src, h, i) is Ok);
    }
}

/// Bytes that do not start with `0x7F 'E' 'L' 'F'` are rejected as not ELF,
/// whatever follows, and no other field decides the outcome.
pub proof fn lemma_bad_magic_rejected(b: Seq<u8>)
    requires
        b.len() >= 4,
        b.subrange(0, 4) != seq![0x7fu8, 0x45u8, 0x4cu8, 0x46u8],
    ensures
        spec_decode_identification(b) == Err::<crate::layout::Identification, DecodeError>(
            DecodeError::InvalidMagic,
        ),
        spec_decode_file_header(b) == Err::<crate::layout::FileHeader, DecodeError>(
            DecodeError::InvalidMagic,
        ),
        b.len() >= FILE_HEADER_READ_LEN ==> spec_read_file_header(b) == Err::<
            crate::layout::FileHeader,
            ReadError,
        >(ReadError::Decode(DecodeError::InvalidMagic)),
        b.len() >= FILE_HEADER_READ_LEN ==> spec_read_program_headers(b) == Err::<
            Seq<ProgramHeader>,
            ReadError,
        >(ReadError::Decode(DecodeError::InvalidMagic)),
{
    if b[0] == 0x7f && b[1] == 0x45 && b[2] == 0x4c && b[3] == 0x46 {
        assert(b.subrange(0, 4) =~= seq![0x7fu8, 0x45u8, 0x4cu8, 0x46u8]);
    }
    if b.len() >= FILE_HEADER_READ_LEN {
        let p = b.subrange(0, FILE_HEADER_READ_LEN as int);
        assert(p[0] == b[0] && p[1] == b[1] && p[2] == b[2] && p[3] == b[3]);
    }
}

/// A source shorter than the largest file header yields a short read, for the
/// header and for the table.
pub proof fn lemma_short_source_rejected(src: Seq<u8>)
    requires
        src.len() < FILE_HEADER_READ_LEN,
    ensures
        spec_read_file_header(src) == Err::<crate::layout::FileHeader, ReadError>(
            ReadError::ShortRead,
        ),
        spec_read_program_headers(src) == Err::<Seq<ProgramHeader>, ReadError>(
            ReadError::ShortRead,
        ),
{
}

/// The file header read is a function of the source's first bytes alone: two
/// sources that agree there (in particular, one source read twice) give the
/// same result.
pub proof fn lemma_file_header_read_deterministic(a: Seq<u8>, b: Seq<u8>)
    requires
        a == b || (a.len() >= FILE_HEADER_READ_LEN && b.len() >= FILE_HEADER_READ_LEN
            && a.subrange(0, FILE_HEADER_READ_LEN as int) == b.subrange(
            0,
            FILE_HEADER_READ_LEN as int,
        )),
    ensures
        spec_read_file_header(a) == spec_read_file_header(b),
{
}

/// A header with no program header entries yields an empty table.
pub proof fn lemma_no_entries_empty_table(src: Seq<u8>)
    requires
        spec_read_file_header(src) is Ok,
        spec_read_file_header(src)->Ok_0.e_phnum == 0,
    ensures
        spec_read_program_headers(src) == Ok::<Seq<ProgramHeader>, ReadError>(Seq::empty()),
{
    let h = spec_read_file_header(src)->Ok_0;
    let p = src.subrange(0, FILE_HEADER_READ_LEN as int);
    let w = addr_width(h.ident.class);
    assert(spec_decode_file_header(p) is Ok);
    lemma_uint_at_bound(p, 24 + w, w, h.ident.encoding);
    lemma_pow256_values();
}

/// A table whose end does not fit the address width is refused with
/// `Overflow` before any entry is read.
pub proof fn lemma_table_overflow_refused(src: Seq<u8>)
    requires
        spec_read_file_header(src) is Ok,
        table_end(spec_read_file_header(src)->Ok_0) >= addr_limit(
            spec_read_file_header(src)->Ok_0.ident.class,
        ),
    ensures
        spec_read_program_headers(src) == Err::<Seq<ProgramHeader>, ReadError>(
            ReadError::Overflow,
        ),
{
}

} // verus!
