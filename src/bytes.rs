use vstd::prelude::*;

verus! {

/// Byte order of the multi-byte fields of an ELF file.
#[derive(Debug, Clone, Copy, PartialEq, Eq, Structural)]
pub enum Encoding {
    LittleEndian,
    BigEndian,
}

/// `256` raised to the power `n`.
pub open spec fn pow256(n: nat) -> nat
    decreases n,
{
    if n == 0 {
        1
    } else {
        256 * pow256((n - 1) as nat)
    }
}

/// Value of `s` read as an unsigned little-endian integer.
pub open spec fn le_value(s: Seq<u8>) -> nat
    decreases s.len(),
{
    if s.len() == 0 {
        0
    } else {
        s[0] as nat + 256 * le_value(s.drop_first())
    }
}

/// Value of `s` read as an unsigned big-endian integer.
pub open spec fn be_value(s: Seq<u8>) -> nat
    decreases s.len(),
{
    if s.len() == 0 {
        0
    } else {
        256 * be_value(s.drop_last()) + s.last() as nat
    }
}

/// Value of the `width` bytes of `b` that start at `off`, in byte order `enc`.
pub open spec fn uint_at(b: Seq<u8>, off: int, width: int, enc: Encoding) -> nat {
    let s = b.subrange(off, off + width);
    match enc {
        Encoding::LittleEndian => le_value(s),
        Encoding::BigEndian => be_value(s),
    }
}

/// The powers of 256 that field widths use.
pub proof fn lemma_pow256_values()
    ensures
        pow256(1) == 0x100,
        pow256(2) == 0x1_0000,
        pow256(4) == 0x1_0000_0000,
        pow256(8) == 0x1_0000_0000_0000_0000,
{
    reveal_with_fuel(pow256, 9);
}

pub proof fn lemma_pow256_succ(n: nat)
    ensures
        pow256(n + 1) == 256 * pow256(n),
{
}

/// A little-endian value fits in its length.
pub proof fn lemma_le_bound(s: Seq<u8>)
    ensures
        le_value(s) < pow256(s.len()),
    decreases s.len(),
{
    if s.len() > 0 {
        lemma_le_bound(s.drop_first());
    }
}

/// A big-endian value fits in its length.
pub proof fn lemma_be_bound(s: Seq<u8>)
    ensures
        be_value(s) < pow256(s.len()),
    decreases s.len(),
{
    if s.len() > 0 {
        lemma_be_bound(s.drop_last());
    }
}

/// Every field value fits in its width.
pub proof fn lemma_uint_at_bound(b: Seq<u8>, off: int, width: int, enc: Encoding)
    requires
        0 <= off,
        0 <= width,
        off + width <= b.len(),
    ensures
        uint_at(b, off, width, enc) < pow256(width as nat),
{
    let s = b.subrange(off, off + width);
    lemma_le_bound(s);
    lemma_be_bound(s);
}

/// Reads the `width`-byte unsigned integer at `off` in `b`, in byte order `enc`.
pub fn read_uint(b: &[u8], off: usize, width: usize, enc: Encoding) -> (r: u64)
    requires
        width <= 8,
        off + width <= b@.len(),
    ensures
        r as nat == uint_at(b@, off as int, width as int, enc),
        (r as nat) < pow256(width as nat),
{
    let ghost s = b@.subrange(off as int, off + width);
    proof {
        lemma_uint_at_bound(b@, off as int, width as int, enc);
        lemma_pow256_values();
    }
    let n = b.len();
    let mut v: u64 = 0;
    match enc {
        Encoding::BigEndian => {
            let mut i: usize = 0;
            while i < width
                invariant
                    width <= 8,
                    off + width <= n == b@.len(),
                    s == b@.subrange(off as int, off + width),
                    i <= width,
                    v as nat == be_value(s.subrange(0, i as int)),
                    (v as nat) < pow256(i as nat),
                decreases width - i,
            {
                let ghost prefix = s.subrange(0, i as int + 1);
                proof {
                    assert(prefix.drop_last() == s.subrange(0, i as int));
                    lemma_pow256_succ(i as nat);
                    lemma_be_bound(prefix);
                    lemma_pow256_mono((i + 1) as nat, 8);
                    lemma_pow256_values();
                }
                v = v * 256 + b[off + i] as u64;
                i = i + 1;
            }
            assert(s.subrange(0, width as int) == s);
        },
        Encoding::LittleEndian => {
            let mut i: usize = width;
            while i > 0
                invariant
                    width <= 8,
                    off + width <= n == b@.len(),
                    s == b@.subrange(off as int, off + width),
                    i <= width,
                    v as nat == le_value(s.subrange(i as int, width as int)),
                    (v as nat) < pow256((width - i) as nat),
                decreases i,
            {
                let ghost suffix = s.subrange(i - 1, width as int);
                proof {
                    assert(suffix.drop_first() == s.subrange(i as int, width as int));
                    lemma_pow256_succ((width - i) as nat);
                    lemma_le_bound(suffix);
                    lemma_pow256_mono((width - i + 1) as nat, 8);
                    lemma_pow256_values();
                }
                v = b[off + i - 1] as u64 + 256 * v;
                i = i - 1;
            }
            assert(s.subrange(0, width as int) == s);
        },
    }
    v
}

pub proof fn lemma_pow256_mono(m: nat, n: nat)
    requires
        m <= n,
    ensures
        pow256(m) <= pow256(n),
    decreases n,
{
    if m < n {
        lemma_pow256_mono(m, (n - 1) as nat);
    }
}

} // verus!
