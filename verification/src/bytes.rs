//! Big-endian integer fields of the resource table and relocation nodes.
//!
//! Every multi-byte field in the ROM is stored big-endian. The spec functions
//! give the mathematical value of a field at a byte offset; the executable
//! readers are proved to return exactly that value.

use vstd::prelude::*;

verus! {

/// Value of the big-endian 16-bit field at byte offset `i` of `s`.
pub open spec fn be16(s: Seq<u8>, i: int) -> int
    recommends
        0 <= i,
        i + 2 <= s.len(),
{
    s[i] * 0x100 + s[i + 1]
}

/// Value of the big-endian 32-bit field at byte offset `i` of `s`.
pub open spec fn be32(s: Seq<u8>, i: int) -> int
    recommends
        0 <= i,
        i + 4 <= s.len(),
{
    s[i] * 0x1000000 + s[i + 1] * 0x10000 + s[i + 2] * 0x100 + s[i + 3]
}

/// Read the big-endian 16-bit field at byte offset `i` of `s`.
pub fn read_be16(s: &[u8], i: usize) -> (r: u16)
    requires
        i + 2 <= s@.len(),
    ensures
        r == be16(s@, i as int),
{
    let hi = s[i];
    let lo = s[i + 1];
    (hi as u16) * 0x100 + (lo as u16)
}

/// Read the big-endian 32-bit field at byte offset `i` of `s`.
pub fn read_be32(s: &[u8], i: usize) -> (r: u32)
    requires
        i + 4 <= s@.len(),
    ensures
        r == be32(s@, i as int),
{
    let b0 = s[i];
    let b1 = s[i + 1];
    let b2 = s[i + 2];
    let b3 = s[i + 3];
    (b0 as u32) * 0x1000000 + (b1 as u32) * 0x10000 + (b2 as u32) * 0x100 + (b3 as u32)
}

/// The four bytes of `x` in big-endian order, as a byte sequence.
#[verifier::opaque]
pub open spec fn be32_bytes(x: int) -> Seq<u8>
    recommends
        0 <= x < 0x100000000,
{
    seq![
        (x / 0x1000000 % 0x100) as u8,
        (x / 0x10000 % 0x100) as u8,
        (x / 0x100 % 0x100) as u8,
        (x % 0x100) as u8,
    ]
}

/// `s` with the four bytes starting at offset `i` replaced by the big-endian
/// encoding of `x`.
#[verifier::opaque]
pub open spec fn store_be32(s: Seq<u8>, i: int, x: int) -> Seq<u8>
    recommends
        0 <= i,
        i + 4 <= s.len(),
        0 <= x < 0x100000000,
{
    s.update(i, be32_bytes(x)[0]).update(i + 1, be32_bytes(x)[1]).update(i + 2, be32_bytes(x)[2]).update(i + 3, be32_bytes(x)[3])
}

/// Overwrite the four bytes at offset `i` of `s` with `x` in big-endian order.
pub fn write_be32(s: &mut Vec<u8>, i: usize, x: u32)
    requires
        i + 4 <= old(s).len(),
    ensures
        final(s)@ == store_be32(old(s)@, i as int, x as int),
        final(s)@.len() == old(s)@.len(),
{
    proof {
        reveal(store_be32);
        reveal(be32_bytes);
    }
    s[i] = (x / 0x1000000 % 0x100) as u8;
    s[i + 1] = (x / 0x10000 % 0x100) as u8;
    s[i + 2] = (x / 0x100 % 0x100) as u8;
    s[i + 3] = (x % 0x100) as u8;
}

/// Storing a 32-bit field and reading it back gives the stored value, and no
/// byte outside the field changes.
pub proof fn lemma_store_be32_read(s: Seq<u8>, i: int, x: int)
    requires
        0 <= i,
        i + 4 <= s.len(),
        0 <= x < 0x100000000,
    ensures
        be32(store_be32(s, i, x), i) == x,
        store_be32(s, i, x).len() == s.len(),
        forall|j: int| 0 <= j < s.len() && !(i <= j < i + 4) ==> store_be32(s, i, x)[j] == s[j],
{
    reveal(store_be32);
    reveal(be32_bytes);
    let t = store_be32(s, i, x);
    assert(t[i] == x / 0x1000000 % 0x100);
    assert(t[i + 1] == x / 0x10000 % 0x100);
    assert(t[i + 2] == x / 0x100 % 0x100);
    assert(t[i + 3] == x % 0x100);
    assert(x / 0x1000000 % 0x100 * 0x1000000 + x / 0x10000 % 0x100 * 0x10000 + x / 0x100 % 0x100
        * 0x100 + x % 0x100 == x) by (nonlinear_arith)
        requires
            0 <= x < 0x100000000,
    ;
}

} // verus!
