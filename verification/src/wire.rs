//! Byte-level helpers shared by all codecs: big-endian field views over byte
//! sequences, and verified primitives for reading and writing fields of a
//! packet buffer.

use vstd::prelude::*;

verus! {

/// The big-endian 16-bit word at offset `i` of `b`.
pub open spec fn be16_at(b: Seq<u8>, i: int) -> u16
    recommends
        0 <= i,
        i + 2 <= b.len(),
{
    (b[i] * 256 + b[i + 1]) as u16
}

/// The big-endian 32-bit word at offset `i` of `b`.
pub open spec fn be32_at(b: Seq<u8>, i: int) -> u32
    recommends
        0 <= i,
        i + 4 <= b.len(),
{
    (b[i] * 0x1000000 + b[i + 1] * 0x10000 + b[i + 2] * 256 + b[i + 3]) as u32
}

/// High byte of a 16-bit value.
pub open spec fn u16_hi(v: u16) -> u8 {
    (v / 256) as u8
}

/// Low byte of a 16-bit value.
pub open spec fn u16_lo(v: u16) -> u8 {
    (v % 256) as u8
}

/// The four big-endian bytes of a 32-bit value, most significant first.
pub open spec fn u32_be_bytes(v: u32) -> Seq<u8> {
    seq![
        (v / 0x1000000) as u8,
        (v / 0x10000 % 256) as u8,
        (v / 256 % 256) as u8,
        (v % 256) as u8,
    ]
}

/// 32-bit addition modulo 2^32, as TCP sequence arithmetic requires.
pub open spec fn wrap_add32(a: u32, b: u32) -> u32 {
    ((a + b) % 0x100000000) as u32
}

/// Reads the big-endian 16-bit field at offset `i`.
pub fn read_be16(s: &[u8], i: usize) -> (r: u16)
    requires
        i + 2 <= s@.len(),
    ensures
        r == be16_at(s@, i as int),
{
    (s[i] as u16) * 256 + (s[i + 1] as u16)
}

/// Reads the big-endian 32-bit field at offset `i`.
pub fn read_be32(s: &[u8], i: usize) -> (r: u32)
    requires
        i + 4 <= s@.len(),
    ensures
        r == be32_at(s@, i as int),
{
    (s[i] as u32) * 0x1000000 + (s[i + 1] as u32) * 0x10000 + (s[i + 2] as u32) * 256 + (s[i
        + 3] as u32)
}

/// Writes one byte at offset `i`, leaving every other byte unchanged.
pub fn write_u8(v: &mut Vec<u8>, i: usize, val: u8)
    requires
        i < old(v)@.len(),
    ensures
        final(v)@ == old(v)@.update(i as int, val),
        final(v)@.len() == old(v)@.len(),
{
    v.set(i, val);
}

/// Writes the big-endian 16-bit field at offset `i`, leaving every other byte
/// unchanged.
pub fn write_be16(v: &mut Vec<u8>, i: usize, val: u16)
    requires
        i + 2 <= old(v)@.len(),
    ensures
        final(v)@ == old(v)@.update(i as int, u16_hi(val)).update(i as int + 1, u16_lo(val)),
        final(v)@.len() == old(v)@.len(),
        be16_at(final(v)@, i as int) == val,
        forall|k: int| 0 <= k < old(v)@.len() && k != i && k != i + 1 ==> final(v)@[k] == old(v)@[k],
{
    let n = v.len();
    proof {
        assert(i + 2 <= n);
    }
    v.set(i, (val / 256) as u8);
    v.set(i + 1, (val % 256) as u8);
}

/// Writes the big-endian 32-bit field at offset `i`, leaving every other byte
/// unchanged.
pub fn write_be32(v: &mut Vec<u8>, i: usize, val: u32)
    requires
        i + 4 <= old(v)@.len(),
    ensures
        final(v)@.len() == old(v)@.len(),
        final(v)@.subrange(i as int, i as int + 4) == u32_be_bytes(val),
        be32_at(final(v)@, i as int) == val,
        forall|k: int| 0 <= k < old(v)@.len() && !(i <= k < i + 4) ==> final(v)@[k] == old(v)@[k],
{
    let n = v.len();
    proof {
        assert(i + 4 <= n);
    }
    v.set(i, (val / 0x1000000) as u8);
    v.set(i + 1, (val / 0x10000 % 256) as u8);
    v.set(i + 2, (val / 256 % 256) as u8);
    v.set(i + 3, (val % 256) as u8);
    proof {
        assert(final(v)@.subrange(i as int, i as int + 4) =~= u32_be_bytes(val));
        assert(val / 0x1000000 * 0x1000000 + val / 0x10000 % 256 * 0x10000 + val / 256 % 256 * 256
            + val % 256 == val) by (bit_vector);
    }
}

/// Copies `src` into `v` starting at offset `at`, leaving every other byte
/// unchanged.
pub fn write_bytes(v: &mut Vec<u8>, at: usize, src: &[u8])
    requires
        at + src@.len() <= old(v)@.len(),
    ensures
        final(v)@.len() == old(v)@.len(),
        final(v)@.subrange(at as int, at as int + src@.len() as int) == src@,
        forall|k: int|
            0 <= k < old(v)@.len() && !(at <= k < at + src@.len()) ==> final(v)@[k] == old(v)@[k],
{
    let total = v.len();
    let n = src.len();
    let mut i: usize = 0;
    while i < n
        invariant
            n == src@.len(),
            i <= n,
            at + n <= total,
            at + n <= v@.len(),
            v@.len() == old(v)@.len(),
            forall|k: int| at <= k < at + i ==> v@[k] == src@[k - at],
            forall|k: int| 0 <= k < v@.len() && !(at <= k < at + n) ==> v@[k] == old(v)@[k],
        decreases n - i,
    {
        v.set(at + i, src[i]);
        i = i + 1;
    }
    proof {
        assert(final(v)@.subrange(at as int, at as int + src@.len() as int) =~= src@);
    }
}

/// 32-bit wrapping addition.
pub fn add_wrap32(a: u32, b: u32) -> (r: u32)
    ensures
        r == wrap_add32(a, b),
{
    (((a as u64) + (b as u64)) % 0x100000000) as u32
}

/// Two equal-length buffers that agree everywhere outside `[lo, hi)`: the
/// frame a field setter leaves around the field it writes.
pub open spec fn unchanged_outside(before: Seq<u8>, after: Seq<u8>, lo: int, hi: int) -> bool {
    &&& after.len() == before.len()
    &&& forall|k: int| 0 <= k < before.len() && !(lo <= k < hi) ==> after[k] == before[k]
}

} // verus!
