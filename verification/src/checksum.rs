//! CRC-32/IEEE (the Ethernet/PKZIP variant) in its bitwise form: reflected
//! polynomial 0xEDB88320, initial register 0xFFFFFFFF, output inverted.

use vstd::prelude::*;

verus! {

/// The reflected CRC-32/IEEE polynomial.
pub const CRC32_POLY: u32 = 0xEDB8_8320;

/// The initial value of the running register.
pub const CRC32_INIT: u32 = 0xFFFF_FFFF;

/// One register step: shift right, folding the polynomial in when the low
/// bit was set.
pub open spec fn crc32_step(c: u32) -> u32 {
    if c & 1 == 1 {
        (c >> 1) ^ CRC32_POLY
    } else {
        c >> 1
    }
}

/// The register after n single steps.
pub open spec fn crc32_steps(c: u32, n: nat) -> u32
    decreases n,
{
    if n == 0 {
        c
    } else {
        crc32_step(crc32_steps(c, (n - 1) as nat))
    }
}

/// The register after one byte is folded in: the byte enters the low bits,
/// then eight single steps run.
pub open spec fn crc32_update(c: u32, b: u8) -> u32 {
    crc32_steps(c ^ (b as u32), 8)
}

/// The register after every byte of s is folded into c, left to right.
pub open spec fn crc32_register_from(c: u32, s: Seq<u8>) -> u32
    decreases s.len(),
{
    if s.len() == 0 {
        c
    } else {
        crc32_update(crc32_register_from(c, s.drop_last()), s.last())
    }
}

/// CRC-32/IEEE of a byte sequence.
pub open spec fn crc32(s: Seq<u8>) -> u32 {
    !crc32_register_from(CRC32_INIT, s)
}

/// Folding a concatenation into the register equals folding its parts in turn.
pub proof fn lemma_crc32_register_concat(c: u32, s1: Seq<u8>, s2: Seq<u8>)
    ensures
        crc32_register_from(c, s1 + s2) == crc32_register_from(crc32_register_from(c, s1), s2),
    decreases s2.len(),
{
    if s2.len() == 0 {
        assert(s1 + s2 =~= s1);
    } else {
        lemma_crc32_register_concat(c, s1, s2.drop_last());
        assert((s1 + s2).drop_last() =~= s1 + s2.drop_last());
        assert((s1 + s2).last() == s2.last());
    }
}

/// Folds one byte into the register by eight bitwise steps.
fn crc32_byte(c: u32, b: u8) -> (r: u32)
    ensures
        r == crc32_update(c, b),
{
    let mut reg = c ^ (b as u32);
    let mut k: usize = 0;
    while k < 8
        invariant
            k <= 8,
            reg == crc32_steps(c ^ (b as u32), k as nat),
        decreases 8 - k,
    {
        reg = if reg & 1 == 1 {
            (reg >> 1) ^ CRC32_POLY
        } else {
            reg >> 1
        };
        k = k + 1;
    }
    reg
}

/// Folds every byte of data into the register c, left to right.
pub(crate) fn crc32_fold(c: u32, data: &[u8]) -> (r: u32)
    ensures
        r == crc32_register_from(c, data@),
{
    let mut reg = c;
    let mut i: usize = 0;
    let n = data.len();
    while i < n
        invariant
            i <= n,
            n == data@.len(),
            reg == crc32_register_from(c, data@.take(i as int)),
        decreases n - i,
    {
        reg = crc32_byte(reg, data[i]);
        proof {
            assert(data@.take(i + 1).drop_last() =~= data@.take(i as int));
            assert(data@.take(i + 1).last() == data@[i as int]);
        }
        i = i + 1;
    }
    proof {
        assert(data@.take(n as int) =~= data@);
    }
    reg
}

/// Computes CRC-32/IEEE over a byte range, bit-for-bit compatible with the
/// common table-driven implementations.
pub fn crc32_ieee(data: &[u8]) -> (r: u32)
    ensures
        r == crc32(data@),
{
    !crc32_fold(CRC32_INIT, data)
}

} // verus!
