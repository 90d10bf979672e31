//! CRC-16/CCITT-FALSE over byte sequences.

use vstd::prelude::*;

verus! {

/// Generator polynomial x^16 + x^12 + x^5 + 1, without its top term.
pub const POLY: u16 = 0x1021;

/// Register value before any byte is processed.
pub const CRC_INIT: u16 = 0xffff;

/// One shift of the register: shift left, folding in the polynomial when the
/// bit shifted out was set.
pub open spec fn crc_round(c: u16) -> u16 {
    if c & 0x8000u16 != 0u16 {
        (c << 1u16) ^ 0x1021u16
    } else {
        c << 1u16
    }
}

/// `n` successive shifts of the register.
pub open spec fn crc_rounds(c: u16, n: nat) -> u16
    decreases n,
{
    if n == 0 {
        c
    } else {
        crc_round(crc_rounds(c, (n - 1) as nat))
    }
}

/// The register after one more byte: the byte enters the high half, then
/// eight shifts.
pub open spec fn crc_update(c: u16, b: u8) -> u16 {
    crc_rounds(c ^ ((b as u16) << 8u16), 8)
}

/// The checksum of a byte sequence.
pub open spec fn crc16_of(s: Seq<u8>) -> u16
    decreases s.len(),
{
    if s.len() == 0 {
        0xffffu16
    } else {
        crc_update(crc16_of(s.drop_last()), s.last())
    }
}

/// CRC-16/CCITT-FALSE of `data`: register 0xFFFF, polynomial 0x1021, most
/// significant bit first, no final xor.
pub fn crc16(data: &Vec<u8>) -> (r: u16)
    ensures
        r == crc16_of(data@),
        data@.len() == 0 ==> r == CRC_INIT,
{
    let mut crc: u16 = CRC_INIT;
    let n = data.len();
    for i in 0..n
        invariant
            n == data@.len(),
            crc == crc16_of(data@.take(i as int)),
    {
        let b: u8 = data[i];
        crc = crc ^ ((b as u16) << 8u16);
        let ghost start = crc;
        for k in 0..8u32
            invariant
                crc == crc_rounds(start, k as nat),
        {
            if crc & 0x8000u16 != 0 {
                crc = (crc << 1u16) ^ POLY;
            } else {
                crc = crc << 1u16;
            }
        }
        assert(data@.take(i + 1).drop_last() =~= data@.take(i as int));
    }
    assert(data@.take(n as int) =~= data@);
    crc
}

proof fn lemma_round_injective(a: u16, b: u16)
    by (bit_vector)
    requires
        crc_round(a) == crc_round(b),
    ensures
        a == b,
{
}

proof fn lemma_rounds_injective(a: u16, b: u16, n: nat)
    requires
        crc_rounds(a, n) == crc_rounds(b, n),
    ensures
        a == b,
    decreases n,
{
    if n > 0 {
        lemma_round_injective(crc_rounds(a, (n - 1) as nat), crc_rounds(b, (n - 1) as nat));
        lemma_rounds_injective(a, b, (n - 1) as nat);
    }
}

/// For a fixed byte, distinct registers stay distinct.
proof fn lemma_update_injective_in_register(c1: u16, c2: u16, b: u8)
    requires
        crc_update(c1, b) == crc_update(c2, b),
    ensures
        c1 == c2,
{
    let x = (b as u16) << 8u16;
    lemma_rounds_injective(c1 ^ x, c2 ^ x, 8);
    assert(c1 ^ x == c2 ^ x ==> c1 == c2) by (bit_vector);
}

/// For a fixed register, distinct bytes give distinct registers.
proof fn lemma_update_injective_in_byte(c: u16, b1: u8, b2: u8)
    requires
        crc_update(c, b1) == crc_update(c, b2),
    ensures
        b1 == b2,
{
    lemma_rounds_injective(c ^ ((b1 as u16) << 8u16), c ^ ((b2 as u16) << 8u16), 8);
    assert(c ^ ((b1 as u16) << 8u16) == c ^ ((b2 as u16) << 8u16) ==> b1 == b2) by (bit_vector);
}

/// Two sequences of one length that differ in exactly one position have
/// different checksums.
pub proof fn lemma_crc16_detects_one_changed_byte(s: Seq<u8>, t: Seq<u8>, i: int)
    requires
        s.len() == t.len(),
        0 <= i < s.len(),
        s[i] != t[i],
        forall|j: int| 0 <= j < s.len() && j != i ==> s[j] == t[j],
    ensures
        crc16_of(s) != crc16_of(t),
    decreases s.len(),
{
    let n = s.len() - 1;
    if i == n {
        assert(s.drop_last() =~= t.drop_last());
        if crc16_of(s) == crc16_of(t) {
            lemma_update_injective_in_byte(crc16_of(s.drop_last()), s.last(), t.last());
        }
    } else {
        assert(s.last() == t.last());
        lemma_crc16_detects_one_changed_byte(s.drop_last(), t.drop_last(), i);
        if crc16_of(s) == crc16_of(t) {
            lemma_update_injective_in_register(
                crc16_of(s.drop_last()),
                crc16_of(t.drop_last()),
                s.last(),
            );
        }
    }
}

/// Flipping any single bit of a non-empty input changes its checksum.
pub proof fn lemma_crc16_detects_single_bit_flip(s: Seq<u8>, i: int, bit: u8)
    requires
        0 <= i < s.len(),
        bit < 8,
    ensures
        crc16_of(s.update(i, s[i] ^ (1u8 << bit))) != crc16_of(s),
{
    let b = s[i];
    assert(bit < 8 ==> b ^ (1u8 << bit) != b) by (bit_vector);
    lemma_crc16_detects_one_changed_byte(s.update(i, b ^ (1u8 << bit)), s, i);
}

} // verus!
