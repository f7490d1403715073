//! CRC16-CCITT used by the Nordic DFU protocol.
//!
//! Polynomial 0x8005, initial value 0xFFFF, bit-reversed.
use vstd::prelude::*;

verus! {

/// One byte of the CRC update, exactly as the bootloader computes it.
pub open spec fn crc16_step(crc: u16, byte: u8) -> u16 {
    let swapped = ((crc >> 8u16) & 0x00FFu16) | ((crc << 8u16) & 0xFF00u16);
    let mixed = swapped ^ (byte as u16);
    let a = mixed ^ ((mixed & 0x00FFu16) >> 4u16);
    let b = a ^ ((a << 8u16) << 4u16);
    b ^ (((b & 0x00FFu16) << 4u16) << 1u16)
}

/// The CRC of a byte sequence: the step folded over the bytes from 0xFFFF.
pub open spec fn crc16_spec(data: Seq<u8>) -> u16
    decreases data.len(),
{
    if data.len() == 0 {
        0xFFFFu16
    } else {
        crc16_step(crc16_spec(data.drop_last()), data.last())
    }
}

/// CRC16 of `data`.
pub fn calc_crc16(data: &[u8]) -> (crc: u16)
    ensures
        crc == crc16_spec(data@),
{
    let mut crc: u16 = 0xFFFF;
    let mut i: usize = 0;
    while i < data.len()
        invariant
            i <= data@.len(),
            crc == crc16_spec(data@.subrange(0, i as int)),
        decreases data@.len() - i,
    {
        let byte = data[i];
        proof {
            assert(data@.subrange(0, i as int + 1).drop_last() =~= data@.subrange(0, i as int));
        }
        crc = ((crc >> 8) & 0x00FF) | ((crc << 8) & 0xFF00);
        crc = crc ^ (byte as u16);
        crc = crc ^ ((crc & 0x00FF) >> 4);
        crc = crc ^ ((crc << 8) << 4);
        crc = crc ^ (((crc & 0x00FF) << 4) << 1);
        i = i + 1;
    }
    assert(data@.subrange(0, data@.len() as int) =~= data@);
    crc
}

/// For a fixed running value, different bytes give different results:
/// all eight bits of the byte enter the CRC.
pub proof fn law_step_depends_on_whole_byte(crc: u16, b1: u8, b2: u8)
    ensures
        crc16_step(crc, b1) == crc16_step(crc, b2) ==> b1 == b2,
{
    assert(((((((crc >> 8u16) & 0x00FFu16) | ((crc << 8u16) & 0xFF00u16)) ^ (b1 as u16)) ^ ((((((
    crc >> 8u16) & 0x00FFu16) | ((crc << 8u16) & 0xFF00u16)) ^ (b1 as u16)) & 0x00FFu16) >> 4u16))
        == (((((crc >> 8u16) & 0x00FFu16) | ((crc << 8u16) & 0xFF00u16)) ^ (b2 as u16)) ^ ((((((
    crc >> 8u16) & 0x00FFu16) | ((crc << 8u16) & 0xFF00u16)) ^ (b2 as u16)) & 0x00FFu16) >> 4u16)))
        ==> b1 == b2) by (bit_vector);
    lemma_step_tail_injective(crc, b1, b2);
}

/// The last three mixing operations of a step lose nothing.
proof fn lemma_step_tail_injective(crc: u16, b1: u8, b2: u8)
    ensures
        crc16_step(crc, b1) == crc16_step(crc, b2) ==> {
            let swapped = ((crc >> 8u16) & 0x00FFu16) | ((crc << 8u16) & 0xFF00u16);
            let m1 = swapped ^ (b1 as u16);
            let m2 = swapped ^ (b2 as u16);
            m1 ^ ((m1 & 0x00FFu16) >> 4u16) == m2 ^ ((m2 & 0x00FFu16) >> 4u16)
        },
{
    let swapped = ((crc >> 8u16) & 0x00FFu16) | ((crc << 8u16) & 0xFF00u16);
    let m1 = swapped ^ (b1 as u16);
    let m2 = swapped ^ (b2 as u16);
    let a1 = m1 ^ ((m1 & 0x00FFu16) >> 4u16);
    let a2 = m2 ^ ((m2 & 0x00FFu16) >> 4u16);
    lemma_mix_injective(a1, a2);
}

/// `b = a ^ (a << 12)` followed by `b ^ ((b & 0xFF) << 5)` is one to one.
proof fn lemma_mix_injective(a1: u16, a2: u16)
    ensures
        ({
            let b1 = a1 ^ ((a1 << 8u16) << 4u16);
            b1 ^ (((b1 & 0x00FFu16) << 4u16) << 1u16)
        }) == ({
            let b2 = a2 ^ ((a2 << 8u16) << 4u16);
            b2 ^ (((b2 & 0x00FFu16) << 4u16) << 1u16)
        }) ==> a1 == a2,
{
    assert((a1 ^ ((a1 << 8u16) << 4u16)) ^ ((((a1 ^ ((a1 << 8u16) << 4u16)) & 0x00FFu16) << 4u16)
        << 1u16) == (a2 ^ ((a2 << 8u16) << 4u16)) ^ ((((a2 ^ ((a2 << 8u16) << 4u16)) & 0x00FFu16)
        << 4u16) << 1u16) ==> a1 == a2) by (bit_vector);
}

/// For a fixed byte, different running values give different results.
pub proof fn law_step_keeps_differences(c1: u16, c2: u16, byte: u8)
    ensures
        crc16_step(c1, byte) == crc16_step(c2, byte) ==> c1 == c2,
{
    let s1 = ((c1 >> 8u16) & 0x00FFu16) | ((c1 << 8u16) & 0xFF00u16);
    let s2 = ((c2 >> 8u16) & 0x00FFu16) | ((c2 << 8u16) & 0xFF00u16);
    let m1 = s1 ^ (byte as u16);
    let m2 = s2 ^ (byte as u16);
    lemma_mix_injective(m1 ^ ((m1 & 0x00FFu16) >> 4u16), m2 ^ ((m2 & 0x00FFu16) >> 4u16));
    assert(m1 ^ ((m1 & 0x00FFu16) >> 4u16) == m2 ^ ((m2 & 0x00FFu16) >> 4u16) ==> m1 == m2)
        by (bit_vector);
    assert((((c1 >> 8u16) & 0x00FFu16) | ((c1 << 8u16) & 0xFF00u16)) ^ (byte as u16) == (((c2
        >> 8u16) & 0x00FFu16) | ((c2 << 8u16) & 0xFF00u16)) ^ (byte as u16) ==> c1 == c2)
        by (bit_vector);
}

/// A single changed byte always changes the CRC: two inputs of the same
/// length that differ at exactly one position have different CRCs.
pub proof fn law_single_byte_change_detected(a: Seq<u8>, b: Seq<u8>, i: int)
    requires
        a.len() == b.len(),
        0 <= i < a.len(),
        a[i] != b[i],
        forall|j: int| 0 <= j < a.len() && j != i ==> a[j] == b[j],
    ensures
        crc16_spec(a) != crc16_spec(b),
    decreases a.len(),
{
    if a.len() - 1 == i {
        assert(a.drop_last() =~= b.drop_last());
        law_step_depends_on_whole_byte(crc16_spec(a.drop_last()), a.last(), b.last());
    } else {
        law_single_byte_change_detected(a.drop_last(), b.drop_last(), i);
        law_step_keeps_differences(crc16_spec(a.drop_last()), crc16_spec(b.drop_last()), a.last());
    }
}

} // verus!
