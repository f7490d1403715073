//! SLIP (Serial Line Internet Protocol) framing for Nordic DFU.
use vstd::prelude::*;

verus! {

/// Frame delimiter.
pub const SLIP_END: u8 = 0xC0;

/// Escape byte.
pub const SLIP_ESC: u8 = 0xDB;

/// Escaped form of `SLIP_END` (follows `SLIP_ESC`).
pub const SLIP_ESC_END: u8 = 0xDC;

/// Escaped form of `SLIP_ESC` (follows `SLIP_ESC`).
pub const SLIP_ESC_ESC: u8 = 0xDD;

/// The encoding of a single byte.
pub open spec fn slip_encode_byte(b: u8) -> Seq<u8> {
    if b == SLIP_END {
        seq![SLIP_ESC, SLIP_ESC_END]
    } else if b == SLIP_ESC {
        seq![SLIP_ESC, SLIP_ESC_ESC]
    } else {
        seq![b]
    }
}

/// SLIP encoding: every byte replaced by its encoding, in order.
pub open spec fn slip_encode_spec(data: Seq<u8>) -> Seq<u8>
    decreases data.len(),
{
    if data.len() == 0 {
        Seq::empty()
    } else {
        slip_encode_byte(data[0]) + slip_encode_spec(data.drop_first())
    }
}

/// SLIP decoding as the bootloader tooling does it: an escape byte that is
/// followed by another byte is read as a pair; `ESC ESC_END` gives `END`,
/// `ESC ESC_ESC` gives `ESC`, any other pair is kept as it is; every other
/// byte (a trailing lone escape included) is kept.
pub open spec fn slip_decode_spec(data: Seq<u8>) -> Seq<u8>
    decreases data.len(),
{
    if data.len() == 0 {
        Seq::empty()
    } else if data[0] == SLIP_ESC && data.len() > 1 {
        let pair = if data[1] == SLIP_ESC_END {
            seq![SLIP_END]
        } else if data[1] == SLIP_ESC_ESC {
            seq![SLIP_ESC]
        } else {
            seq![SLIP_ESC, data[1]]
        };
        pair + slip_decode_spec(data.subrange(2, data.len() as int))
    } else {
        seq![data[0]] + slip_decode_spec(data.drop_first())
    }
}

proof fn lemma_encode_push(data: Seq<u8>, b: u8)
    ensures
        slip_encode_spec(data.push(b)) == slip_encode_spec(data) + slip_encode_byte(b),
    decreases data.len(),
{
    if data.len() == 0 {
        assert(data.push(b).drop_first() =~= Seq::<u8>::empty());
        assert(data.push(b)[0] == b);
        assert(slip_encode_spec(data.push(b).drop_first()) == Seq::<u8>::empty());
        assert(slip_encode_spec(data) == Seq::<u8>::empty());
        assert(slip_encode_spec(data.push(b)) =~= slip_encode_byte(b));
    } else {
        assert(data.push(b).drop_first() =~= data.drop_first().push(b));
        lemma_encode_push(data.drop_first(), b);
        assert(slip_encode_spec(data.push(b)) =~= slip_encode_spec(data) + slip_encode_byte(b));
    }
}

proof fn lemma_decode_encoded_byte(b: u8, rest: Seq<u8>)
    ensures
        slip_decode_spec(slip_encode_byte(b) + rest) == seq![b] + slip_decode_spec(rest),
{
    let s = slip_encode_byte(b) + rest;
    if b == SLIP_END || b == SLIP_ESC {
        assert(s.subrange(2, s.len() as int) =~= rest);
    } else {
        assert(s.drop_first() =~= rest);
    }
}

/// Decoding an encoding gives the original bytes back.
pub proof fn lemma_slip_roundtrip(data: Seq<u8>)
    ensures
        slip_decode_spec(slip_encode_spec(data)) == data,
    decreases data.len(),
{
    if data.len() == 0 {
    } else {
        lemma_slip_roundtrip(data.drop_first());
        lemma_decode_encoded_byte(data[0], slip_encode_spec(data.drop_first()));
        assert(seq![data[0]] + data.drop_first() =~= data);
    }
}

/// An encoding never holds the frame delimiter.
pub proof fn lemma_slip_encode_has_no_end(data: Seq<u8>)
    ensures
        !slip_encode_spec(data).contains(SLIP_END),
    decreases data.len(),
{
    if data.len() > 0 {
        lemma_slip_encode_has_no_end(data.drop_first());
        let e = slip_encode_spec(data);
        let head = slip_encode_byte(data[0]);
        let tail = slip_encode_spec(data.drop_first());
        assert forall|j: int| 0 <= j < e.len() implies e[j] != SLIP_END by {
            if j < head.len() {
                assert(e[j] == head[j]);
            } else {
                assert(e[j] == tail[j - head.len()]);
                assert(tail.contains(tail[j - head.len()]));
            }
        }
    }
}

/// Escape every `SLIP_END` and `SLIP_ESC` byte of `data`.
pub fn slip_encode(data: &[u8]) -> (encoded: Vec<u8>)
    ensures
        encoded@ == slip_encode_spec(data@),
{
    let mut encoded: Vec<u8> = Vec::new();
    let mut i: usize = 0;
    while i < data.len()
        invariant
            i <= data@.len(),
            encoded@ == slip_encode_spec(data@.subrange(0, i as int)),
        decreases data@.len() - i,
    {
        let byte = data[i];
        proof {
            assert(data@.subrange(0, i as int + 1) =~= data@.subrange(0, i as int).push(byte));
            lemma_encode_push(data@.subrange(0, i as int), byte);
        }
        if byte == SLIP_END {
            encoded.push(SLIP_ESC);
            encoded.push(SLIP_ESC_END);
        } else if byte == SLIP_ESC {
            encoded.push(SLIP_ESC);
            encoded.push(SLIP_ESC_ESC);
        } else {
            encoded.push(byte);
        }
        proof {
            assert(encoded@ =~= slip_encode_spec(data@.subrange(0, i as int)) + slip_encode_byte(
                byte,
            ));
        }
        i = i + 1;
    }
    assert(data@.subrange(0, data@.len() as int) =~= data@);
    encoded
}

/// Undo SLIP escaping.
pub fn slip_decode(data: &[u8]) -> (decoded: Vec<u8>)
    ensures
        decoded@ == slip_decode_spec(data@),
{
    let mut decoded: Vec<u8> = Vec::new();
    let mut i: usize = 0;
    let n = data.len();
    assert(data@.subrange(0, n as int) =~= data@);
    while i < n
        invariant
            n == data@.len(),
            i <= n,
            decoded@ + slip_decode_spec(data@.subrange(i as int, n as int)) == slip_decode_spec(
                data@,
            ),
        decreases n - i,
    {
        let ghost rest = data@.subrange(i as int, n as int);
        let ghost before = decoded@;
        if data[i] == SLIP_ESC && i + 1 < n {
            let next = data[i + 1];
            assert(rest.subrange(2, rest.len() as int) =~= data@.subrange(i + 2, n as int));
            if next == SLIP_ESC_END {
                decoded.push(SLIP_END);
                assert(decoded@ =~= before + seq![SLIP_END]);
            } else if next == SLIP_ESC_ESC {
                decoded.push(SLIP_ESC);
                assert(decoded@ =~= before + seq![SLIP_ESC]);
            } else {
                decoded.push(SLIP_ESC);
                decoded.push(next);
                assert(decoded@ =~= before + seq![SLIP_ESC, next]);
            }
            i = i + 2;
        } else {
            decoded.push(data[i]);
            assert(rest.drop_first() =~= data@.subrange(i + 1, n as int));
            assert(decoded@ =~= before + seq![data@[i as int]]);
            i = i + 1;
        }
        assert(decoded@ + slip_decode_spec(data@.subrange(i as int, n as int)) =~= before
            + slip_decode_spec(rest));
    }
    assert(decoded@ + slip_decode_spec(data@.subrange(n as int, n as int)) =~= decoded@);
    decoded
}

} // verus!
