//! Payload layouts of the packets that devices send, as byte-level
//! specifications, and the shared readers for them.
use vstd::prelude::*;
use crate::net::io::{
    as_signed32, be_u32, parse_string, ByteReader, PacketReadError, ProtocolReadExt,
};
use crate::text::{ascii_chars, hex_byte_spec};

verus! {

/// The bytes after the first `n`.
pub open spec fn after(p: Seq<u8>, n: nat) -> Seq<u8> {
    p.subrange(n as int, p.len() as int)
}

/// `[success: u8]`, read as a flag.
pub open spec fn decode_flag(p: Seq<u8>) -> Result<bool, PacketReadError> {
    if p.len() < 1 {
        Err(PacketReadError::UnexpectedEof)
    } else {
        Ok(p[0] != 0)
    }
}

/// `[a: u8][b: u8]`.
pub open spec fn decode_two_bytes(p: Seq<u8>) -> Result<(u8, u8), PacketReadError> {
    if p.len() < 2 {
        Err(PacketReadError::UnexpectedEof)
    } else {
        Ok((p[0], p[1]))
    }
}

/// `[a: String][b: String]`.
pub open spec fn decode_two_strings(p: Seq<u8>) -> Result<(Seq<char>, Seq<char>), PacketReadError> {
    match parse_string(p) {
        Err(e) => Err(e),
        Ok((a, n)) => match parse_string(after(p, n)) {
            Err(e) => Err(e),
            Ok((b, _)) => Ok((a, b)),
        },
    }
}

/// `[model: String][serial: String][version: String]`.
pub open spec fn decode_three_strings(p: Seq<u8>) -> Result<
    (Seq<char>, Seq<char>, Seq<char>),
    PacketReadError,
> {
    match parse_string(p) {
        Err(e) => Err(e),
        Ok((a, n)) => match parse_string(after(p, n)) {
            Err(e) => Err(e),
            Ok((b, m)) => match parse_string(after(p, n + m)) {
                Err(e) => Err(e),
                Ok((c, _)) => Ok((a, b, c)),
            },
        },
    }
}

/// `[success: u8][text: String]`.
pub open spec fn decode_flag_string(p: Seq<u8>) -> Result<(bool, Seq<char>, nat), PacketReadError> {
    match decode_flag(p) {
        Err(e) => Err(e),
        Ok(f) => match parse_string(after(p, 1)) {
            Err(e) => Err(e),
            Ok((s, n)) => Ok((f, s, 1 + n)),
        },
    }
}

/// `[success: u8][output: String][exit_code: i32 BE]`.
pub open spec fn decode_shell(p: Seq<u8>) -> Result<(bool, Seq<char>, int), PacketReadError> {
    match decode_flag_string(p) {
        Err(e) => Err(e),
        Ok((f, s, n)) => if p.len() - n < 4 {
            Err(PacketReadError::UnexpectedEof)
        } else {
            Ok((f, s, as_signed32(be_u32(after(p, n).subrange(0, 4)))))
        },
    }
}

/// `count` strings one after the other, and the bytes they take.
pub open spec fn parse_strings(p: Seq<u8>, count: nat) -> Result<(Seq<Seq<char>>, nat), PacketReadError>
    decreases count,
{
    if count == 0 {
        Ok((Seq::empty(), 0))
    } else {
        match parse_strings(p, (count - 1) as nat) {
            Err(e) => Err(e),
            Ok((xs, used)) => match parse_string(after(p, used)) {
                Err(e) => Err(e),
                Ok((s, n)) => Ok((xs.push(s), used + n)),
            },
        }
    }
}

/// `[count: u32 BE][count strings]`.
pub open spec fn decode_string_list(p: Seq<u8>) -> Result<Seq<Seq<char>>, PacketReadError> {
    if p.len() < 4 {
        Err(PacketReadError::UnexpectedEof)
    } else {
        match parse_strings(after(p, 4), be_u32(p.subrange(0, 4)) as nat) {
            Err(e) => Err(e),
            Ok((xs, _)) => Ok(xs),
        }
    }
}

/// `[success: u8][message: String][count: u32 BE][count strings]`.
pub open spec fn decode_close_all(p: Seq<u8>) -> Result<
    (bool, Seq<char>, Seq<Seq<char>>),
    PacketReadError,
> {
    match decode_flag_string(p) {
        Err(e) => Err(e),
        Ok((f, s, n)) => match decode_string_list(after(p, n)) {
            Err(e) => Err(e),
            Ok(xs) => Ok((f, s, xs)),
        },
    }
}

/// `[operation_id: 16 bytes][stage: u8][percentage: f32 BE]`, the
/// percentage kept as its 32-bit pattern.
pub open spec fn decode_progress(p: Seq<u8>) -> Result<(Seq<u8>, u8, u32), PacketReadError> {
    if p.len() < 21 {
        Err(PacketReadError::UnexpectedEof)
    } else {
        Ok((p.subrange(0, 16), p[16], be_u32(p.subrange(17, 21)) as u32))
    }
}

/// The strings of a vector, as character sequences.
pub open spec fn strings_view(v: Seq<String>) -> Seq<Seq<char>> {
    v.map_values(|s: String| s@)
}

proof fn lemma_parse_strings_error_sticks(p: Seq<u8>, k: nat, k2: nat)
    requires
        k <= k2,
        parse_strings(p, k) is Err,
    ensures
        parse_strings(p, k2) == parse_strings(p, k),
    decreases k2,
{
    if k2 > k {
        lemma_parse_strings_error_sticks(p, k, (k2 - 1) as nat);
    }
}

/// Read `count` strings.
pub fn read_strings(src: &mut ByteReader, count: u32) -> (res: Result<Vec<String>, PacketReadError>)
    ensures
        match parse_strings(old(src)@, count as nat) {
            Ok((xs, used)) => res matches Ok(v) && strings_view(v@) == xs && final(src)@ == after(
                old(src)@,
                used,
            ),
            Err(e) => res == Err::<Vec<String>, PacketReadError>(e),
        },
{
    let ghost start = src@;
    let mut out: Vec<String> = Vec::new();
    let mut i: u32 = 0;
    assert(after(start, 0) =~= start);
    while i < count
        invariant
            i <= count,
            start == old(src)@,
            parse_strings(start, i as nat) matches Ok((xs, used)) && strings_view(out@) == xs
                && src@ == after(start, used) && used <= start.len(),
        decreases count - i,
    {
        let ghost used = parse_strings(start, i as nat)->Ok_0.1;
        let s = match src.read_string() {
            Ok(s) => s,
            Err(e) => {
                proof {
                    assert(parse_string(after(start, used)) is Err);
                    assert(parse_strings(start, (i + 1) as nat) == Err::<
                        (Seq<Seq<char>>, nat),
                        PacketReadError,
                    >(e));
                    lemma_parse_strings_error_sticks(start, (i + 1) as nat, count as nat);
                }
                return Err(e);
            },
        };
        proof {
            let (xs, _) = parse_strings(start, i as nat)->Ok_0;
            let (t, n) = parse_string(after(start, used))->Ok_0;
            assert(after(after(start, used), n) =~= after(start, used + n));
        }
        out.push(s);
        proof {
            assert(strings_view(out@) =~= parse_strings(start, i as nat)->Ok_0.0.push(s@));
        }
        i = i + 1;
    }
    Ok(out)
}

/// Hexadecimal digits (lower case) of a run of bytes.
pub open spec fn hex_run(b: Seq<u8>) -> Seq<u8>
    decreases b.len(),
{
    if b.len() == 0 {
        Seq::empty()
    } else {
        hex_run(b.drop_last()) + hex_byte_spec(b.last(), false)
    }
}

/// The hyphenated text form of a 16-byte UUID (8-4-4-4-12 hexadecimal
/// digits, lower case).
pub open spec fn uuid_text(b: Seq<u8>) -> Seq<char> {
    ascii_chars(
        hex_run(b.subrange(0, 4)) + seq![45u8] + hex_run(b.subrange(4, 6)) + seq![45u8] + hex_run(
            b.subrange(6, 8),
        ) + seq![45u8] + hex_run(b.subrange(8, 10)) + seq![45u8] + hex_run(b.subrange(10, 16)),
    )
}

proof fn lemma_hex_run_ascii(b: Seq<u8>)
    ensures
        crate::text::all_ascii(hex_run(b)),
    decreases b.len(),
{
    if b.len() > 0 {
        lemma_hex_run_ascii(b.drop_last());
        let h = hex_run(b.drop_last());
        let t = hex_byte_spec(b.last(), false);
        assert forall|i: int| 0 <= i < hex_run(b).len() implies #[trigger] hex_run(b)[i] < 128 by {
            if i < h.len() {
                assert(hex_run(b)[i] == h[i]);
            } else {
                assert(hex_run(b)[i] == t[i - h.len()]);
            }
        }
    }
}

fn append_hex_run(out: &mut Vec<u8>, b: &Vec<u8>, from: usize, to: usize)
    requires
        from <= to <= b@.len(),
    ensures
        final(out)@ == old(out)@ + hex_run(b@.subrange(from as int, to as int)),
{
    let mut i = from;
    assert(b@.subrange(from as int, from as int) =~= Seq::<u8>::empty());
    assert(old(out)@ + hex_run(Seq::<u8>::empty()) =~= old(out)@);
    while i < to
        invariant
            from <= i <= to,
            to <= b@.len(),
            out@ == old(out)@ + hex_run(b@.subrange(from as int, i as int)),
        decreases to - i,
    {
        crate::text::append_hex_byte(out, b[i], false);
        assert(b@.subrange(from as int, i + 1).drop_last() =~= b@.subrange(from as int, i as int));
        assert(out@ =~= old(out)@ + hex_run(b@.subrange(from as int, i + 1)));
        i = i + 1;
    }
}

/// The hyphenated text of a UUID given as 16 bytes.
pub fn format_uuid(b: &Vec<u8>) -> (s: String)
    requires
        b@.len() == 16,
    ensures
        s@ == uuid_text(b@),
{
    let mut out: Vec<u8> = Vec::new();
    append_hex_run(&mut out, b, 0, 4);
    out.push(45);
    append_hex_run(&mut out, b, 4, 6);
    out.push(45);
    append_hex_run(&mut out, b, 6, 8);
    out.push(45);
    append_hex_run(&mut out, b, 8, 10);
    out.push(45);
    append_hex_run(&mut out, b, 10, 16);
    let ghost bytes = hex_run(b@.subrange(0, 4)) + seq![45u8] + hex_run(b@.subrange(4, 6)) + seq![
        45u8,
    ] + hex_run(b@.subrange(6, 8)) + seq![45u8] + hex_run(b@.subrange(8, 10)) + seq![45u8]
        + hex_run(b@.subrange(10, 16));
    assert(out@ =~= bytes);
    proof {
        lemma_hex_run_ascii(b@.subrange(0, 4));
        lemma_hex_run_ascii(b@.subrange(4, 6));
        lemma_hex_run_ascii(b@.subrange(6, 8));
        lemma_hex_run_ascii(b@.subrange(8, 10));
        lemma_hex_run_ascii(b@.subrange(10, 16));
        assert(crate::text::all_ascii(out@)) by {
            let h1 = hex_run(b@.subrange(0, 4));
            let h2 = hex_run(b@.subrange(4, 6));
            let h3 = hex_run(b@.subrange(6, 8));
            let h4 = hex_run(b@.subrange(8, 10));
            let h5 = hex_run(b@.subrange(10, 16));
            assert forall|i: int| 0 <= i < out@.len() implies #[trigger] out@[i] < 128 by {
                let o1 = h1.len() as int;
                let o2 = o1 + 1 + h2.len();
                let o3 = o2 + 1 + h3.len();
                let o4 = o3 + 1 + h4.len();
                if i < o1 {
                    assert(out@[i] == h1[i]);
                } else if i == o1 || i == o2 || i == o3 || i == o4 {
                } else if i < o2 {
                    assert(out@[i] == h2[i - o1 - 1]);
                } else if i < o3 {
                    assert(out@[i] == h3[i - o2 - 1]);
                } else if i < o4 {
                    assert(out@[i] == h4[i - o3 - 1]);
                } else {
                    assert(out@[i] == h5[i - o4 - 1]);
                }
            }
        }
    }
    crate::text::ascii_to_string(out)
}

} // verus!
