//! Wire codec of the device protocol.
pub mod io;

use vstd::prelude::*;

verus! {

/// How the payload length of a packet is carried on the wire.
#[derive(Debug, Clone, Copy, PartialEq, Eq, Structural)]
pub enum PacketLength {
    /// No length field; the payload always has this many bytes.
    Fixed(usize),
    /// A one-byte length precedes the payload.
    VariableByte,
    /// A big-endian two-byte length precedes the payload.
    VariableShort,
}

/// The length format registered for `opcode`: the first entry of the table
/// with that opcode.
pub open spec fn lookup_length(table: Seq<(u8, PacketLength)>, opcode: u8) -> Option<PacketLength>
    decreases table.len(),
{
    if table.len() == 0 {
        None
    } else if table[0].0 == opcode {
        Some(table[0].1)
    } else {
        lookup_length(table.drop_first(), opcode)
    }
}

/// The length field that precedes a payload of `len` bytes.
pub open spec fn length_field(kind: PacketLength, len: nat) -> Seq<u8> {
    match kind {
        PacketLength::Fixed(_) => Seq::empty(),
        PacketLength::VariableByte => seq![len as u8],
        PacketLength::VariableShort => io::u16_be_bytes(len),
    }
}

/// A whole frame: opcode, length field (if any), payload.
pub open spec fn frame_spec(opcode: u8, kind: PacketLength, payload: Seq<u8>) -> Seq<u8> {
    seq![opcode] + length_field(kind, payload.len()) + payload
}

/// `payload` can be framed with `kind`: a fixed length matches it, and a
/// variable length fits its field.
pub open spec fn frame_fits(kind: PacketLength, payload: Seq<u8>) -> bool {
    match kind {
        PacketLength::Fixed(n) => payload.len() == n,
        PacketLength::VariableByte => payload.len() <= u8::MAX,
        PacketLength::VariableShort => payload.len() <= u16::MAX,
    }
}

/// Reading one frame from `rem`: opcode, payload and bytes consumed.
pub open spec fn parse_frame(table: Seq<(u8, PacketLength)>, rem: Seq<u8>) -> Result<
    (u8, Seq<u8>, nat),
    io::PacketReadError,
> {
    if rem.len() < 1 {
        Err(io::PacketReadError::UnexpectedEof)
    } else {
        let opcode = rem[0];
        match lookup_length(table, opcode) {
            None => Err(io::PacketReadError::InvalidOpcode(opcode)),
            Some(kind) => {
                let (field, len): (int, int) = match kind {
                    PacketLength::Fixed(n) => (0, n as int),
                    PacketLength::VariableByte => (1, if rem.len() >= 2 {
                        rem[1] as int
                    } else {
                        -1
                    }),
                    PacketLength::VariableShort => (2, if rem.len() >= 3 {
                        io::be_u16(rem.subrange(1, 3))
                    } else {
                        -1
                    }),
                };
                if len < 0 || rem.len() < 1 + field + len {
                    Err(io::PacketReadError::UnexpectedEof)
                } else {
                    Ok(
                        (
                            opcode,
                            rem.subrange(1 + field, 1 + field + len),
                            (1 + field + len) as nat,
                        ),
                    )
                }
            },
        }
    }
}

/// Append a frame to `out`.
pub fn write_frame(out: &mut Vec<u8>, opcode: u8, kind: PacketLength, payload: &[u8])
    requires
        kind is VariableByte ==> payload@.len() <= u8::MAX,
        kind is VariableShort ==> payload@.len() <= u16::MAX,
    ensures
        final(out)@ == old(out)@ + frame_spec(opcode, kind, payload@),
{
    out.push(opcode);
    match kind {
        PacketLength::Fixed(_) => {},
        PacketLength::VariableByte => {
            out.push(payload.len() as u8);
        },
        PacketLength::VariableShort => {
            io::push_u16_be(out, payload.len() as u16);
        },
    }
    let ghost head = out@;
    let mut i: usize = 0;
    while i < payload.len()
        invariant
            i <= payload@.len(),
            out@ == head + payload@.subrange(0, i as int),
        decreases payload@.len() - i,
    {
        out.push(payload[i]);
        assert(out@ =~= head + payload@.subrange(0, i as int + 1));
        i = i + 1;
    }
    assert(payload@.subrange(0, payload@.len() as int) =~= payload@);
    assert(final(out)@ =~= old(out)@ + frame_spec(opcode, kind, payload@));
}

/// The length format of `opcode` in `table`.
pub fn find_length(table: &[(u8, PacketLength)], opcode: u8) -> (res: Option<PacketLength>)
    ensures
        res == lookup_length(table@, opcode),
{
    let mut i: usize = 0;
    assert(table@.subrange(0, table@.len() as int) =~= table@);
    while i < table.len()
        invariant
            i <= table@.len(),
            lookup_length(table@.subrange(i as int, table@.len() as int), opcode)
                == lookup_length(table@, opcode),
        decreases table@.len() - i,
    {
        let ghost rest = table@.subrange(i as int, table@.len() as int);
        assert(rest.drop_first() =~= table@.subrange(i + 1, table@.len() as int));
        let (op, kind) = table[i];
        if op == opcode {
            return Some(kind);
        }
        i = i + 1;
    }
    None
}

/// Read one frame: the opcode, then the payload length as the table says
/// for that opcode, then the payload.
pub fn read_frame(src: &mut io::ByteReader, table: &[(u8, PacketLength)]) -> (res: Result<
    (u8, Vec<u8>),
    io::PacketReadError,
>)
    ensures
        match parse_frame(table@, old(src)@) {
            Ok((op, payload, used)) => res matches Ok((o, p)) && o == op && p@ == payload
                && final(src)@ == old(src)@.subrange(used as int, old(src)@.len() as int),
            Err(e) => res == Err::<(u8, Vec<u8>), io::PacketReadError>(e),
        },
        final(src)@.len() <= old(src)@.len(),
        final(src)@ == old(src)@.subrange(
            old(src)@.len() - final(src)@.len(),
            old(src)@.len() as int,
        ),
{
    let ghost start = src@;
    let opcode = src.read_u8()?;
    let kind = match find_length(table, opcode) {
        Some(k) => k,
        None => {
            return Err(io::PacketReadError::InvalidOpcode(opcode));
        },
    };
    let ghost after_op = src@;
    let length: usize = match kind {
        PacketLength::Fixed(n) => n,
        PacketLength::VariableByte => src.read_u8()? as usize,
        PacketLength::VariableShort => src.read_u16_be()? as usize,
    };
    proof {
        if kind is VariableShort {
            assert(after_op.subrange(0, 2) =~= start.subrange(1, 3));
        }
    }
    let payload = src.read_bytes(length)?;
    proof {
        let field: int = match kind {
            PacketLength::Fixed(_) => 0,
            PacketLength::VariableByte => 1,
            PacketLength::VariableShort => 2,
        };
        assert(payload@ =~= start.subrange(1 + field, 1 + field + length));
        assert(src@ =~= start.subrange(1 + field + length, start.len() as int));
    }
    Ok((opcode, payload))
}

/// A frame written by `write_frame` reads back as the same opcode and
/// payload, whatever follows it.
pub proof fn lemma_frame_roundtrip(
    table: Seq<(u8, PacketLength)>,
    opcode: u8,
    payload: Seq<u8>,
    rest: Seq<u8>,
)
    requires
        lookup_length(table, opcode) is Some,
        frame_fits(lookup_length(table, opcode)->0, payload),
    ensures
        parse_frame(table, frame_spec(opcode, lookup_length(table, opcode)->0, payload) + rest)
            == Ok::<(u8, Seq<u8>, nat), io::PacketReadError>(
            (
                opcode,
                payload,
                frame_spec(opcode, lookup_length(table, opcode)->0, payload).len(),
            ),
        ),
{
    let kind = lookup_length(table, opcode)->0;
    let all = frame_spec(opcode, kind, payload) + rest;
    let field: int = match kind {
        PacketLength::Fixed(_) => 0,
        PacketLength::VariableByte => 1,
        PacketLength::VariableShort => 2,
    };
    if kind is VariableShort {
        assert(all.subrange(1, 3) =~= io::u16_be_bytes(payload.len()));
    }
    assert(all.subrange(1 + field, 1 + field + payload.len()) =~= payload);
}

} // verus!
