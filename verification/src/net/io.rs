//! Byte-level codec of the device protocol: big-endian integers and
//! length-prefixed UTF-8 strings, read from an in-memory cursor and written
//! to a byte buffer.
use vstd::prelude::*;
use vstd::utf8::{decode_utf8, encode_utf8, valid_utf8};

verus! {

/// Why a read failed.
#[derive(Debug, Clone, Copy, PartialEq, Eq)]
pub enum PacketReadError {
    /// The input ended before the value was complete.
    UnexpectedEof,
    /// A string's bytes are not valid UTF-8 ("invalid string data").
    InvalidData,
    /// A frame started with an opcode that no packet uses.
    InvalidOpcode(u8),
}

/// Big-endian value of two bytes.
pub open spec fn be_u16(b: Seq<u8>) -> int {
    b[0] * 256 + b[1]
}

/// Big-endian value of four bytes.
pub open spec fn be_u32(b: Seq<u8>) -> int {
    b[0] * 0x1000000 + b[1] * 0x10000 + b[2] * 0x100 + b[3]
}

/// Two's complement reading of a 32-bit pattern.
pub open spec fn as_signed32(v: int) -> int {
    if v >= 0x8000_0000 {
        v - 0x1_0000_0000
    } else {
        v
    }
}

/// The big-endian bytes of a 16-bit value.
pub open spec fn u16_be_bytes(v: nat) -> Seq<u8> {
    seq![((v / 256) % 256) as u8, (v % 256) as u8]
}

/// The big-endian bytes of a 32-bit value.
pub open spec fn u32_be_bytes(v: nat) -> Seq<u8> {
    seq![
        ((v / 0x1000000) % 256) as u8,
        ((v / 0x10000) % 256) as u8,
        ((v / 0x100) % 256) as u8,
        (v % 256) as u8,
    ]
}

/// The wire form of a string: its UTF-8 length as a big-endian u32, then
/// its UTF-8 bytes.
pub open spec fn string_frame(s: Seq<char>) -> Seq<u8> {
    u32_be_bytes(encode_utf8(s).len()) + encode_utf8(s)
}

/// Reading a string from `rem`: the decoded text and the bytes consumed.
pub open spec fn parse_string(rem: Seq<u8>) -> Result<(Seq<char>, nat), PacketReadError> {
    if rem.len() < 4 {
        Err(PacketReadError::UnexpectedEof)
    } else {
        let n = be_u32(rem.subrange(0, 4));
        if rem.len() - 4 < n {
            Err(PacketReadError::UnexpectedEof)
        } else {
            let bytes = rem.subrange(4, 4 + n);
            if valid_utf8(bytes) {
                Ok((decode_utf8(bytes), (4 + n) as nat))
            } else {
                Err(PacketReadError::InvalidData)
            }
        }
    }
}

pub proof fn lemma_u32_be_roundtrip(v: nat)
    requires
        v <= u32::MAX,
    ensures
        be_u32(u32_be_bytes(v)) == v,
{
}

/// A string written with `write_string` reads back as the same string,
/// whatever follows it.
pub proof fn lemma_string_roundtrip(s: Seq<char>, rest: Seq<u8>)
    requires
        encode_utf8(s).len() <= u32::MAX,
    ensures
        parse_string(string_frame(s) + rest) == Ok::<(Seq<char>, nat), PacketReadError>(
            (s, string_frame(s).len()),
        ),
{
    let bytes = encode_utf8(s);
    let all = string_frame(s) + rest;
    assert(all.subrange(0, 4) =~= u32_be_bytes(bytes.len()));
    lemma_u32_be_roundtrip(bytes.len());
    assert(all.subrange(4, 4 + bytes.len() as int) =~= bytes);
    vstd::utf8::encode_utf8_valid_utf8(s);
    vstd::utf8::encode_utf8_decode_utf8(s);
}

/// Writing protocol values to a byte sink.
pub trait ProtocolWriteExt: Sized {
    /// Write a string as its UTF-8 length (big-endian u32) and its bytes.
    fn write_string(&mut self, text: &str)
        requires
            encode_utf8(text@).len() <= u32::MAX,
    ;
}

impl ProtocolWriteExt for Vec<u8> {
    fn write_string(&mut self, text: &str)
        ensures
            final(self)@ == old(self)@ + string_frame(text@),
    {
        let len = text.as_bytes().len() as u32;
        push_u32_be(self, len);
        crate::text::append_str_bytes(self, text);
        assert(final(self)@ =~= old(self)@ + string_frame(text@));
    }
}

/// Append a big-endian u16.
pub fn push_u16_be(out: &mut Vec<u8>, v: u16)
    ensures
        final(out)@ == old(out)@ + u16_be_bytes(v as nat),
{
    out.push((v / 256) as u8);
    out.push((v % 256) as u8);
    assert(final(out)@ =~= old(out)@ + u16_be_bytes(v as nat));
}

/// Append a big-endian u32.
pub fn push_u32_be(out: &mut Vec<u8>, v: u32)
    ensures
        final(out)@ == old(out)@ + u32_be_bytes(v as nat),
{
    out.push((v / 0x1000000) as u8);
    out.push(((v / 0x10000) % 256) as u8);
    out.push(((v / 0x100) % 256) as u8);
    out.push((v % 256) as u8);
    assert(final(out)@ =~= old(out)@ + u32_be_bytes(v as nat));
}

/// A read cursor over an owned byte buffer.
pub struct ByteReader {
    data: Vec<u8>,
    pos: usize,
}

impl View for ByteReader {
    /// The bytes not read yet.
    type V = Seq<u8>;

    closed spec fn view(&self) -> Seq<u8> {
        self.data@.subrange(self.pos as int, self.data@.len() as int)
    }
}

impl ByteReader {
    #[verifier::type_invariant]
    spec fn inv(self) -> bool {
        self.pos <= self.data@.len()
    }

    pub fn new(data: Vec<u8>) -> (r: Self)
        ensures
            r@ == data@,
    {
        let r = ByteReader { data, pos: 0 };
        assert(r@ =~= data@);
        r
    }

    /// Number of bytes not read yet.
    pub fn remaining(&self) -> (n: usize)
        ensures
            n == self@.len(),
    {
        proof {
            use_type_invariant(self);
        }
        self.data.len() - self.pos
    }

    /// Read `n` bytes.
    pub fn read_bytes(&mut self, n: usize) -> (res: Result<Vec<u8>, PacketReadError>)
        ensures
            old(self)@.len() < n ==> res == Err::<Vec<u8>, PacketReadError>(
                PacketReadError::UnexpectedEof,
            ) && final(self)@ == old(self)@,
            n <= old(self)@.len() ==> res is Ok && final(self)@ == old(self)@.subrange(
                n as int,
                old(self)@.len() as int,
            ),
            res matches Ok(b) ==> b@ == old(self)@.subrange(0, n as int),
    {
        proof {
            use_type_invariant(&*self);
        }
        if self.data.len() - self.pos < n {
            return Err(PacketReadError::UnexpectedEof);
        }
        let mut out: Vec<u8> = Vec::new();
        let mut i: usize = 0;
        let start = self.pos;
        let dl = self.data.len();
        while i < n
            invariant
                start + n <= dl,
                dl == self.data@.len(),
                i <= n,
                out@ == self.data@.subrange(start as int, start + i),
            decreases n - i,
        {
            out.push(self.data[start + i]);
            assert(out@ =~= self.data@.subrange(start as int, start + i + 1));
            i = i + 1;
        }
        self.pos = start + n;
        assert(out@ =~= old(self)@.subrange(0, n as int));
        assert(self@ =~= old(self)@.subrange(n as int, old(self)@.len() as int));
        Ok(out)
    }

    /// Read one byte.
    pub fn read_u8(&mut self) -> (res: Result<u8, PacketReadError>)
        ensures
            old(self)@.len() < 1 ==> res == Err::<u8, PacketReadError>(
                PacketReadError::UnexpectedEof,
            ) && final(self)@ == old(self)@,
            1 <= old(self)@.len() ==> res == Ok::<u8, PacketReadError>(old(self)@[0])
                && final(self)@ == old(self)@.drop_first(),
    {
        proof {
            use_type_invariant(&*self);
        }
        if self.pos >= self.data.len() {
            return Err(PacketReadError::UnexpectedEof);
        }
        let b = self.data[self.pos];
        self.pos = self.pos + 1;
        assert(self@ =~= old(self)@.drop_first());
        Ok(b)
    }

    /// Read a big-endian u16.
    pub fn read_u16_be(&mut self) -> (res: Result<u16, PacketReadError>)
        ensures
            old(self)@.len() < 2 ==> res == Err::<u16, PacketReadError>(
                PacketReadError::UnexpectedEof,
            ) && final(self)@ == old(self)@,
            2 <= old(self)@.len() ==> (res matches Ok(v) && v == be_u16(old(self)@.subrange(0, 2))
                && final(self)@ == old(self)@.subrange(2, old(self)@.len() as int)),
    {
        proof {
            use_type_invariant(&*self);
        }
        if self.data.len() - self.pos < 2 {
            return Err(PacketReadError::UnexpectedEof);
        }
        let b0 = self.data[self.pos];
        let b1 = self.data[self.pos + 1];
        self.pos = self.pos + 2;
        assert(self@ =~= old(self)@.subrange(2, old(self)@.len() as int));
        Ok((b0 as u16) * 256 + (b1 as u16))
    }

    /// Read a big-endian u32.
    pub fn read_u32_be(&mut self) -> (res: Result<u32, PacketReadError>)
        ensures
            old(self)@.len() < 4 ==> res == Err::<u32, PacketReadError>(
                PacketReadError::UnexpectedEof,
            ) && final(self)@ == old(self)@,
            4 <= old(self)@.len() ==> (res matches Ok(v) && v == be_u32(old(self)@.subrange(0, 4))
                && final(self)@ == old(self)@.subrange(4, old(self)@.len() as int)),
    {
        proof {
            use_type_invariant(&*self);
        }
        if self.data.len() - self.pos < 4 {
            return Err(PacketReadError::UnexpectedEof);
        }
        let p = self.pos;
        let b0 = self.data[p];
        let b1 = self.data[p + 1];
        let b2 = self.data[p + 2];
        let b3 = self.data[p + 3];
        self.pos = p + 4;
        assert(self@ =~= old(self)@.subrange(4, old(self)@.len() as int));
        Ok((b0 as u32) * 0x1000000 + (b1 as u32) * 0x10000 + (b2 as u32) * 0x100 + (b3 as u32))
    }

    /// Read a big-endian two's complement i32.
    pub fn read_i32_be(&mut self) -> (res: Result<i32, PacketReadError>)
        ensures
            old(self)@.len() < 4 ==> res == Err::<i32, PacketReadError>(
                PacketReadError::UnexpectedEof,
            ) && final(self)@ == old(self)@,
            4 <= old(self)@.len() ==> (res matches Ok(v) && v == as_signed32(
                be_u32(old(self)@.subrange(0, 4)),
            ) && final(self)@ == old(self)@.subrange(4, old(self)@.len() as int)),
    {
        let u = self.read_u32_be()?;
        if u >= 0x8000_0000 {
            Ok(i32::MIN + ((u - 0x8000_0000) as i32))
        } else {
            Ok(u as i32)
        }
    }
}

/// Reading protocol values from a byte source.
pub trait ProtocolReadExt: Sized {
    /// Read a string written by `write_string`.
    fn read_string(&mut self) -> Result<String, PacketReadError>;
}

impl ProtocolReadExt for ByteReader {
    fn read_string(&mut self) -> (res: Result<String, PacketReadError>)
        ensures
            match parse_string(old(self)@) {
                Ok((s, used)) => res matches Ok(t) && t@ == s && final(self)@ == old(
                    self,
                )@.subrange(used as int, old(self)@.len() as int),
                Err(e) => res == Err::<String, PacketReadError>(e) && final(self)@ == old(self)@,
            },
    {
        proof {
            use_type_invariant(&*self);
        }
        let ghost start = self@;
        let p = self.pos;
        let dl = self.data.len();
        let avail = dl - p;
        if avail < 4 {
            return Err(PacketReadError::UnexpectedEof);
        }
        let length: u32 = (self.data[p] as u32) * 0x1000000 + (self.data[p + 1] as u32) * 0x10000
            + (self.data[p + 2] as u32) * 0x100 + (self.data[p + 3] as u32);
        assert(start.subrange(0, 4) =~= self.data@.subrange(p as int, p + 4));
        if avail - 4 < length as usize {
            return Err(PacketReadError::UnexpectedEof);
        }
        let n = length as usize;
        let mut bytes: Vec<u8> = Vec::new();
        let mut i: usize = 0;
        while i < n
            invariant
                p + 4 + n <= dl,
                dl == self.data@.len(),
                i <= n,
                bytes@ == self.data@.subrange(p + 4, p + 4 + i),
            decreases n - i,
        {
            bytes.push(self.data[p + 4 + i]);
            assert(bytes@ =~= self.data@.subrange(p + 4, p + 4 + i + 1));
            i = i + 1;
        }
        assert(bytes@ =~= start.subrange(4, 4 + n));
        match crate::text::utf8_to_string(bytes) {
            Some(text) => {
                self.pos = p + 4 + n;
                assert(self@ =~= start.subrange(4 + n, start.len() as int));
                Ok(text)
            },
            None => Err(PacketReadError::InvalidData),
        }
    }
}

} // verus!
