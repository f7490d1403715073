//! Text helpers shared by the protocol code: UTF-8 conversion of byte
//! buffers and ASCII decimal / hexadecimal rendering of integers.
use vstd::prelude::*;
use vstd::utf8::{decode_utf8, encode_utf8, valid_utf8, is_ascii_chars};

verus! {

/// The characters of a sequence of ASCII bytes.
pub open spec fn ascii_chars(bytes: Seq<u8>) -> Seq<char> {
    Seq::new(bytes.len(), |i: int| bytes[i] as char)
}

/// Every byte is ASCII.
pub open spec fn all_ascii(bytes: Seq<u8>) -> bool {
    forall|i: int| 0 <= i < bytes.len() ==> #[trigger] bytes[i] < 128
}

/// `String::from_utf8`: succeeds exactly on valid UTF-8, and the string
/// holds the decoded characters.
#[verifier::external_body]
pub(crate) fn utf8_to_string(bytes: Vec<u8>) -> (res: Option<String>)
    ensures
        res is Some <==> valid_utf8(bytes@),
        res matches Some(s) ==> s@ == decode_utf8(bytes@),
{
    String::from_utf8(bytes).ok()
}

proof fn lemma_ascii_utf8(bytes: Seq<u8>)
    requires
        all_ascii(bytes),
    ensures
        valid_utf8(bytes),
        decode_utf8(bytes) == ascii_chars(bytes),
{
    let chars = ascii_chars(bytes);
    assert(is_ascii_chars(chars)) by {
        assert forall|i: int| 0 <= i < chars.len() implies '\0' <= #[trigger] chars[i]
            <= '\u{7f}' by {
            assert(bytes[i] < 128);
        }
    }
    vstd::utf8::is_ascii_chars_encode_utf8(chars);
    assert(encode_utf8(chars) =~= bytes) by {
        assert forall|i: int| 0 <= i < bytes.len() implies encode_utf8(chars)[i] == bytes[i] by {
            assert(chars[i] as u8 == encode_utf8(chars)[i]);
            assert(bytes[i] < 128);
        }
    }
    vstd::utf8::encode_utf8_valid_utf8(chars);
    vstd::utf8::encode_utf8_decode_utf8(chars);
}

/// A string made of ASCII bytes.
pub fn ascii_to_string(bytes: Vec<u8>) -> (s: String)
    requires
        all_ascii(bytes@),
    ensures
        s@ == ascii_chars(bytes@),
{
    proof {
        lemma_ascii_utf8(bytes@);
    }
    match utf8_to_string(bytes) {
        Some(s) => s,
        None => String::new(),
    }
}

/// The ASCII code of decimal digit `d`.
pub open spec fn digit_byte(d: nat) -> u8 {
    (48 + d) as u8
}

/// Decimal digits of `n`, most significant first, without leading zeros.
pub open spec fn decimal_bytes(n: nat) -> Seq<u8>
    decreases n,
{
    if n < 10 {
        seq![digit_byte(n)]
    } else {
        decimal_bytes(n / 10).push(digit_byte(n % 10))
    }
}

/// The decimal rendering of `n`.
pub open spec fn decimal_spec(n: nat) -> Seq<char> {
    ascii_chars(decimal_bytes(n))
}

/// The decimal rendering of a signed integer.
pub open spec fn signed_decimal_spec(n: int) -> Seq<char> {
    if n < 0 {
        seq!['-'] + decimal_spec((-n) as nat)
    } else {
        decimal_spec(n as nat)
    }
}

pub proof fn lemma_decimal_ascii(n: nat)
    ensures
        all_ascii(decimal_bytes(n)),
        decimal_bytes(n).len() >= 1,
    decreases n,
{
    if n >= 10 {
        lemma_decimal_ascii(n / 10);
    }
}

fn push_decimal(out: &mut Vec<u8>, n: u64)
    ensures
        final(out)@ == old(out)@ + decimal_bytes(n as nat),
    decreases n,
{
    if n >= 10 {
        push_decimal(out, n / 10);
    }
    out.push(48 + (n % 10) as u8);
    proof {
        if n >= 10 {
            assert(final(out)@ =~= old(out)@ + decimal_bytes(n as nat));
        } else {
            assert(final(out)@ =~= old(out)@ + decimal_bytes(n as nat));
        }
    }
}

/// Append the decimal rendering of `n` to `out`.
pub fn append_decimal(out: &mut Vec<u8>, n: u64)
    ensures
        final(out)@ == old(out)@ + decimal_bytes(n as nat),
{
    push_decimal(out, n)
}

/// `n` in decimal (what `format!("{}", n)` prints).
pub fn u64_to_decimal(n: u64) -> (s: String)
    ensures
        s@ == decimal_spec(n as nat),
{
    let mut out: Vec<u8> = Vec::new();
    push_decimal(&mut out, n);
    proof {
        lemma_decimal_ascii(n as nat);
        assert(out@ =~= decimal_bytes(n as nat));
    }
    ascii_to_string(out)
}

/// `n` in decimal with a leading minus sign when negative.
pub fn i32_to_decimal(n: i32) -> (s: String)
    ensures
        s@ == signed_decimal_spec(n as int),
{
    let mut out: Vec<u8> = Vec::new();
    let magnitude: u64 = if n < 0 {
        out.push(45);
        (-(n as i64)) as u64
    } else {
        n as u64
    };
    let ghost prefix = out@;
    push_decimal(&mut out, magnitude);
    proof {
        lemma_decimal_ascii(magnitude as nat);
        assert(out@ =~= prefix + decimal_bytes(magnitude as nat));
        assert(all_ascii(out@)) by {
            assert forall|i: int| 0 <= i < out@.len() implies #[trigger] out@[i] < 128 by {
                if i >= prefix.len() {
                    assert(out@[i] == decimal_bytes(magnitude as nat)[i - prefix.len()]);
                }
            }
        }
    }
    let s = ascii_to_string(out);
    proof {
        if n < 0 {
            assert(s@ =~= seq!['-'] + decimal_spec(magnitude as nat));
        } else {
            assert(s@ =~= decimal_spec(magnitude as nat));
        }
    }
    s
}

/// The ASCII code of hexadecimal digit `d` (upper case when `upper`).
pub open spec fn hex_digit_byte(d: nat, upper: bool) -> u8 {
    if d < 10 {
        (48 + d) as u8
    } else if upper {
        (55 + d) as u8
    } else {
        (87 + d) as u8
    }
}

/// Two hexadecimal digits of a byte, high nibble first.
pub open spec fn hex_byte_spec(b: u8, upper: bool) -> Seq<u8> {
    seq![hex_digit_byte((b / 16) as nat, upper), hex_digit_byte((b % 16) as nat, upper)]
}

/// Append the two hexadecimal digits of `b` to `out`.
pub fn append_hex_byte(out: &mut Vec<u8>, b: u8, upper: bool)
    ensures
        final(out)@ == old(out)@ + hex_byte_spec(b, upper),
{
    let hi = b / 16;
    let lo = b % 16;
    let hi_c: u8 = if hi < 10 {
        48 + hi
    } else if upper {
        55 + hi
    } else {
        87 + hi
    };
    let lo_c: u8 = if lo < 10 {
        48 + lo
    } else if upper {
        55 + lo
    } else {
        87 + lo
    };
    out.push(hi_c);
    out.push(lo_c);
    assert(final(out)@ =~= old(out)@ + hex_byte_spec(b, upper));
}

/// Append the bytes of a string to a buffer.
pub fn append_str_bytes(out: &mut Vec<u8>, s: &str)
    ensures
        final(out)@ == old(out)@ + encode_utf8(s@),
{
    let bytes = s.as_bytes();
    let mut i: usize = 0;
    while i < bytes.len()
        invariant
            bytes@ == encode_utf8(s@),
            i <= bytes@.len(),
            out@ == old(out)@ + bytes@.subrange(0, i as int),
        decreases bytes@.len() - i,
    {
        out.push(bytes[i]);
        assert(bytes@.subrange(0, i as int + 1) =~= bytes@.subrange(0, i as int).push(bytes@[i as int]));
        assert(out@ =~= old(out)@ + bytes@.subrange(0, i as int + 1));
        i = i + 1;
    }
    assert(bytes@.subrange(0, bytes@.len() as int) =~= bytes@);
}

} // verus!
