//! The key layout of the game cache store: each cached game under
//! `game_cache:<id>`, and a name index `game_name_index:<name>` whose value
//! is the game's id in decimal text.
use vstd::prelude::*;
use vstd::utf8::{decode_utf8, encode_utf8, valid_utf8};
use crate::text::{append_str_bytes, i32_to_decimal, signed_decimal_spec, utf8_to_string};
use crate::words::{chars_of, digits_value, is_ascii_digit, strip_plus};

verus! {

/// The key of a cached game.
pub open spec fn game_key_spec(game_id: i32) -> Seq<u8> {
    encode_utf8("game_cache:"@) + encode_utf8(signed_decimal_spec(game_id as int))
}

/// The key of a game's entry in the name index.
pub open spec fn name_index_key_spec(game_name: Seq<char>) -> Seq<u8> {
    encode_utf8("game_name_index:"@) + encode_utf8(game_name)
}

/// The key under which game `game_id` is cached.
pub fn game_key(game_id: i32) -> (k: Vec<u8>)
    ensures
        k@ == game_key_spec(game_id),
{
    let mut k: Vec<u8> = Vec::new();
    append_str_bytes(&mut k, "game_cache:");
    let id = i32_to_decimal(game_id);
    append_str_bytes(&mut k, id.as_str());
    k
}

/// The name-index key of a game name.
pub fn name_index_key(game_name: &str) -> (k: Vec<u8>)
    ensures
        k@ == name_index_key_spec(game_name@),
{
    let mut k: Vec<u8> = Vec::new();
    append_str_bytes(&mut k, "game_name_index:");
    append_str_bytes(&mut k, game_name);
    k
}

/// The prefix shared by all cached-game keys.
pub fn game_cache_prefix() -> (k: Vec<u8>)
    ensures
        k@ == encode_utf8("game_cache:"@),
{
    let mut k: Vec<u8> = Vec::new();
    append_str_bytes(&mut k, "game_cache:");
    k
}

/// The prefix shared by all name-index keys.
pub fn name_index_prefix() -> (k: Vec<u8>)
    ensures
        k@ == encode_utf8("game_name_index:"@),
{
    let mut k: Vec<u8> = Vec::new();
    append_str_bytes(&mut k, "game_name_index:");
    k
}

/// Every character is an ASCII digit.
pub open spec fn all_digits(d: Seq<char>) -> bool {
    forall|k: int| 0 <= k < d.len() ==> is_ascii_digit(#[trigger] d[k])
}

/// The text starts with a minus sign.
pub open spec fn negative_text(t: Seq<char>) -> bool {
    t.len() > 0 && t[0] == '-'
}

/// The digits of a signed decimal text: without its one leading sign.
pub open spec fn unsigned_part(t: Seq<char>) -> Seq<char> {
    if negative_text(t) {
        t.drop_first()
    } else {
        strip_plus(t)
    }
}

/// The value a signed decimal text stands for.
pub open spec fn signed_value(t: Seq<char>) -> int {
    if negative_text(t) {
        -digits_value(unsigned_part(t))
    } else {
        digits_value(unsigned_part(t))
    }
}

/// `str::parse::<i32>`: an optional sign (`+` or `-`) and at least one
/// ASCII digit, with a value in the range of `i32`.
pub open spec fn parse_i32_spec(t: Seq<char>) -> Option<i32> {
    if unsigned_part(t).len() > 0 && all_digits(unsigned_part(t)) && i32::MIN <= signed_value(t)
        <= i32::MAX {
        Some(signed_value(t) as i32)
    } else {
        None
    }
}

/// Why a name-index value is not a game id.
#[derive(Debug, Clone, Copy, PartialEq, Eq, Structural)]
pub enum GameIdError {
    /// The value is not UTF-8 text.
    InvalidUtf8,
    /// The text is not a decimal `i32`.
    InvalidNumber,
}

proof fn lemma_digits_nonneg(d: Seq<char>)
    requires
        forall|k: int| 0 <= k < d.len() ==> is_ascii_digit(#[trigger] d[k]),
    ensures
        digits_value(d) >= 0,
    decreases d.len(),
{
    if d.len() > 0 {
        lemma_digits_nonneg(d.drop_last());
    }
}

proof fn lemma_digits_grow(d: Seq<char>, i: int)
    requires
        0 <= i <= d.len(),
        forall|k: int| 0 <= k < d.len() ==> is_ascii_digit(#[trigger] d[k]),
    ensures
        digits_value(d.subrange(0, i)) <= digits_value(d),
    decreases d.len() - i,
{
    if i < d.len() {
        lemma_digits_grow(d, i + 1);
        assert(d.subrange(0, i + 1).drop_last() =~= d.subrange(0, i));
        lemma_digits_nonneg(d.subrange(0, i));
    } else {
        assert(d.subrange(0, i) =~= d);
    }
}

/// Read decimal text as an `i32`, as `str::parse::<i32>` does.
pub fn parse_i32(text: &str) -> (r: Option<i32>)
    ensures
        r == parse_i32_spec(text@),
{
    let t = chars_of(text);
    let n = t.len();
    let neg = n > 0 && t[0] == '-';
    let start: usize = if n > 0 && (t[0] == '-' || t[0] == '+') {
        1
    } else {
        0
    };
    let ghost d = t@.subrange(start as int, n as int);
    proof {
        if neg {
            assert(d =~= t@.drop_first());
        } else {
            assert(d =~= strip_plus(t@));
        }
    }
    if start >= n {
        return None;
    }
    let mut value: i64 = 0;
    let mut i = start;
    while i < n
        invariant
            t@ == text@,
            n == t@.len(),
            start <= i <= n,
            d == t@.subrange(start as int, n as int),
            neg == negative_text(t@),
            d == unsigned_part(t@),
            forall|k: int| start <= k < i ==> is_ascii_digit(#[trigger] t@[k]),
            value == digits_value(t@.subrange(start as int, i as int)),
            0 <= value <= 2147483648,
        decreases n - i,
    {
        let c = t[i];
        if !('0' <= c && c <= '9') {
            assert(!is_ascii_digit(d[i - start]));
            assert(!all_digits(d));
            assert(parse_i32_spec(text@) is None);
            return None;
        }
        assert(t@.subrange(start as int, i + 1).drop_last() =~= t@.subrange(
            start as int,
            i as int,
        ));
        let digit = (c as u32 - '0' as u32) as i64;
        let next = value * 10 + digit;
        assert(digits_value(t@.subrange(start as int, i + 1)) == next);
        if next > 2147483648 {
            proof {
                if all_digits(d) {
                    lemma_digits_grow(d, i + 1 - start);
                    assert(d.subrange(0, i + 1 - start) =~= t@.subrange(start as int, i + 1));
                    assert(digits_value(d) > 2147483648);
                    assert(!(i32::MIN <= signed_value(t@) <= i32::MAX));
                }
            }
            assert(parse_i32_spec(text@) is None);
            return None;
        }
        value = next;
        i = i + 1;
    }
    assert(t@.subrange(start as int, n as int) =~= d);
    let v: i64 = if neg {
        -value
    } else {
        value
    };
    if v < -2147483648 || v > 2147483647 {
        None
    } else {
        Some(v as i32)
    }
}

/// The game id stored in the name index: the value read as UTF-8 text,
/// then as an `i32`.
pub fn parse_game_id(value: Vec<u8>) -> (r: Result<i32, GameIdError>)
    ensures
        !valid_utf8(value@) ==> r == Err::<i32, GameIdError>(GameIdError::InvalidUtf8),
        valid_utf8(value@) ==> r == (match parse_i32_spec(decode_utf8(value@)) {
            Some(id) => Ok::<i32, GameIdError>(id),
            None => Err(GameIdError::InvalidNumber),
        }),
{
    match utf8_to_string(value) {
        None => Err(GameIdError::InvalidUtf8),
        Some(text) => match parse_i32(text.as_str()) {
            Some(id) => Ok(id),
            None => Err(GameIdError::InvalidNumber),
        },
    }
}

} // verus!
