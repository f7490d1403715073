//! Character-level text scanning used by the protocol: Unicode white
//! space, whitespace-separated words, and decimal `u8` parsing in the form
//! the standard library accepts.
use vstd::prelude::*;

verus! {

/// `char::is_whitespace`: the Unicode `White_Space` property.
pub open spec fn is_white_space(c: char) -> bool {
    ||| '\u{9}' <= c <= '\u{d}'
    ||| c == ' '
    ||| c == '\u{85}'
    ||| c == '\u{a0}'
    ||| c == '\u{1680}'
    ||| '\u{2000}' <= c <= '\u{200a}'
    ||| c == '\u{2028}'
    ||| c == '\u{2029}'
    ||| c == '\u{202f}'
    ||| c == '\u{205f}'
    ||| c == '\u{3000}'
}

/// Executable form of `is_white_space`.
pub fn is_white_space_char(c: char) -> (b: bool)
    ensures
        b == is_white_space(c),
{
    ('\u{9}' <= c && c <= '\u{d}') || c == ' ' || c == '\u{85}' || c == '\u{a0}' || c
        == '\u{1680}' || ('\u{2000}' <= c && c <= '\u{200a}') || c == '\u{2028}' || c
        == '\u{2029}' || c == '\u{202f}' || c == '\u{205f}' || c == '\u{3000}'
}

/// `s[a..b]` is one of the words that `split_whitespace` yields: a maximal
/// non-empty run of characters that are not white space.
pub open spec fn word_at(s: Seq<char>, a: int, b: int) -> bool {
    &&& 0 <= a < b <= s.len()
    &&& (a == 0 || is_white_space(s[a - 1]))
    &&& (b == s.len() || is_white_space(s[b]))
    &&& forall|k: int| a <= k < b ==> !is_white_space(#[trigger] s[k])
}

/// Value of a non-empty string of ASCII digits.
pub open spec fn digits_value(d: Seq<char>) -> int
    decreases d.len(),
{
    if d.len() == 0 {
        0
    } else {
        digits_value(d.drop_last()) * 10 + (d.last() as int - '0' as int)
    }
}

pub open spec fn is_ascii_digit(c: char) -> bool {
    '0' <= c <= '9'
}

/// The text without one leading `+`, if it has one.
pub open spec fn strip_plus(t: Seq<char>) -> Seq<char> {
    if t.len() > 0 && t[0] == '+' {
        t.drop_first()
    } else {
        t
    }
}

/// `str::parse::<u8>`: an optional `+` and at least one ASCII digit, with a
/// value of at most 255.
pub open spec fn parse_u8_spec(t: Seq<char>) -> Option<u8> {
    let d = strip_plus(t);
    if d.len() > 0 && (forall|k: int| 0 <= k < d.len() ==> is_ascii_digit(#[trigger] d[k]))
        && digits_value(d) <= 255 {
        Some(digits_value(d) as u8)
    } else {
        None
    }
}

/// `str::trim_end_matches('%')`: all trailing percent signs removed.
pub open spec fn trim_end_percent(t: Seq<char>) -> Seq<char>
    decreases t.len(),
{
    if t.len() > 0 && t.last() == '%' {
        trim_end_percent(t.drop_last())
    } else {
        t
    }
}

/// The number a word stands for, reading it as a percentage.
pub open spec fn word_percentage(s: Seq<char>, a: int, b: int) -> Option<u8> {
    parse_u8_spec(trim_end_percent(s.subrange(a, b)))
}

/// The characters of a string.
pub fn chars_of(s: &str) -> (v: Vec<char>)
    ensures
        v@ == s@,
{
    let n = s.unicode_len();
    let mut v: Vec<char> = Vec::new();
    let mut i: usize = 0;
    while i < n
        invariant
            n == s@.len(),
            i <= n,
            v@ == s@.subrange(0, i as int),
        decreases n - i,
    {
        v.push(s.get_char(i));
        assert(v@ =~= s@.subrange(0, i as int + 1));
        i = i + 1;
    }
    assert(v@ =~= s@);
    v
}

proof fn lemma_digits_value_nonneg(d: Seq<char>)
    requires
        forall|k: int| 0 <= k < d.len() ==> is_ascii_digit(#[trigger] d[k]),
    ensures
        digits_value(d) >= 0,
    decreases d.len(),
{
    if d.len() > 0 {
        lemma_digits_value_nonneg(d.drop_last());
    }
}

proof fn lemma_digits_value_prefix(d: Seq<char>, i: int)
    requires
        0 <= i <= d.len(),
        forall|k: int| 0 <= k < d.len() ==> is_ascii_digit(#[trigger] d[k]),
    ensures
        digits_value(d.subrange(0, i)) <= digits_value(d),
    decreases d.len() - i,
{
    if i < d.len() {
        lemma_digits_value_prefix(d, i + 1);
        assert(d.subrange(0, i + 1).drop_last() =~= d.subrange(0, i));
        lemma_digits_value_nonneg(d.subrange(0, i));
    } else {
        assert(d.subrange(0, i) =~= d);
    }
}

/// Parse `t[a..b]` (without trailing percent signs) as a `u8`.
fn parse_percentage_word(t: &Vec<char>, a: usize, b: usize) -> (res: Option<u8>)
    requires
        a < b <= t@.len(),
    ensures
        res == word_percentage(t@, a as int, b as int),
{
    let ghost w = t@.subrange(a as int, b as int);
    // drop trailing percent signs
    let mut end = b;
    while end > a && t[end - 1] == '%'
        invariant
            a <= end <= b,
            b <= t@.len(),
            trim_end_percent(t@.subrange(a as int, end as int)) == trim_end_percent(w),
        decreases end,
    {
        assert(t@.subrange(a as int, end as int).drop_last() =~= t@.subrange(
            a as int,
            end - 1,
        ));
        end = end - 1;
    }
    let ghost trimmed = t@.subrange(a as int, end as int);
    assert(trim_end_percent(trimmed) == trimmed);
    let mut start = a;
    if start < end && t[start] == '+' {
        start = start + 1;
    }
    let ghost d = t@.subrange(start as int, end as int);
    assert(d =~= strip_plus(trimmed));
    assert(word_percentage(t@, a as int, b as int) == parse_u8_spec(trimmed));
    if start >= end {
        assert(parse_u8_spec(trimmed) is None);
        return None;
    }
    let mut value: u32 = 0;
    let mut i = start;
    while i < end
        invariant
            start <= i <= end,
            end <= t@.len(),
            d == t@.subrange(start as int, end as int),
            d == strip_plus(trimmed),
            word_percentage(t@, a as int, b as int) == parse_u8_spec(trimmed),
            forall|k: int| start <= k < i ==> is_ascii_digit(#[trigger] t@[k]),
            value == digits_value(t@.subrange(start as int, i as int)),
            value <= 255,
        decreases end - i,
    {
        let c = t[i];
        if !('0' <= c && c <= '9') {
            assert(!is_ascii_digit(d[i - start]));
            assert(!(forall|k: int| 0 <= k < d.len() ==> is_ascii_digit(#[trigger] d[k])));
            assert(parse_u8_spec(trimmed) is None);
            return None;
        }
        assert(t@.subrange(start as int, i + 1).drop_last() =~= t@.subrange(
            start as int,
            i as int,
        ));
        let digit = (c as u32) - ('0' as u32);
        let next = value * 10 + digit;
        assert(digits_value(t@.subrange(start as int, i + 1)) == next);
        if next > 255 {
            proof {
                if forall|k: int| 0 <= k < d.len() ==> is_ascii_digit(#[trigger] d[k]) {
                    lemma_digits_value_prefix(d, i + 1 - start);
                    assert(d.subrange(0, i + 1 - start) =~= t@.subrange(start as int, i + 1));
                }
            }
            assert(parse_u8_spec(trimmed) is None);
            return None;
        }
        value = next;
        i = i + 1;
    }
    assert(t@.subrange(start as int, end as int) =~= d);
    Some(value as u8)
}

proof fn lemma_word_end_unique(s: Seq<char>, a: int, b1: int, b2: int)
    requires
        word_at(s, a, b1),
        word_at(s, a, b2),
    ensures
        b1 == b2,
{
    if b1 < b2 {
        assert(!is_white_space(s[b1]));
    } else if b2 < b1 {
        assert(!is_white_space(s[b2]));
    }
}

/// The first whitespace-separated word of `text` that reads as a `u8`
/// once trailing percent signs are removed, and its value.
pub fn first_percentage(text: &str) -> (res: Option<u8>)
    ensures
        res matches Some(v) ==> exists|a: int, b: int|
            word_at(text@, a, b) && word_percentage(text@, a, b) == Some(v) && forall|
                a2: int,
                b2: int,
            |
                #![trigger word_at(text@, a2, b2)]
                word_at(text@, a2, b2) && a2 < a ==> word_percentage(text@, a2, b2) is None,
        res is None ==> forall|a: int, b: int|
            #![trigger word_at(text@, a, b)]
            word_at(text@, a, b) ==> word_percentage(text@, a, b) is None,
{
    let t = chars_of(text);
    let n = t.len();
    let mut i: usize = 0;
    while i < n
        invariant
            n == t@.len(),
            t@ == text@,
            i <= n,
            i == 0 || is_white_space(t@[i - 1]) || i == n || is_white_space(t@[i as int]),
            forall|a2: int, b2: int|
                #![trigger word_at(t@, a2, b2)]
                word_at(t@, a2, b2) && a2 < i ==> word_percentage(t@, a2, b2) is None,
        decreases n - i,
    {
        if is_white_space_char(t[i]) {
            i = i + 1;
            proof {
                assert forall|a2: int, b2: int| #![trigger word_at(t@, a2, b2)]
                    word_at(t@, a2, b2) && a2 < i implies word_percentage(t@, a2, b2) is None by {
                    if a2 == i - 1 {
                        assert(is_white_space(t@[a2]));
                    }
                }
            }
        } else {
            let a = i;
            let mut b = i + 1;
            while b < n && !is_white_space_char(t[b])
                invariant
                    n == t@.len(),
                    a < b <= n,
                    forall|k: int| a <= k < b ==> !is_white_space(#[trigger] t@[k]),
                decreases n - b,
            {
                b = b + 1;
            }
            proof {
                // `a` starts a word: the character before it (if any) is white space
                if a > 0 && !is_white_space(t@[a - 1]) {
                    assert(is_white_space(t@[a as int]));
                }
                assert(word_at(t@, a as int, b as int));
            }
            let v = parse_percentage_word(&t, a, b);
            if let Some(x) = v {
                return Some(x);
            }
            proof {
                assert forall|a2: int, b2: int| #![trigger word_at(t@, a2, b2)]
                    word_at(t@, a2, b2) && a2 < b implies word_percentage(t@, a2, b2) is None by {
                    if a2 == a {
                        lemma_word_end_unique(t@, a as int, b as int, b2);
                    } else if a < a2 < b {
                        assert(!is_white_space(t@[a2 - 1]));
                    }
                }
            }
            i = b;
        }
    }
    None
}

/// `needle` occurs in `hay` at position `i`.
pub open spec fn text_occurs_at(hay: Seq<char>, needle: Seq<char>, i: int) -> bool {
    0 <= i && i + needle.len() <= hay.len() && hay.subrange(i, i + needle.len()) == needle
}

/// `needle` occurs somewhere in `hay` (`str::contains`).
pub open spec fn contains_text(hay: Seq<char>, needle: Seq<char>) -> bool {
    exists|i: int| text_occurs_at(hay, needle, i)
}

fn occurs_at_pos(hay: &Vec<char>, needle: &Vec<char>, i: usize) -> (b: bool)
    requires
        i + needle@.len() <= hay@.len(),
    ensures
        b == text_occurs_at(hay@, needle@, i as int),
{
    let hl = hay.len();
    let mut k: usize = 0;
    while k < needle.len()
        invariant
            hl == hay@.len(),
            i + needle@.len() <= hay@.len(),
            k <= needle@.len(),
            forall|m: int| 0 <= m < k ==> hay@[i + m] == needle@[m],
        decreases needle@.len() - k,
    {
        assert(i + k < hay@.len());
        if hay[i + k] != needle[k] {
            proof {
                let sub = hay@.subrange(i as int, i + needle@.len());
                assert(sub[k as int] != needle@[k as int]);
            }
            return false;
        }
        k = k + 1;
    }
    assert(hay@.subrange(i as int, i + needle@.len()) =~= needle@);
    true
}

/// Whether `needle` occurs in `hay`.
pub fn text_contains(hay: &str, needle: &str) -> (b: bool)
    ensures
        b == contains_text(hay@, needle@),
{
    let h = chars_of(hay);
    let n = chars_of(needle);
    if n.len() > h.len() {
        return false;
    }
    if n.len() == 0 {
        assert(text_occurs_at(hay@, needle@, 0)) by {
            assert(hay@.subrange(0, 0) =~= needle@);
        }
        return true;
    }
    let hl = h.len();
    let last = hl - n.len();
    let mut i: usize = 0;
    while i <= last
        invariant
            hl == h@.len(),
            n@.len() > 0,
            h@ == hay@,
            n@ == needle@,
            last == h@.len() - n@.len(),
            i <= last + 1,
            forall|j: int| 0 <= j < i ==> !text_occurs_at(hay@, needle@, j),
        decreases last + 1 - i,
    {
        if occurs_at_pos(&h, &n, i) {
            return true;
        }
        i = i + 1;
    }
    assert forall|j: int| !text_occurs_at(hay@, needle@, j) by {
        if 0 <= j < i {
        }
    }
    false
}

/// `str::trim_start`: leading white space removed.
pub open spec fn trim_start_spec(t: Seq<char>) -> Seq<char>
    decreases t.len(),
{
    if t.len() > 0 && is_white_space(t[0]) {
        trim_start_spec(t.drop_first())
    } else {
        t
    }
}

/// `str::trim_end`: trailing white space removed.
pub open spec fn trim_end_spec(t: Seq<char>) -> Seq<char>
    decreases t.len(),
{
    if t.len() > 0 && is_white_space(t.last()) {
        trim_end_spec(t.drop_last())
    } else {
        t
    }
}

/// `str::trim`: leading and trailing white space removed.
pub open spec fn trim_spec(t: Seq<char>) -> Seq<char> {
    trim_end_spec(trim_start_spec(t))
}

/// The bounds of `s[a..b]` trimmed of white space.
pub fn trim_range(s: &Vec<char>, a: usize, b: usize) -> (r: (usize, usize))
    requires
        a <= b <= s@.len(),
    ensures
        a <= r.0 <= r.1 <= b,
        s@.subrange(r.0 as int, r.1 as int) == trim_spec(s@.subrange(a as int, b as int)),
{
    let mut i = a;
    while i < b && is_white_space_char(s[i])
        invariant
            a <= i <= b <= s@.len(),
            trim_start_spec(s@.subrange(a as int, b as int)) == trim_start_spec(
                s@.subrange(i as int, b as int),
            ),
        decreases b - i,
    {
        assert(s@.subrange(i as int, b as int).drop_first() =~= s@.subrange(i + 1, b as int));
        i = i + 1;
    }
    let mut j = b;
    while j > i && is_white_space_char(s[j - 1])
        invariant
            a <= i <= j <= b <= s@.len(),
            trim_start_spec(s@.subrange(a as int, b as int)) == s@.subrange(i as int, b as int),
            trim_end_spec(s@.subrange(i as int, b as int)) == trim_end_spec(
                s@.subrange(i as int, j as int),
            ),
        decreases j - i,
    {
        assert(s@.subrange(i as int, j as int).drop_last() =~= s@.subrange(i as int, j - 1));
        j = j - 1;
    }
    (i, j)
}

/// Whether `s[a..b]` starts with `p`.
pub fn range_has_prefix(s: &Vec<char>, a: usize, b: usize, p: &Vec<char>) -> (r: bool)
    requires
        a <= b <= s@.len(),
    ensures
        r == (p@.len() <= b - a && s@.subrange(a as int, b as int).subrange(0, p@.len() as int)
            == p@),
{
    if p.len() > b - a {
        return false;
    }
    let mut k: usize = 0;
    while k < p.len()
        invariant
            a <= b <= s@.len(),
            p@.len() <= b - a,
            k <= p@.len(),
            forall|m: int| 0 <= m < k ==> s@[a + m] == p@[m],
        decreases p@.len() - k,
    {
        if s[a + k] != p[k] {
            proof {
                let t = s@.subrange(a as int, b as int).subrange(0, p@.len() as int);
                assert(t[k as int] != p@[k as int]);
            }
            return false;
        }
        k = k + 1;
    }
    assert(s@.subrange(a as int, b as int).subrange(0, p@.len() as int) =~= p@);
    true
}

/// Whether `s[a..b]` is `p`.
pub fn range_equals(s: &Vec<char>, a: usize, b: usize, p: &Vec<char>) -> (r: bool)
    requires
        a <= b <= s@.len(),
    ensures
        r == (s@.subrange(a as int, b as int) == p@),
{
    if p.len() != b - a {
        return false;
    }
    let r = range_has_prefix(s, a, b, p);
    proof {
        let t = s@.subrange(a as int, b as int);
        assert(t.subrange(0, p@.len() as int) =~= t);
    }
    r
}

} // verus!
