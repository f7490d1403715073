//! Ordering names as `String`'s `Ord` does, and sorting entries by name.
//!
//! `String` compares its UTF-8 bytes lexicographically; UTF-8 keeps the
//! order of code points, so that order is the lexicographic order of the
//! characters, which is what `name_le` states.
use vstd::prelude::*;
use vstd::multiset::Multiset;

verus! {

broadcast use vstd::seq_lib::group_to_multiset_ensures;

/// `a` comes before `b` or equals it: lexicographic order of characters.
pub open spec fn name_le(a: Seq<char>, b: Seq<char>) -> bool
    decreases a.len(),
{
    if a.len() == 0 {
        true
    } else if b.len() == 0 {
        false
    } else if a[0] != b[0] {
        (a[0] as int) < (b[0] as int)
    } else {
        name_le(a.drop_first(), b.drop_first())
    }
}

/// Any two names are ordered one way or the other.
pub proof fn lemma_name_le_total(a: Seq<char>, b: Seq<char>)
    ensures
        name_le(a, b) || name_le(b, a),
    decreases a.len(),
{
    if a.len() > 0 && b.len() > 0 && a[0] == b[0] {
        lemma_name_le_total(a.drop_first(), b.drop_first());
    }
}

/// The order is transitive.
pub proof fn lemma_name_le_trans(a: Seq<char>, b: Seq<char>, c: Seq<char>)
    requires
        name_le(a, b),
        name_le(b, c),
    ensures
        name_le(a, c),
    decreases a.len(),
{
    if a.len() > 0 && b.len() > 0 && c.len() > 0 && a[0] == b[0] && b[0] == c[0] {
        lemma_name_le_trans(a.drop_first(), b.drop_first(), c.drop_first());
    }
}

/// Entries in order of their names.
pub open spec fn sorted_by_name<T>(s: Seq<(String, T)>) -> bool {
    forall|i: int, j: int| 0 <= i < j < s.len() ==> name_le(#[trigger] s[i].0@, #[trigger] s[j].0@)
}

/// `s` holds the entries of `v`, in order of their names.
pub open spec fn is_name_sorting<T>(v: Seq<(String, T)>, s: Seq<(String, T)>) -> bool {
    s.to_multiset() == v.to_multiset() && sorted_by_name(s)
}

/// Whether `a` comes before `b` or equals it.
pub fn name_le_exec(a: &String, b: &String) -> (r: bool)
    ensures
        r == name_le(a@, b@),
{
    let x = crate::words::chars_of(a.as_str());
    let y = crate::words::chars_of(b.as_str());
    let mut k: usize = 0;
    assert(a@.skip(0) =~= a@ && b@.skip(0) =~= b@);
    while k < x.len() && k < y.len() && x[k] == y[k]
        invariant
            x@ == a@,
            y@ == b@,
            k <= x@.len(),
            k <= y@.len(),
            name_le(a@, b@) == name_le(a@.skip(k as int), b@.skip(k as int)),
        decreases x@.len() - k,
    {
        assert(a@.skip(k as int).drop_first() =~= a@.skip(k + 1));
        assert(b@.skip(k as int).drop_first() =~= b@.skip(k + 1));
        k = k + 1;
    }
    if k == x.len() {
        true
    } else if k == y.len() {
        false
    } else {
        assert(a@.skip(k as int)[0] == x@[k as int]);
        assert(b@.skip(k as int)[0] == y@[k as int]);
        x[k] < y[k]
    }
}

/// The entries of `v` sorted by name.
pub fn sort_by_name<T>(v: Vec<(String, T)>) -> (r: Vec<(String, T)>)
    ensures
        is_name_sorting(v@, r@),
{
    let mut rest = v;
    let mut out: Vec<(String, T)> = Vec::new();
    while rest.len() > 0
        invariant
            rest@.to_multiset().add(out@.to_multiset()) == v@.to_multiset(),
            sorted_by_name(out@),
        decreases rest@.len(),
    {
        let ghost before_rest = rest@;
        let x = rest.pop().unwrap();
        assert(before_rest =~= rest@.push(x));
        let mut pos: usize = 0;
        while pos < out.len() && name_le_exec(&out[pos].0, &x.0)
            invariant
                pos <= out@.len(),
                sorted_by_name(out@),
                forall|m: int| 0 <= m < pos ==> name_le(#[trigger] out@[m].0@, x.0@),
            decreases out@.len() - pos,
        {
            pos = pos + 1;
        }
        proof {
            if pos < out@.len() {
                assert forall|m: int| pos <= m < out@.len() implies name_le(
                    x.0@,
                    #[trigger] out@[m].0@,
                ) by {
                    lemma_name_le_total(x.0@, out@[pos as int].0@);
                    if m > pos {
                        lemma_name_le_trans(x.0@, out@[pos as int].0@, out@[m].0@);
                    }
                }
            }
        }
        let ghost before_out = out@;
        out.insert(pos, x);
        proof {
            assert forall|i: int, j: int| 0 <= i < j < out@.len() implies name_le(
                #[trigger] out@[i].0@,
                #[trigger] out@[j].0@,
            ) by {
                if i < pos && j > pos {
                    assert(out@[i] == before_out[i] && out@[j] == before_out[j - 1]);
                    assert(name_le(before_out[i].0@, x.0@));
                    assert(name_le(x.0@, before_out[j - 1].0@));
                    lemma_name_le_trans(before_out[i].0@, x.0@, before_out[j - 1].0@);
                } else if i < pos && j == pos {
                    assert(out@[i] == before_out[i] && out@[j] == x);
                    assert(name_le(before_out[i].0@, x.0@));
                } else if i == pos {
                    assert(out@[i] == x && out@[j] == before_out[j - 1]);
                    assert(name_le(x.0@, before_out[j - 1].0@));
                } else if j < pos {
                    assert(before_out[i] == out@[i] && before_out[j] == out@[j]);
                    assert(name_le(before_out[i].0@, before_out[j].0@));
                } else {
                    assert(before_out[i - 1] == out@[i] && before_out[j - 1] == out@[j]);
                    assert(name_le(before_out[i - 1].0@, before_out[j - 1].0@));
                }
            }
            assert(out@.to_multiset() == before_out.to_multiset().insert(x));
            assert(before_rest.to_multiset() == rest@.to_multiset().insert(x));
            assert(rest@.to_multiset().add(out@.to_multiset()) =~= before_rest.to_multiset().add(
                before_out.to_multiset(),
            ));
        }
    }
    proof {
        assert(rest@.to_multiset() =~= Multiset::empty());
        assert(out@.to_multiset() =~= Multiset::<(String, T)>::empty().add(out@.to_multiset()));
    }
    out
}

} // verus!
