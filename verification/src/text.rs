//! Character-level helpers shared by the parsers and renderers.

use vstd::prelude::*;

verus! {

broadcast use vstd::string::group_string_axioms;

/// The characters of `s`, in order.
pub fn chars_of(s: &str) -> (v: Vec<char>)
    ensures
        v@ == s@,
{
    let mut v: Vec<char> = Vec::new();
    for c in it: s.chars()
        invariant
            v@ == it.seq().take(it.index() as int),
    {
        v.push(c);
    }
    v
}

/// Appends one character to a `String` (std's `String::push`).
#[verifier::external_body]
pub(crate) fn push_char(s: &mut String, c: char)
    ensures
        final(s)@ == old(s)@.push(c),
{
    s.push(c);
}

/// A new `String` holding `v[from..to]`.
pub fn string_from_range(v: &Vec<char>, from: usize, to: usize) -> (s: String)
    requires
        from <= to <= v.len(),
    ensures
        s@ == v@.subrange(from as int, to as int),
{
    let mut s = String::new();
    let mut i = from;
    while i < to
        invariant
            from <= i <= to <= v.len(),
            s@ == v@.subrange(from as int, i as int),
        decreases to - i,
    {
        push_char(&mut s, v[i]);
        i += 1;
        assert(s@ =~= v@.subrange(from as int, i as int));
    }
    s
}

/// `s` with every occurrence of `pat` replaced by `rep`, scanning left to right and
/// never overlapping (what `str::replace` computes for a non-empty pattern).
pub open spec fn replaced(s: Seq<char>, pat: Seq<char>, rep: Seq<char>) -> Seq<char>
    decreases s.len(),
{
    if s.len() == 0 || pat.len() == 0 {
        s
    } else if pat.len() <= s.len() && s.take(pat.len() as int) == pat {
        rep + replaced(s.skip(pat.len() as int), pat, rep)
    } else {
        seq![s[0]] + replaced(s.skip(1), pat, rep)
    }
}

/// Whether `pat` occurs in `v` at position `at`.
fn occurs_at(v: &Vec<char>, at: usize, pat: &Vec<char>) -> (b: bool)
    requires
        at <= v.len(),
    ensures
        b == (pat.len() <= v.len() - at && v@.subrange(at as int, at + pat.len()) == pat@),
{
    if pat.len() > v.len() - at {
        return false;
    }
    let mut k: usize = 0;
    while k < pat.len()
        invariant
            pat.len() <= v.len() - at,
            k <= pat.len(),
            forall|m: int| 0 <= m < k ==> v@[at + m] == pat@[m],
        decreases pat.len() - k,
    {
        if v[at + k] != pat[k] {
            assert(v@.subrange(at as int, at + pat.len())[k as int] != pat@[k as int]);
            return false;
        }
        k += 1;
    }
    assert(v@.subrange(at as int, at + pat.len()) =~= pat@);
    true
}

/// Replaces every occurrence of the non-empty `pat` in `v` by `rep`.
pub fn replace_all(v: &Vec<char>, pat: &Vec<char>, rep: &Vec<char>) -> (r: Vec<char>)
    requires
        pat.len() > 0,
    ensures
        r@ == replaced(v@, pat@, rep@),
{
    let mut r: Vec<char> = Vec::new();
    let mut i: usize = 0;
    assert(v@.skip(0) =~= v@);
    while i < v.len()
        invariant
            pat.len() > 0,
            i <= v.len(),
            r@ + replaced(v@.skip(i as int), pat@, rep@) == replaced(v@, pat@, rep@),
        decreases v.len() - i,
    {
        let ghost rest = v@.skip(i as int);
        let ghost before = r@;
        if occurs_at(v, i, pat) {
            assert(rest.take(pat.len() as int) =~= v@.subrange(i as int, i + pat.len()));
            assert(rest.skip(pat.len() as int) =~= v@.skip(i + pat.len()));
            let mut k: usize = 0;
            while k < rep.len()
                invariant
                    k <= rep.len(),
                    r@ == before + rep@.take(k as int),
                decreases rep.len() - k,
            {
                r.push(rep[k]);
                k += 1;
                assert(r@ =~= before + rep@.take(k as int));
            }
            assert(rep@.take(rep.len() as int) =~= rep@);
            assert(before + (rep@ + replaced(rest.skip(pat.len() as int), pat@, rep@)) =~= (before
                + rep@) + replaced(rest.skip(pat.len() as int), pat@, rep@));
            i += pat.len();
        } else {
            assert(pat.len() <= rest.len() ==> rest.take(pat.len() as int) =~= v@.subrange(
                i as int,
                i + pat.len(),
            ));
            assert(rest.skip(1) =~= v@.skip(i + 1));
            r.push(v[i]);
            assert(before + (seq![v@[i as int]] + replaced(rest.skip(1), pat@, rep@)) =~= before.push(
                v@[i as int],
            ) + replaced(rest.skip(1), pat@, rep@));
            i += 1;
        }
    }
    assert(r@ =~= r@ + replaced(v@.skip(i as int), pat@, rep@));
    r
}

/// A new `String` holding the characters of `v`.
pub fn string_from_chars(v: &Vec<char>) -> (s: String)
    ensures
        s@ == v@,
{
    let s = string_from_range(v, 0, v.len());
    assert(v@.subrange(0, v.len() as int) =~= v@);
    s
}

/// Whether two strings hold the same characters.
pub fn str_eq(a: &str, b: &str) -> (r: bool)
    ensures
        r == (a@ == b@),
{
    let x = chars_of(a);
    let y = chars_of(b);
    if x.len() != y.len() {
        return false;
    }
    let mut i: usize = 0;
    while i < x.len()
        invariant
            x@ == a@,
            y@ == b@,
            x.len() == y.len(),
            i <= x.len(),
            forall|k: int| 0 <= k < i ==> x@[k] == y@[k],
        decreases x.len() - i,
    {
        if x[i] != y[i] {
            assert(x@[i as int] != y@[i as int]);
            return false;
        }
        i += 1;
    }
    assert(x@ =~= y@);
    true
}

/// A new `String` holding `a` followed by `b`.
pub fn joined(a: &str, b: &str) -> (r: String)
    ensures
        r@ == a@ + b@,
{
    let mut r = String::new();
    r.append(a);
    r.append(b);
    assert(r@ =~= a@ + b@);
    r
}

} // verus!
