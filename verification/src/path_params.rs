//! Captures (`{name}`) in an axum-style route path.

use vstd::prelude::*;

use crate::text::{chars_of, string_from_range};

verus! {

/// Index of the first occurrence of `c` in `s`, if any.
pub open spec fn first_index(s: Seq<char>, c: char) -> Option<int>
    decreases s.len(),
{
    if s.len() == 0 {
        None
    } else if s[0] == c {
        Some(0)
    } else {
        match first_index(s.skip(1), c) {
            Some(k) => Some(k + 1),
            None => None,
        }
    }
}

/// A capture's text with one leading `*` (wildcard marker) removed.
pub open spec fn strip_wildcard(raw: Seq<char>) -> Seq<char> {
    if raw.len() > 0 && raw[0] == '*' {
        raw.skip(1)
    } else {
        raw
    }
}

/// The capture names of `path`, left to right: each capture runs from a `{` to the
/// first `}` after it; a leading `*` is dropped, empty names are skipped, and an
/// unterminated `{` ends the scan.
pub open spec fn path_params_of(path: Seq<char>) -> Seq<Seq<char>>
    decreases path.len(),
{
    match first_index(path, '{') {
        None => Seq::empty(),
        Some(i) => {
            let rest = path.skip(i + 1);
            match first_index(rest, '}') {
                None => Seq::empty(),
                Some(j) => {
                    proof {
                        lemma_first_index_bounds(path, '{');
                        lemma_first_index_bounds(rest, '}');
                    }
                    let name = strip_wildcard(rest.take(j));
                    let tail = path_params_of(rest.skip(j + 1));
                    if name.len() > 0 {
                        seq![name] + tail
                    } else {
                        tail
                    }
                }
            }
        }
    }
}

/// `first_index` finds the first occurrence, and `None` means there is none.
pub proof fn lemma_first_index_bounds(s: Seq<char>, c: char)
    ensures
        first_index(s, c) matches Some(k) ==> 0 <= k < s.len() && s[k] == c && forall|m: int|
            0 <= m < k ==> s[m] != c,
        first_index(s, c) is None ==> forall|m: int| 0 <= m < s.len() ==> s[m] != c,
    decreases s.len(),
{
    if s.len() > 0 && s[0] != c {
        lemma_first_index_bounds(s.skip(1), c);
        if first_index(s, c) is None {
            assert forall|m: int| 0 <= m < s.len() implies s[m] != c by {
                if m > 0 {
                    assert(s[m] == s.skip(1)[m - 1]);
                }
            }
        } else {
            let k = first_index(s, c)->0;
            assert forall|m: int| 0 <= m < k implies s[m] != c by {
                if m > 0 {
                    assert(s[m] == s.skip(1)[m - 1]);
                }
            }
        }
    }
}

/// The characterisation of `first_index` by its properties.
proof fn lemma_first_index_is(s: Seq<char>, c: char, k: int)
    requires
        0 <= k <= s.len(),
        forall|m: int| 0 <= m < k ==> s[m] != c,
        k < s.len() ==> s[k] == c,
    ensures
        first_index(s, c) == (if k < s.len() { Some(k) } else { None::<int> }),
{
    lemma_first_index_bounds(s, c);
}

/// Scans `v[from..]` for `c`; the index found is absolute.
fn find_from(v: &Vec<char>, from: usize, c: char) -> (r: Option<usize>)
    requires
        from <= v.len(),
    ensures
        r matches Some(k) ==> from <= k < v.len() && first_index(v@.skip(from as int), c) == Some(
            k - from,
        ),
        r is None ==> first_index(v@.skip(from as int), c) is None,
{
    let mut k = from;
    while k < v.len()
        invariant
            from <= k <= v.len(),
            forall|m: int| from <= m < k ==> v@[m] != c,
        decreases v.len() - k,
    {
        if v[k] == c {
            proof {
                lemma_first_index_is(v@.skip(from as int), c, k - from);
            }
            return Some(k);
        }
        k += 1;
    }
    proof {
        lemma_first_index_is(v@.skip(from as int), c, v.len() - from);
    }
    None
}

/// Every capture name is non-empty and holds no `}`; a path without `{` has none.
pub proof fn path_params_are_well_formed(path: Seq<char>)
    ensures
        forall|k: int|
            0 <= k < path_params_of(path).len() ==> #[trigger] path_params_of(path)[k].len() > 0
                && !path_params_of(path)[k].contains('}'),
        !path.contains('{') ==> path_params_of(path).len() == 0,
    decreases path.len(),
{
    lemma_first_index_bounds(path, '{');
    match first_index(path, '{') {
        None => {},
        Some(i) => {
            let rest = path.skip(i + 1);
            lemma_first_index_bounds(rest, '}');
            match first_index(rest, '}') {
                None => {},
                Some(j) => {
                    path_params_are_well_formed(rest.skip(j + 1));
                    let raw = rest.take(j);
                    let name = strip_wildcard(raw);
                    assert(!raw.contains('}'));
                    assert(!name.contains('}')) by {
                        if name.contains('}') {
                            let m = choose|m: int| 0 <= m < name.len() && name[m] == '}';
                            if raw.len() > 0 && raw[0] == '*' {
                                assert(raw[m + 1] == '}');
                            } else {
                                assert(raw[m] == '}');
                            }
                        }
                    }
                    let tail = path_params_of(rest.skip(j + 1));
                    if name.len() > 0 {
                        assert forall|k: int|
                            0 <= k < path_params_of(path).len() implies #[trigger] path_params_of(
                            path,
                        )[k].len() > 0 && !path_params_of(path)[k].contains('}') by {
                            if k > 0 {
                                assert(path_params_of(path)[k] == tail[k - 1]);
                            }
                        }
                    }
                },
            }
        },
    }
}

/// Every `{` of `a` is closed by a `}` later in `a`.
pub open spec fn captures_closed(a: Seq<char>) -> bool {
    forall|i: int|
        0 <= i < a.len() && #[trigger] a[i] == '{' ==> exists|j: int| i < j < a.len() && a[j] == '}'
}

proof fn lemma_first_index_concat(a: Seq<char>, b: Seq<char>, c: char)
    ensures
        first_index(a + b, c) == (match first_index(a, c) {
            Some(k) => Some(k),
            None => match first_index(b, c) {
                Some(k) => Some(k + a.len()),
                None => None::<int>,
            },
        }),
{
    lemma_first_index_bounds(a, c);
    lemma_first_index_bounds(b, c);
    match first_index(a, c) {
        Some(k) => {
            assert forall|m: int| 0 <= m < k implies (a + b)[m] != c by {
                assert((a + b)[m] == a[m]);
            }
            lemma_first_index_is(a + b, c, k);
        },
        None => {
            match first_index(b, c) {
                Some(k) => {
                    assert forall|m: int| 0 <= m < k + a.len() implies (a + b)[m] != c by {
                        if m >= a.len() {
                            assert((a + b)[m] == b[m - a.len()]);
                        } else {
                            assert((a + b)[m] == a[m]);
                        }
                    }
                    lemma_first_index_is(a + b, c, k + a.len());
                },
                None => {
                    assert forall|m: int| 0 <= m < (a + b).len() implies (a + b)[m] != c by {
                        if m >= a.len() {
                            assert((a + b)[m] == b[m - a.len()]);
                        } else {
                            assert((a + b)[m] == a[m]);
                        }
                    }
                    lemma_first_index_is(a + b, c, (a + b).len() as int);
                },
            }
        },
    }
}

/// Captures of a path whose braces all close, followed by more text, are the captures
/// of the path followed by those of the rest.
pub proof fn path_params_of_concat(a: Seq<char>, b: Seq<char>)
    requires
        captures_closed(a),
    ensures
        path_params_of(a + b) == path_params_of(a) + path_params_of(b),
    decreases a.len(),
{
    lemma_first_index_concat(a, b, '{');
    lemma_first_index_bounds(a, '{');
    match first_index(a, '{') {
        None => {
            assert(path_params_of(a) =~= Seq::<Seq<char>>::empty());
            match first_index(b, '{') {
                None => {},
                Some(k) => {
                    lemma_first_index_bounds(b, '{');
                    assert((a + b).skip(k + a.len() + 1) =~= b.skip(k + 1));
                },
            }
            assert(path_params_of(a) + path_params_of(b) =~= path_params_of(b));
        },
        Some(i) => {
            let rest_a = a.skip(i + 1);
            let rest = (a + b).skip(i + 1);
            assert(rest =~= rest_a + b);
            let j0 = choose|j: int| i < j < a.len() && a[j] == '}';
            assert(rest_a[j0 - i - 1] == '}');
            lemma_first_index_bounds(rest_a, '}');
            lemma_first_index_concat(rest_a, b, '}');
            let j = first_index(rest_a, '}')->0;
            assert(rest.take(j) =~= rest_a.take(j));
            let a2 = rest_a.skip(j + 1);
            assert(rest.skip(j + 1) =~= a2 + b);
            assert forall|p: int| 0 <= p < a2.len() && #[trigger] a2[p] == '{' implies exists|q: int|
                p < q < a2.len() && a2[q] == '}' by {
                let at = p + i + 1 + j + 1;
                assert(a[at] == a2[p]);
                let q0 = choose|q: int| at < q < a.len() && a[q] == '}';
                assert(a2[q0 - (i + 1 + j + 1)] == a[q0]);
            }
            path_params_of_concat(a2, b);
            let name = strip_wildcard(rest_a.take(j));
            if name.len() > 0 {
                assert(seq![name] + (path_params_of(a2) + path_params_of(b)) =~= (seq![name]
                    + path_params_of(a2)) + path_params_of(b));
            }
        },
    }
}

/// A capture's name is exactly the text between its braces, with one leading `*`
/// dropped: for text `a` without `{`, a non-empty name `n` without `}` (not starting with
/// `*` unless written as a wildcard `{*n}`) and any rest `b`, the captures of `a{n}b`
/// (or `a{*n}b`) are `n` followed by the captures of `b`.
pub proof fn capture_is_text_between_braces(a: Seq<char>, n: Seq<char>, b: Seq<char>, wildcard: bool)
    requires
        !a.contains('{'),
        !n.contains('}'),
        n.len() > 0,
        !wildcard ==> n[0] != '*',
    ensures
        path_params_of(
            a + seq!['{'] + (if wildcard {
                seq!['*'] + n
            } else {
                n
            }) + seq!['}'] + b,
        ) == seq![n] + path_params_of(b),
{
    let raw = if wildcard {
        seq!['*'] + n
    } else {
        n
    };
    let whole = a + seq!['{'] + raw + seq!['}'] + b;
    assert forall|m: int| 0 <= m < a.len() implies whole[m] != '{' by {
        assert(whole[m] == a[m]);
        if a[m] == '{' {
            assert(a.contains('{'));
        }
    }
    assert(whole[a.len() as int] == '{');
    lemma_first_index_is(whole, '{', a.len() as int);
    let rest = whole.skip(a.len() as int + 1);
    assert(rest =~= raw + seq!['}'] + b);
    assert forall|m: int| 0 <= m < raw.len() implies rest[m] != '}' by {
        assert(rest[m] == raw[m]);
        if wildcard && m > 0 {
            assert(raw[m] == n[m - 1]);
            if n[m - 1] == '}' {
                assert(n.contains('}'));
            }
        }
        if !wildcard && n[m] == '}' {
            assert(n.contains('}'));
        }
    }
    assert(rest[raw.len() as int] == '}');
    lemma_first_index_is(rest, '}', raw.len() as int);
    assert(rest.take(raw.len() as int) =~= raw);
    assert(strip_wildcard(raw) =~= n);
    assert(rest.skip(raw.len() as int + 1) =~= b);
}

/// `{serial}` / `{role}` captures in an axum-style path, in order of appearance.
pub fn parse_path_params(path: &str) -> (out: Vec<String>)
    ensures
        out@.map_values(|s: String| s@) == path_params_of(path@),
{
    let chars = chars_of(path);
    let mut out: Vec<String> = Vec::new();
    let mut pos: usize = 0;
    assert(chars@.skip(0) =~= chars@);
    assert(out@.map_values(|s: String| s@) =~= Seq::<Seq<char>>::empty());
    loop
        invariant
            chars@ == path@,
            pos <= chars.len(),
            out@.map_values(|s: String| s@) + path_params_of(chars@.skip(pos as int))
                == path_params_of(chars@),
        decreases chars.len() - pos,
    {
        let ghost rest0 = chars@.skip(pos as int);
        let open = find_from(&chars, pos, '{');
        match open {
            None => {
                assert(out@.map_values(|s: String| s@) =~= out@.map_values(|s: String| s@)
                    + path_params_of(rest0));
                return out;
            },
            Some(i) => {
                let start = i + 1;
                assert(rest0.skip(i - pos + 1) =~= chars@.skip(start as int));
                let close = find_from(&chars, start, '}');
                match close {
                    None => {
                        assert(out@.map_values(|s: String| s@) =~= out@.map_values(
                            |s: String| s@,
                        ) + path_params_of(rest0));
                        return out;
                    },
                    Some(end) => {
                        let ghost rest = chars@.skip(start as int);
                        assert(rest.take(end - start) =~= chars@.subrange(
                            start as int,
                            end as int,
                        ));
                        assert(rest.skip(end - start + 1) =~= chars@.skip(end + 1));
                        let name_from = if start < end && chars[start] == '*' {
                            start + 1
                        } else {
                            start
                        };
                        let ghost old_out = out@.map_values(|s: String| s@);
                        if name_from < end {
                            let name = string_from_range(&chars, name_from, end);
                            assert(name@ =~= strip_wildcard(rest.take(end - start)));
                            out.push(name);
                            assert(out@.map_values(|s: String| s@) =~= old_out.push(name@));
                            assert(old_out.push(name@) + path_params_of(chars@.skip(end + 1))
                                =~= old_out + (seq![name@] + path_params_of(
                                chars@.skip(end + 1),
                            )));
                        } else {
                            assert(strip_wildcard(rest.take(end - start)).len() == 0);
                        }
                        pos = end + 1;
                    },
                }
            },
        }
    }
}

} // verus!
