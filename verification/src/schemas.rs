//! Component schemas collected from every registered path, deduplicated by name.

use vstd::prelude::*;

use crate::text::str_eq;

verus! {

/// The names of `list`, in order.
pub open spec fn names_of<S>(list: Seq<(String, S)>) -> Seq<Seq<char>> {
    list.map_values(|e: (String, S)| e.0@)
}

/// `list` keeping only the first entry of each name (the same type is referenced from
/// many paths; the first registration wins).
pub open spec fn first_by_name<S>(list: Seq<(String, S)>) -> Seq<(String, S)>
    decreases list.len(),
{
    if list.len() == 0 {
        Seq::empty()
    } else {
        let prev = first_by_name(list.drop_last());
        if names_of(list.drop_last()).contains(list.last().0@) {
            prev
        } else {
            prev.push(list.last())
        }
    }
}

/// Kept entries have the names seen so far, each once.
proof fn lemma_first_by_name_names<S>(list: Seq<(String, S)>)
    ensures
        forall|n: Seq<char>| #[trigger]
            names_of(first_by_name(list)).contains(n) <==> names_of(list).contains(n),
    decreases list.len(),
{
    if list.len() > 0 {
        let init = list.drop_last();
        let last = list.last().0@;
        lemma_first_by_name_names(init);
        let prev = first_by_name(init);
        let out = names_of(first_by_name(list));
        assert(names_of(list) =~= names_of(init).push(last));
        if names_of(init).contains(last) {
            assert(out =~= names_of(prev));
        } else {
            assert(out =~= names_of(prev).push(last));
        }
        assert forall|n: Seq<char>| #[trigger] out.contains(n) <==> names_of(list).contains(n) by {
            assert(names_of(prev).contains(n) == names_of(init).contains(n));
            lemma_push_contains(names_of(init), last, n);
            if !names_of(init).contains(last) {
                lemma_push_contains(names_of(prev), last, n);
            }
        }
    }
}

proof fn lemma_push_contains(s: Seq<Seq<char>>, x: Seq<char>, n: Seq<char>)
    ensures
        s.push(x).contains(n) <==> (s.contains(n) || n == x),
{
    if s.contains(n) {
        let k = choose|k: int| 0 <= k < s.len() && s[k] == n;
        assert(s.push(x)[k] == n);
    }
    if n == x {
        assert(s.push(x)[s.len() as int] == n);
    }
    if s.push(x).contains(n) && n != x {
        let k = choose|k: int| 0 <= k < s.push(x).len() && s.push(x)[k] == n;
        assert(s[k] == n);
    }
}

/// Deduplicating by name: no two kept entries share a name, every name of `list` is
/// kept, and each kept entry is the first entry of `list` with its name.
pub proof fn schema_dedup_keeps_first_of_each_name<S>(list: Seq<(String, S)>)
    ensures
        forall|i: int, j: int|
            0 <= i < j < first_by_name(list).len() ==> #[trigger] first_by_name(list)[i].0@
                != #[trigger] first_by_name(list)[j].0@,
        forall|n: Seq<char>| #[trigger]
            names_of(first_by_name(list)).contains(n) <==> names_of(list).contains(n),
        forall|i: int|
            0 <= i < first_by_name(list).len() ==> exists|k: int|
                0 <= k < list.len() && #[trigger] list[k] == #[trigger] first_by_name(list)[i]
                    && !names_of(list.take(k)).contains(list[k].0@),
    decreases list.len(),
{
    lemma_first_by_name_names(list);
    if list.len() > 0 {
        let init = list.drop_last();
        schema_dedup_keeps_first_of_each_name(init);
        lemma_first_by_name_names(init);
        let prev = first_by_name(init);
        let out = first_by_name(list);
        assert forall|i: int| 0 <= i < out.len() implies exists|k: int|
            0 <= k < list.len() && #[trigger] list[k] == #[trigger] out[i] && !names_of(
                list.take(k),
            ).contains(list[k].0@) by {
            if i < prev.len() {
                assert(out[i] == prev[i]);
                let k = choose|k: int|
                    0 <= k < init.len() && #[trigger] init[k] == #[trigger] prev[i] && !names_of(
                        init.take(k),
                    ).contains(init[k].0@);
                assert(list.take(k) =~= init.take(k));
                assert(list[k] == init[k]);
            } else {
                let k = list.len() - 1;
                assert(list.take(k) =~= init);
                assert(list[k] == out[i]);
            }
        }
        if !names_of(init).contains(list.last().0@) {
            assert forall|i: int, j: int|
                0 <= i < j < out.len() implies #[trigger] out[i].0@ != #[trigger] out[j].0@ by {
                if j == out.len() - 1 {
                    assert(names_of(prev)[i] == out[i].0@);
                    assert(names_of(prev).contains(out[i].0@));
                } else {
                    assert(out[i] == prev[i] && out[j] == prev[j]);
                }
            }
        }
    }
}

/// Deduplicate schemas by name, keeping the first of each.
pub fn dedup_by_name<S>(list: Vec<(String, S)>) -> (out: Vec<(String, S)>)
    ensures
        out@ == first_by_name(list@),
{
    let ghost orig = list@;
    let mut rest = list;
    let mut out: Vec<(String, S)> = Vec::new();
    let mut i: usize = 0;
    assert(orig.len() == rest.len());
    assert(orig.take(0) =~= Seq::<(String, S)>::empty());
    assert(orig.skip(0) =~= orig);
    while rest.len() > 0
        invariant
            i <= orig.len(),
            orig.len() <= usize::MAX,
            rest@ == orig.skip(i as int),
            out@ == first_by_name(orig.take(i as int)),
        decreases rest.len(),
    {
        let item = rest.remove(0);
        proof {
            lemma_first_by_name_names(orig.take(i as int));
        }
        assert(orig.take(i + 1).drop_last() =~= orig.take(i as int));
        assert(item == orig[i as int]);
        assert(orig.take(i + 1).last() == item);
        assert(orig.skip(i as int).remove(0) =~= orig.skip(i + 1));
        let mut seen = false;
        let mut k: usize = 0;
        while k < out.len()
            invariant
                k <= out.len(),
                seen == exists|m: int| 0 <= m < k && out@[m].0@ == item.0@,
            decreases out.len() - k,
        {
            if str_eq(out[k].0.as_str(), item.0.as_str()) {
                seen = true;
            }
            k += 1;
        }
        assert(seen == names_of(out@).contains(item.0@)) by {
            if seen {
                let m = choose|m: int| 0 <= m < k && out@[m].0@ == item.0@;
                assert(names_of(out@)[m] == item.0@);
            }
            if names_of(out@).contains(item.0@) {
                let m = choose|m: int| 0 <= m < names_of(out@).len() && names_of(out@)[m] == item.0@;
                assert(out@[m].0@ == item.0@);
            }
        }
        if !seen {
            out.push(item);
        }
        i += 1;
    }
    assert(orig.take(i as int) =~= orig);
    out
}

} // verus!
