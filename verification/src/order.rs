//! The order of strings (by code point, as `str` orders them), and the
//! stable sort and de-duplication that reports use to list paths.

use vstd::prelude::*;

use crate::sets::views;
use crate::text::{chars_eq_ignore_case, eq_ignore_case, lower, lower_chars, to_chars};

verus! {

/// `a` sorts strictly before `b`, comparing code points from the left.
pub open spec fn text_lt(a: Seq<char>, b: Seq<char>) -> bool
    decreases a.len(),
{
    if a.len() == 0 {
        b.len() > 0
    } else if b.len() == 0 {
        false
    } else if a[0] != b[0] {
        (a[0] as u32) < (b[0] as u32)
    } else {
        text_lt(a.drop_first(), b.drop_first())
    }
}

/// `a` sorts before `b` or equals it.
pub open spec fn text_le(a: Seq<char>, b: Seq<char>) -> bool {
    a == b || text_lt(a, b)
}

/// Whether `a` sorts before `b` or equals it.
pub fn chars_le(a: &[char], b: &[char]) -> (r: bool)
    ensures
        r == text_le(a@, b@),
{
    let mut i: usize = 0;
    assert(a@.skip(0) =~= a@);
    assert(b@.skip(0) =~= b@);
    while i < a.len() && i < b.len()
        invariant
            i <= a@.len(),
            i <= b@.len(),
            a@.take(i as int) == b@.take(i as int),
            text_le(a@, b@) == text_le(a@.skip(i as int), b@.skip(i as int)),
        decreases a@.len() - i,
    {
        proof {
            assert(a@.skip(i as int)[0] == a@[i as int]);
            assert(b@.skip(i as int)[0] == b@[i as int]);
            assert(a@.skip(i as int).drop_first() =~= a@.skip(i + 1));
            assert(b@.skip(i as int).drop_first() =~= b@.skip(i + 1));
        }
        if a[i] != b[i] {
            proof {
                assert(a@.skip(i as int) != b@.skip(i as int));
            }
            return (a[i] as u32) < (b[i] as u32);
        }
        proof {
            assert(a@.take(i + 1) =~= a@.take(i as int).push(a@[i as int]));
            assert(b@.take(i + 1) =~= b@.take(i as int).push(b@[i as int]));
            if a@.skip(i as int) == b@.skip(i as int) {
                assert(a@.skip(i + 1) == b@.skip(i + 1));
            } else {
                assert(a@.skip(i + 1) != b@.skip(i + 1)) by {
                    if a@.skip(i + 1) == b@.skip(i + 1) {
                        assert(a@.skip(i as int) =~= seq![a@[i as int]] + a@.skip(i + 1));
                        assert(b@.skip(i as int) =~= seq![b@[i as int]] + b@.skip(i + 1));
                    }
                }
            }
        }
        i += 1;
    }
    proof {
        if i == a.len() {
            assert(a@.skip(i as int).len() == 0);
            if i == b.len() {
                assert(a@ =~= a@.take(i as int));
                assert(b@ =~= b@.take(i as int));
                assert(a@.skip(i as int) =~= b@.skip(i as int));
            }
        } else {
            assert(b@.skip(i as int).len() == 0);
            assert(a@.skip(i as int) != b@.skip(i as int));
        }
    }
    i == a.len()
}

/// The key a string sorts by: itself, or its ASCII lowercase.
pub open spec fn sort_key(t: Seq<char>, fold_case: bool) -> Seq<char> {
    if fold_case {
        lower(t)
    } else {
        t
    }
}

/// `x` placed into the sorted `s` after every element whose key is not
/// greater than its own.
pub open spec fn insert_by_key<A>(s: Seq<A>, x: A, key: spec_fn(A) -> Seq<char>) -> Seq<A>
    decreases s.len(),
{
    if s.len() == 0 {
        seq![x]
    } else if text_le(key(s.last()), key(x)) {
        s.push(x)
    } else {
        insert_by_key(s.drop_last(), x, key).push(s.last())
    }
}

/// The stable sort of `s` by key: elements with equal keys keep their order.
pub open spec fn sort_by_key<A>(s: Seq<A>, key: spec_fn(A) -> Seq<char>) -> Seq<A>
    decreases s.len(),
{
    if s.len() == 0 {
        s
    } else {
        insert_by_key(sort_by_key(s.drop_last(), key), s.last(), key)
    }
}

proof fn lemma_insert_len<A>(s: Seq<A>, x: A, key: spec_fn(A) -> Seq<char>)
    ensures
        insert_by_key(s, x, key).len() == s.len() + 1,
    decreases s.len(),
{
    if s.len() > 0 {
        lemma_insert_len(s.drop_last(), x, key);
    }
}

/// Sorting keeps the number of elements.
pub proof fn lemma_sort_len<A>(s: Seq<A>, key: spec_fn(A) -> Seq<char>)
    ensures
        sort_by_key(s, key).len() == s.len(),
    decreases s.len(),
{
    if s.len() > 0 {
        lemma_sort_len(s.drop_last(), key);
        lemma_insert_len(sort_by_key(s.drop_last(), key), s.last(), key);
    }
}

proof fn lemma_insert_map<A, B>(s: Seq<A>, x: A, f: spec_fn(A) -> B, ka: spec_fn(A) -> Seq<char>, kb: spec_fn(B) -> Seq<char>)
    requires
        forall|a: A| #[trigger] ka(a) == kb(f(a)),
    ensures
        insert_by_key(s, x, ka).map_values(f) == insert_by_key(s.map_values(f), f(x), kb),
    decreases s.len(),
{
    let m = s.map_values(f);
    if s.len() == 0 {
        assert(seq![x].map_values(f) =~= seq![f(x)]);
    } else {
        assert(m.last() == f(s.last()));
        assert(ka(s.last()) == kb(f(s.last())));
        assert(ka(x) == kb(f(x)));
        if text_le(ka(s.last()), ka(x)) {
            assert(s.push(x).map_values(f) =~= m.push(f(x)));
        } else {
            lemma_insert_map(s.drop_last(), x, f, ka, kb);
            assert(s.drop_last().map_values(f) =~= m.drop_last());
            let i = insert_by_key(s.drop_last(), x, ka);
            assert(i.push(s.last()).map_values(f) =~= i.map_values(f).push(f(s.last())));
        }
    }
}

/// Sorting by a key and then mapping is mapping and then sorting by the
/// same key read through the map.
pub proof fn lemma_sort_map<A, B>(s: Seq<A>, f: spec_fn(A) -> B, ka: spec_fn(A) -> Seq<char>, kb: spec_fn(B) -> Seq<char>)
    requires
        forall|a: A| #[trigger] ka(a) == kb(f(a)),
    ensures
        sort_by_key(s, ka).map_values(f) == sort_by_key(s.map_values(f), kb),
    decreases s.len(),
{
    if s.len() > 0 {
        lemma_sort_map(s.drop_last(), f, ka, kb);
        assert(s.drop_last().map_values(f) =~= s.map_values(f).drop_last());
        assert(s.map_values(f).last() == f(s.last()));
        lemma_insert_map(sort_by_key(s.drop_last(), ka), s.last(), f, ka, kb);
    } else {
        assert(s.map_values(f) =~= Seq::<B>::empty());
    }
}

/// How strings sort: by themselves, or by their ASCII lowercase.
pub open spec fn text_key(fold_case: bool) -> spec_fn(Seq<char>) -> Seq<char> {
    |t: Seq<char>| sort_key(t, fold_case)
}

/// The stable sort of strings by code point, after ASCII lowercasing when
/// `fold_case` is set.
pub open spec fn stable_sort(s: Seq<Seq<char>>, fold_case: bool) -> Seq<Seq<char>> {
    sort_by_key(s, text_key(fold_case))
}

/// Inserting at the first position after the last element that sorts no
/// later is what `insert_by_key` does.
pub proof fn lemma_insert_at<A>(s: Seq<A>, x: A, key: spec_fn(A) -> Seq<char>, j: int)
    requires
        0 <= j <= s.len(),
        forall|k: int| j <= k < s.len() ==> !text_le(key(#[trigger] s[k]), key(x)),
        j > 0 ==> text_le(key(s[j - 1]), key(x)),
    ensures
        insert_by_key(s, x, key) == s.take(j) + seq![x] + s.skip(j),
    decreases s.len(),
{
    if s.len() == 0 {
        assert(s.take(j) + seq![x] + s.skip(j) =~= seq![x]);
    } else if text_le(key(s.last()), key(x)) {
        assert(j == s.len()) by {
            if j < s.len() {
                assert(s[s.len() - 1] == s.last());
            }
        }
        assert(s.take(j) + seq![x] + s.skip(j) =~= s.push(x));
    } else {
        assert(j < s.len());
        let d = s.drop_last();
        assert forall|k: int| j <= k < d.len() implies !text_le(key(#[trigger] d[k]), key(x)) by {
            assert(d[k] == s[k]);
        }
        if j > 0 {
            assert(d[j - 1] == s[j - 1]);
        }
        lemma_insert_at(d, x, key, j);
        assert(d.take(j) + seq![x] + d.skip(j) + seq![s.last()] =~= s.take(j) + seq![x] + s.skip(j));
    }
}

/// The key of a string as characters.
fn key_chars(t: &String, fold_case: bool) -> (r: Vec<char>)
    ensures
        r@ == sort_key(t@, fold_case),
{
    let cs = to_chars(t.as_str());
    if fold_case {
        lower_chars(cs.as_slice())
    } else {
        cs
    }
}

/// The strings of `v`, stably sorted by code point, after ASCII lowercasing
/// when `fold_case` is set.
pub fn sort_texts(v: &Vec<String>, fold_case: bool) -> (r: Vec<String>)
    ensures
        views(r@) == stable_sort(views(v@), fold_case),
{
    let mut sorted: Vec<String> = Vec::new();
    let mut i: usize = 0;
    while i < v.len()
        invariant
            i <= v@.len(),
            views(sorted@) == stable_sort(views(v@).take(i as int), fold_case),
        decreases v@.len() - i,
    {
        let x = v[i].clone();
        let xk = key_chars(&x, fold_case);
        let mut j: usize = sorted.len();
        while j > 0 && !chars_le(key_chars(&sorted[j - 1], fold_case).as_slice(), xk.as_slice())
            invariant
                j <= sorted@.len(),
                xk@ == sort_key(x@, fold_case),
                forall|k: int| j <= k < sorted@.len() ==> !text_le(sort_key((#[trigger] sorted@[k])@, fold_case), sort_key(x@, fold_case)),
            decreases j,
        {
            j -= 1;
        }
        proof {
            let key = text_key(fold_case);
            assert forall|k: int| j <= k < views(sorted@).len() implies !text_le(key(#[trigger] views(sorted@)[k]), key(x@)) by {
                assert(views(sorted@)[k] == sorted@[k]@);
            }
            if j > 0 {
                assert(views(sorted@)[j - 1] == sorted@[j - 1]@);
            }
            lemma_insert_at(views(sorted@), x@, key, j as int);
            assert(views(v@).take(i + 1).drop_last() =~= views(v@).take(i as int));
            assert(views(v@).take(i + 1).last() == x@);
        }
        let mut next: Vec<String> = Vec::new();
        let mut k: usize = 0;
        while k < j
            invariant
                j <= sorted@.len(),
                k <= j,
                next@ =~= sorted@.take(k as int),
            decreases j - k,
        {
            next.push(sorted[k].clone());
            k += 1;
        }
        next.push(x);
        let mut m: usize = j;
        while m < sorted.len()
            invariant
                j <= m <= sorted@.len(),
                next@ =~= sorted@.take(j as int) + seq![x] + sorted@.subrange(j as int, m as int),
            decreases sorted@.len() - m,
        {
            next.push(sorted[m].clone());
            m += 1;
        }
        assert(views(next@) =~= views(sorted@).take(j as int) + seq![x@] + views(sorted@).skip(j as int));
        sorted = next;
        i += 1;
    }
    assert(views(v@).take(v@.len() as int) =~= views(v@));
    sorted
}

/// `s` with each run of case-insensitively equal strings kept once, first
/// occurrence first (`Vec::dedup_by` with `eq_ignore_ascii_case`).
pub open spec fn dedup_ignore_case(s: Seq<Seq<char>>) -> Seq<Seq<char>>
    decreases s.len(),
{
    if s.len() == 0 {
        s
    } else {
        let d = dedup_ignore_case(s.drop_last());
        if d.len() > 0 && eq_ignore_case(d.last(), s.last()) {
            d
        } else {
            d.push(s.last())
        }
    }
}

/// Drops every string that equals, ignoring ASCII case, the string kept
/// just before it.
pub fn dedup_texts_ignore_case(v: &Vec<String>) -> (r: Vec<String>)
    ensures
        views(r@) == dedup_ignore_case(views(v@)),
{
    let mut r: Vec<String> = Vec::new();
    let mut i: usize = 0;
    while i < v.len()
        invariant
            i <= v@.len(),
            views(r@) == dedup_ignore_case(views(v@).take(i as int)),
        decreases v@.len() - i,
    {
        proof {
            assert(views(v@).take(i + 1).drop_last() =~= views(v@).take(i as int));
            assert(views(v@).take(i + 1).last() == v@[i as int]@);
            if r@.len() > 0 {
                assert(views(r@).last() == r@[r@.len() - 1]@);
            }
        }
        let dup = r.len() > 0 && chars_eq_ignore_case(
            to_chars(r[r.len() - 1].as_str()).as_slice(),
            to_chars(v[i].as_str()).as_slice(),
        );
        let ghost before = r@;
        if !dup {
            r.push(v[i].clone());
            assert(views(r@) =~= views(before).push(v@[i as int]@));
        }
        i += 1;
    }
    assert(views(v@).take(v@.len() as int) =~= views(v@));
    r
}

} // verus!
