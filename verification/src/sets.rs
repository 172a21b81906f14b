//! Finite sets of strings held as vectors without repeated elements.

use vstd::prelude::*;

verus! {

/// The character sequences of a list of strings.
pub open spec fn views(v: Seq<String>) -> Seq<Seq<char>> {
    v.map_values(|s: String| s@)
}

/// The set of character sequences a list of strings holds.
pub open spec fn text_set(v: Seq<String>) -> Set<Seq<char>> {
    views(v).to_set()
}

/// A list whose strings are pairwise different.
pub open spec fn distinct(v: Seq<String>) -> bool {
    views(v).no_duplicates()
}

pub proof fn lemma_views_push(v: Seq<String>, s: String)
    ensures
        views(v.push(s)) == views(v).push(s@),
{
    assert(views(v.push(s)) =~= views(v).push(s@));
}

proof fn lemma_push_to_set(s: Seq<Seq<char>>, x: Seq<char>)
    ensures
        s.push(x).to_set() == s.to_set().insert(x),
{
    s.lemma_push_to_set_commute(x);
}

pub proof fn lemma_push_distinct(s: Seq<Seq<char>>, x: Seq<char>)
    requires
        s.no_duplicates(),
        !s.contains(x),
    ensures
        s.push(x).no_duplicates(),
        s.push(x).to_set() == s.to_set().insert(x),
{
    lemma_push_to_set(s, x);
    let t = s.push(x);
    assert forall|i: int, j: int| 0 <= i < t.len() && 0 <= j < t.len() && i != j implies t[i] != t[j] by {
        if i < s.len() && j < s.len() {
            assert(t[i] == s[i] && t[j] == s[j]);
        } else if i < s.len() {
            assert(t[i] == s[i]);
        } else {
            assert(t[j] == s[j]);
        }
    }
}

/// Whether `v` holds a string equal to `s`.
pub fn contains_text(v: &Vec<String>, s: &String) -> (r: bool)
    ensures
        r == views(v@).contains(s@),
{
    let mut i: usize = 0;
    while i < v.len()
        invariant
            i <= v@.len(),
            forall|k: int| 0 <= k < i ==> v@[k]@ != s@,
        decreases v@.len() - i,
    {
        if v[i] == *s {
            assert(views(v@)[i as int] == s@);
            return true;
        }
        i += 1;
    }
    assert forall|k: int| 0 <= k < views(v@).len() implies views(v@)[k] != s@ by {
        assert(views(v@)[k] == v@[k]@);
    }
    false
}

/// Adds `s` to `v` unless an equal string is already there.
pub fn insert_distinct(v: &mut Vec<String>, s: String)
    requires
        distinct(old(v)@),
    ensures
        distinct(final(v)@),
        text_set(final(v)@) == text_set(old(v)@).insert(s@),
        views(old(v)@).contains(s@) ==> final(v)@ == old(v)@,
        !views(old(v)@).contains(s@) ==> final(v)@ == old(v)@.push(s),
{
    if !contains_text(v, &s) {
        let ghost before = v@;
        v.push(s);
        proof {
            lemma_views_push(before, s);
            lemma_push_distinct(views(before), s@);
        }
    } else {
        assert(views(v@).to_set() =~= views(v@).to_set().insert(s@));
    }
}

/// The set of strings of `items`, without repetitions, in first-seen order.
pub fn distinct_texts(items: &Vec<String>) -> (r: Vec<String>)
    ensures
        distinct(r@),
        text_set(r@) == text_set(items@),
{
    let mut r: Vec<String> = Vec::new();
    let mut i: usize = 0;
    while i < items.len()
        invariant
            i <= items@.len(),
            distinct(r@),
            text_set(r@) == views(items@).take(i as int).to_set(),
        decreases items@.len() - i,
    {
        proof {
            assert(views(items@).take(i + 1) =~= views(items@).take(i as int).push(items@[i as int]@));
            lemma_push_to_set(views(items@).take(i as int), items@[i as int]@);
        }
        insert_distinct(&mut r, items[i].clone());
        i += 1;
    }
    assert(views(items@).take(items@.len() as int) =~= views(items@));
    r
}

/// The number of strings shared by two string sets.
pub fn count_shared(a: &Vec<String>, b: &Vec<String>) -> (r: usize)
    requires
        distinct(a@),
    ensures
        r == text_set(a@).intersect(text_set(b@)).len(),
{
    let mut shared: Vec<String> = Vec::new();
    let mut i: usize = 0;
    while i < a.len()
        invariant
            i <= a@.len(),
            distinct(a@),
            distinct(shared@),
            text_set(shared@) == views(a@).take(i as int).to_set().intersect(text_set(b@)),
            forall|x: Seq<char>| views(shared@).contains(x) ==> views(a@).take(i as int).contains(x),
        decreases a@.len() - i,
    {
        let ghost before = shared@;
        proof {
            assert(views(a@).take(i + 1) =~= views(a@).take(i as int).push(a@[i as int]@));
        }
        if contains_text(b, &a[i]) {
            proof {
                assert(!views(a@).take(i as int).contains(a@[i as int]@)) by {
                    if views(a@).take(i as int).contains(a@[i as int]@) {
                        let k = choose|k: int| 0 <= k < i && views(a@).take(i as int)[k] == a@[i as int]@;
                        assert(views(a@)[k] == views(a@)[i as int]);
                    }
                }
            }
            proof {
                assert(!views(before).contains(a@[i as int]@));
            }
            shared.push(a[i].clone());
            proof {
                lemma_views_push(before, a@[i as int]);
                lemma_push_distinct(views(before), a@[i as int]@);
            }
        }
        proof {
            lemma_push_to_set(views(a@).take(i as int), a@[i as int]@);
            assert(text_set(shared@) =~= views(a@).take(i + 1).to_set().intersect(text_set(b@)));
            assert forall|x: Seq<char>| views(shared@).contains(x) implies views(a@).take(i + 1).contains(x) by {
                assert(text_set(shared@).contains(x));
            }
        }
        i += 1;
    }
    proof {
        assert(views(a@).take(a@.len() as int) =~= views(a@));
        views(shared@).unique_seq_to_set();
    }
    shared.len()
}

/// Whether two string sets, each without repetitions, hold the same strings.
pub fn same_texts(a: &Vec<String>, b: &Vec<String>) -> (r: bool)
    requires
        distinct(a@),
        distinct(b@),
    ensures
        r == (text_set(a@) == text_set(b@)),
{
    proof {
        views(a@).unique_seq_to_set();
        views(b@).unique_seq_to_set();
    }
    if a.len() != b.len() {
        return false;
    }
    let mut i: usize = 0;
    while i < a.len()
        invariant
            i <= a@.len(),
            forall|k: int| 0 <= k < i ==> text_set(b@).contains(#[trigger] views(a@)[k]),
        decreases a@.len() - i,
    {
        if !contains_text(b, &a[i]) {
            assert(text_set(a@).contains(views(a@)[i as int]));
            return false;
        }
        i += 1;
    }
    proof {
        assert(text_set(a@).subset_of(text_set(b@))) by {
            assert forall|x: Seq<char>| text_set(a@).contains(x) implies text_set(b@).contains(x) by {
                let k = choose|k: int| 0 <= k < views(a@).len() && views(a@)[k] == x;
            }
        }
        vstd::set_lib::lemma_subset_equality(text_set(a@), text_set(b@));
    }
    true
}

} // verus!
