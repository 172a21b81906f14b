//! Character-level helpers shared by the path and identity rules.

use vstd::prelude::*;

verus! {

/// Appends one character to a string (`String::push`).
#[verifier::external_body]
fn push_char(s: &mut String, c: char)
    ensures
        final(s)@ == old(s)@.push(c),
{
    s.push(c);
}

/// The characters of a string slice, in order.
pub fn to_chars(s: &str) -> (out: Vec<char>)
    ensures
        out@ == s@,
{
    let mut out: Vec<char> = Vec::new();
    for c in it: s.chars()
        invariant
            out@ == it.seq().take(it.index() as int),
            it.seq() == s@,
    {
        out.push(c);
    }
    out
}

/// A string made of the given characters.
pub fn from_chars(cs: &[char]) -> (out: String)
    ensures
        out@ == cs@,
{
    let mut out = String::new();
    let mut i: usize = 0;
    while i < cs.len()
        invariant
            i <= cs@.len(),
            out@ == cs@.take(i as int),
        decreases cs@.len() - i,
    {
        push_char(&mut out, cs[i]);
        assert(cs@.take(i as int).push(cs@[i as int]) =~= cs@.take(i + 1));
        i += 1;
    }
    assert(cs@.take(cs@.len() as int) =~= cs@);
    out
}


/// ASCII lowercase of one character; other characters are unchanged.
pub open spec fn ascii_lower(c: char) -> char {
    if 'A' <= c && c <= 'Z' {
        ((c as u32) + 32) as char
    } else {
        c
    }
}

/// ASCII lowercase of a character sequence.
pub open spec fn lower(s: Seq<char>) -> Seq<char> {
    Seq::new(s.len(), |i: int| ascii_lower(s[i]))
}

pub fn lower_char(c: char) -> (r: char)
    ensures
        r == ascii_lower(c),
{
    if 'A' <= c && c <= 'Z' {
        ((c as u8) + 32) as char
    } else {
        c
    }
}

/// ASCII lowercase of every character.
pub fn lower_chars(s: &[char]) -> (r: Vec<char>)
    ensures
        r@ == lower(s@),
{
    let mut r: Vec<char> = Vec::new();
    let mut i: usize = 0;
    while i < s.len()
        invariant
            i <= s@.len(),
            r@ =~= lower(s@).take(i as int),
        decreases s@.len() - i,
    {
        r.push(lower_char(s[i]));
        i += 1;
    }
    r
}

/// Whether two sequences are equal up to ASCII case.
pub open spec fn eq_ignore_case(a: Seq<char>, b: Seq<char>) -> bool {
    lower(a) == lower(b)
}

pub fn chars_eq(a: &[char], b: &[char]) -> (r: bool)
    ensures
        r == (a@ == b@),
{
    if a.len() != b.len() {
        return false;
    }
    let mut i: usize = 0;
    while i < a.len()
        invariant
            a@.len() == b@.len(),
            i <= a@.len(),
            forall|j: int| 0 <= j < i ==> a@[j] == b@[j],
        decreases a@.len() - i,
    {
        if a[i] != b[i] {
            return false;
        }
        i += 1;
    }
    assert(a@ =~= b@);
    true
}

pub fn chars_eq_ignore_case(a: &[char], b: &[char]) -> (r: bool)
    ensures
        r == eq_ignore_case(a@, b@),
{
    let la = lower_chars(a);
    let lb = lower_chars(b);
    chars_eq(la.as_slice(), lb.as_slice())
}

/// Whether `s` begins with `prefix`.
pub open spec fn has_prefix(s: Seq<char>, prefix: Seq<char>) -> bool {
    prefix.len() <= s.len() && s.subrange(0, prefix.len() as int) == prefix
}

pub fn starts_with(s: &[char], prefix: &[char]) -> (r: bool)
    ensures
        r == has_prefix(s@, prefix@),
{
    if prefix.len() > s.len() {
        return false;
    }
    let mut i: usize = 0;
    while i < prefix.len()
        invariant
            prefix@.len() <= s@.len(),
            i <= prefix@.len(),
            forall|j: int| 0 <= j < i ==> s@[j] == prefix@[j],
        decreases prefix@.len() - i,
    {
        if s[i] != prefix[i] {
            assert(s@.subrange(0, prefix@.len() as int)[i as int] != prefix@[i as int]);
            return false;
        }
        i += 1;
    }
    assert(s@.subrange(0, prefix@.len() as int) =~= prefix@);
    true
}

/// `s` with every `from` replaced by `to`.
pub open spec fn replace_char(s: Seq<char>, from: char, to: char) -> Seq<char> {
    Seq::new(s.len(), |i: int| if s[i] == from { to } else { s[i] })
}

pub fn replace_chars(s: &[char], from: char, to: char) -> (r: Vec<char>)
    ensures
        r@ == replace_char(s@, from, to),
{
    let mut r: Vec<char> = Vec::new();
    let mut i: usize = 0;
    while i < s.len()
        invariant
            i <= s@.len(),
            r@ =~= replace_char(s@, from, to).take(i as int),
        decreases s@.len() - i,
    {
        if s[i] == from {
            r.push(to);
        } else {
            r.push(s[i]);
        }
        i += 1;
    }
    r
}

/// `s` without every trailing `c`.
pub open spec fn trim_end(s: Seq<char>, c: char) -> Seq<char>
    decreases s.len(),
{
    if s.len() > 0 && s.last() == c {
        trim_end(s.drop_last(), c)
    } else {
        s
    }
}

pub fn trim_end_chars(s: &[char], c: char) -> (r: Vec<char>)
    ensures
        r@ == trim_end(s@, c),
{
    let mut n: usize = s.len();
    assert(s@.take(n as int) =~= s@);
    while n > 0 && s[n - 1] == c
        invariant
            n <= s@.len(),
            trim_end(s@.take(n as int), c) == trim_end(s@, c),
        decreases n,
    {
        assert(s@.take(n as int).drop_last() =~= s@.take(n - 1));
        n -= 1;
    }
    let mut r: Vec<char> = Vec::new();
    let mut i: usize = 0;
    while i < n
        invariant
            n <= s@.len(),
            i <= n,
            r@ =~= s@.take(i as int),
        decreases n - i,
    {
        r.push(s[i]);
        i += 1;
    }
    r
}

/// The part of `s` from index `start` on.
pub fn tail_from(s: &[char], start: usize) -> (r: Vec<char>)
    requires
        start <= s@.len(),
    ensures
        r@ == s@.subrange(start as int, s@.len() as int),
{
    let mut r: Vec<char> = Vec::new();
    let mut i: usize = start;
    while i < s.len()
        invariant
            start <= i <= s@.len(),
            r@ =~= s@.subrange(start as int, i as int),
        decreases s@.len() - i,
    {
        r.push(s[i]);
        i += 1;
    }
    r
}

/// Concatenation of two character sequences.
pub fn concat_chars(a: &[char], b: &[char]) -> (r: Vec<char>)
    ensures
        r@ == a@ + b@,
{
    let mut r: Vec<char> = Vec::new();
    let mut i: usize = 0;
    while i < a.len()
        invariant
            i <= a@.len(),
            r@ =~= a@.take(i as int),
        decreases a@.len() - i,
    {
        r.push(a[i]);
        i += 1;
    }
    let mut j: usize = 0;
    while j < b.len()
        invariant
            j <= b@.len(),
            r@ =~= a@ + b@.take(j as int),
        decreases b@.len() - j,
    {
        r.push(b[j]);
        j += 1;
    }
    assert(b@.take(b@.len() as int) =~= b@);
    r
}

/// A string followed by another.
pub fn concat_str(a: &str, b: &str) -> (r: String)
    ensures
        r@ == a@ + b@,
{
    let ca = to_chars(a);
    let cb = to_chars(b);
    let joined = concat_chars(ca.as_slice(), cb.as_slice());
    from_chars(joined.as_slice())
}

/// Unicode `White_Space`, the characters `str::trim` removes.
pub open spec fn is_white(c: char) -> bool {
    let n = c as u32;
    ||| (0x9 <= n && n <= 0xD)
    ||| n == 0x20
    ||| n == 0x85
    ||| n == 0xA0
    ||| n == 0x1680
    ||| (0x2000 <= n && n <= 0x200A)
    ||| n == 0x2028
    ||| n == 0x2029
    ||| n == 0x202F
    ||| n == 0x205F
    ||| n == 0x3000
}

pub fn white_char(c: char) -> (r: bool)
    ensures
        r == is_white(c),
{
    let n = c as u32;
    (0x9 <= n && n <= 0xD) || n == 0x20 || n == 0x85 || n == 0xA0 || n == 0x1680 || (0x2000 <= n
        && n <= 0x200A) || n == 0x2028 || n == 0x2029 || n == 0x202F || n == 0x205F || n == 0x3000
}

/// The index of the first character of `s` that is not white space.
pub open spec fn trim_start_index(s: Seq<char>) -> int
    decreases s.len(),
{
    if s.len() > 0 && is_white(s[0]) {
        1 + trim_start_index(s.drop_first())
    } else {
        0
    }
}

/// The length of `s` without its trailing white space.
pub open spec fn trim_end_index(s: Seq<char>) -> int
    decreases s.len(),
{
    if s.len() > 0 && is_white(s.last()) {
        trim_end_index(s.drop_last())
    } else {
        s.len() as int
    }
}

proof fn lemma_trim_start_bounds(s: Seq<char>)
    ensures
        0 <= trim_start_index(s) <= s.len(),
        forall|k: int| 0 <= k < trim_start_index(s) ==> is_white(#[trigger] s[k]),
        trim_start_index(s) < s.len() ==> !is_white(s[trim_start_index(s)]),
    decreases s.len(),
{
    if s.len() > 0 && is_white(s[0]) {
        lemma_trim_start_bounds(s.drop_first());
        assert forall|k: int| 0 <= k < trim_start_index(s) implies is_white(#[trigger] s[k]) by {
            if k > 0 {
                assert(s[k] == s.drop_first()[k - 1]);
            }
        }
        if trim_start_index(s) < s.len() {
            assert(s[trim_start_index(s)] == s.drop_first()[trim_start_index(s.drop_first())]);
        }
    }
}

proof fn lemma_trim_end_bounds(s: Seq<char>)
    ensures
        0 <= trim_end_index(s) <= s.len(),
        forall|k: int| trim_end_index(s) <= k < s.len() ==> is_white(#[trigger] s[k]),
        trim_end_index(s) > 0 ==> !is_white(s[trim_end_index(s) - 1]),
    decreases s.len(),
{
    if s.len() > 0 && is_white(s.last()) {
        lemma_trim_end_bounds(s.drop_last());
        assert forall|k: int| trim_end_index(s) <= k < s.len() implies is_white(#[trigger] s[k]) by {
            if k < s.len() - 1 {
                assert(s[k] == s.drop_last()[k]);
            }
        }
        if trim_end_index(s) > 0 {
            assert(s[trim_end_index(s) - 1] == s.drop_last()[trim_end_index(s) - 1]);
        }
    }
}

/// `s` without leading and trailing white space (`str::trim`).
pub open spec fn trim(s: Seq<char>) -> Seq<char> {
    let a = trim_start_index(s);
    let b = trim_end_index(s);
    if a < b {
        s.subrange(a, b)
    } else {
        Seq::<char>::empty()
    }
}

/// `s` with leading and trailing white space removed.
pub fn trim_chars(s: &[char]) -> (r: Vec<char>)
    ensures
        r@ == trim(s@),
{
    proof {
        lemma_trim_start_bounds(s@);
        lemma_trim_end_bounds(s@);
    }
    let mut a: usize = 0;
    while a < s.len() && white_char(s[a])
        invariant
            a <= s@.len(),
            forall|k: int| 0 <= k < a ==> is_white(#[trigger] s@[k]),
            0 <= trim_start_index(s@) <= s@.len(),
            forall|k: int| 0 <= k < trim_start_index(s@) ==> is_white(#[trigger] s@[k]),
            trim_start_index(s@) < s@.len() ==> !is_white(s@[trim_start_index(s@)]),
            a <= trim_start_index(s@),
        decreases s@.len() - a,
    {
        a += 1;
    }
    let mut b: usize = s.len();
    while b > 0 && white_char(s[b - 1])
        invariant
            b <= s@.len(),
            forall|k: int| b <= k < s@.len() ==> is_white(#[trigger] s@[k]),
            0 <= trim_end_index(s@) <= s@.len(),
            forall|k: int| trim_end_index(s@) <= k < s@.len() ==> is_white(#[trigger] s@[k]),
            trim_end_index(s@) > 0 ==> !is_white(s@[trim_end_index(s@) - 1]),
            b >= trim_end_index(s@),
        decreases b,
    {
        b -= 1;
    }
    let mut r: Vec<char> = Vec::new();
    if a < b {
        let mut i: usize = a;
        while i < b
            invariant
                a <= i <= b <= s@.len(),
                r@ =~= s@.subrange(a as int, i as int),
            decreases b - i,
        {
            r.push(s[i]);
            i += 1;
        }
    }
    r
}

/// `s` with leading and trailing white space removed (`str::trim`).
pub fn trim_str(s: &str) -> (r: String)
    ensures
        r@ == trim(s@),
{
    let cs = to_chars(s);
    let t = trim_chars(cs.as_slice());
    from_chars(t.as_slice())
}

/// Whether `s` holds nothing but white space.
pub fn is_blank(s: &str) -> (r: bool)
    ensures
        r == (trim(s@).len() == 0),
{
    let cs = to_chars(s);
    let t = trim_chars(cs.as_slice());
    t.len() == 0
}

/// Whether two strings hold the same characters.
pub fn str_eq(a: &str, b: &str) -> (r: bool)
    ensures
        r == (a@ == b@),
{
    let ca = to_chars(a);
    let cb = to_chars(b);
    chars_eq(ca.as_slice(), cb.as_slice())
}

} // verus!
