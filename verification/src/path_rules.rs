//! The path rules of the mods library. Paths are Windows paths: `/` and `\`
//! both separate components, a leading separator roots a path, and a
//! letter followed by `:` at the start is a drive prefix. Folder identity ignores ASCII case and a
//! leading `DISABLED ` marker, which is how a mod is switched off on disk.

use vstd::prelude::*;

use crate::text::{ascii_lower, from_chars, has_prefix, lower, lower_chars, starts_with, tail_from, to_chars};

verus! {

pub open spec fn is_sep(c: char) -> bool {
    c == '/' || c == '\\'
}

/// The pieces of `s` between separators, empty pieces included.
pub open spec fn split_segments(s: Seq<char>) -> Seq<Seq<char>>
    decreases s.len(),
{
    if s.len() == 0 {
        seq![Seq::<char>::empty()]
    } else {
        let rest = split_segments(s.drop_last());
        if is_sep(s.last()) {
            rest.push(Seq::<char>::empty())
        } else {
            rest.update(rest.len() - 1, rest.last().push(s.last()))
        }
    }
}

pub proof fn lemma_split_segments_nonempty(s: Seq<char>)
    ensures
        split_segments(s).len() >= 1,
    decreases s.len(),
{
    if s.len() > 0 {
        lemma_split_segments_nonempty(s.drop_last());
    }
}

/// `segs` without its empty pieces.
pub open spec fn drop_empty(segs: Seq<Seq<char>>) -> Seq<Seq<char>>
    decreases segs.len(),
{
    if segs.len() == 0 {
        segs
    } else if segs.last().len() == 0 {
        drop_empty(segs.drop_last())
    } else {
        drop_empty(segs.drop_last()).push(segs.last())
    }
}

/// The non-empty components of a path.
pub open spec fn components(s: Seq<char>) -> Seq<Seq<char>> {
    drop_empty(split_segments(s))
}

/// Whether a path starts at a root separator.
pub open spec fn rooted(s: Seq<char>) -> bool {
    s.len() > 0 && is_sep(s[0])
}

pub fn is_separator(c: char) -> (r: bool)
    ensures
        r == is_sep(c),
{
    c == '/' || c == '\\'
}

/// The pieces of a path between separators.
pub fn split_path(s: &[char]) -> (r: Vec<Vec<char>>)
    ensures
        r@.len() == split_segments(s@).len(),
        forall|i: int| 0 <= i < r@.len() ==> #[trigger] r@[i]@ == split_segments(s@)[i],
{
    let mut done: Vec<Vec<char>> = Vec::new();
    let mut current: Vec<char> = Vec::new();
    let mut i: usize = 0;
    while i < s.len()
        invariant
            i <= s@.len(),
            split_segments(s@.take(i as int)).len() == done@.len() + 1,
            forall|k: int| 0 <= k < done@.len() ==> #[trigger] done@[k]@ == split_segments(s@.take(i as int))[k],
            current@ == split_segments(s@.take(i as int)).last(),
        decreases s@.len() - i,
    {
        let c = s[i];
        proof {
            assert(s@.take(i + 1).drop_last() =~= s@.take(i as int));
            assert(s@.take(i + 1).last() == c);
            lemma_split_segments_nonempty(s@.take(i as int));
        }
        if is_separator(c) {
            done.push(current);
            current = Vec::new();
        } else {
            current.push(c);
        }
        i += 1;
    }
    done.push(current);
    assert(s@.take(s@.len() as int) =~= s@);
    done
}

/// The non-empty components of a path.
pub fn path_components(s: &[char]) -> (r: Vec<Vec<char>>)
    ensures
        r@.len() == components(s@).len(),
        forall|i: int| 0 <= i < r@.len() ==> #[trigger] r@[i]@ == components(s@)[i],
{
    let segs = split_path(s);
    let ghost spec_segs = split_segments(s@);
    let mut r: Vec<Vec<char>> = Vec::new();
    let mut i: usize = 0;
    while i < segs.len()
        invariant
            segs@.len() == spec_segs.len(),
            forall|k: int| 0 <= k < segs@.len() ==> #[trigger] segs@[k]@ == spec_segs[k],
            i <= segs@.len(),
            r@.len() == drop_empty(spec_segs.take(i as int)).len(),
            forall|k: int| 0 <= k < r@.len() ==> #[trigger] r@[k]@ == drop_empty(spec_segs.take(i as int))[k],
        decreases segs@.len() - i,
    {
        assert(spec_segs.take(i + 1).drop_last() =~= spec_segs.take(i as int));
        assert(spec_segs.take(i + 1).last() == spec_segs[i as int]);
        if segs[i].len() > 0 {
            let seg = copy_chars(segs[i].as_slice());
            r.push(seg);
        }
        i += 1;
    }
    assert(spec_segs.take(segs@.len() as int) =~= spec_segs);
    r
}

pub fn copy_chars(s: &[char]) -> (r: Vec<char>)
    ensures
        r@ == s@,
{
    let mut r: Vec<char> = Vec::new();
    let mut i: usize = 0;
    while i < s.len()
        invariant
            i <= s@.len(),
            r@ =~= s@.take(i as int),
        decreases s@.len() - i,
    {
        r.push(s[i]);
        i += 1;
    }
    assert(s@.take(s@.len() as int) =~= s@);
    r
}


/// Whether a path starts with a drive prefix: an ASCII letter and `:`.
pub open spec fn drive_prefixed(s: Seq<char>) -> bool {
    s.len() >= 2 && (('a' <= s[0] && s[0] <= 'z') || ('A' <= s[0] && s[0] <= 'Z')) && s[1] == ':'
}

/// A relative folder path that stays inside the folder it is joined to:
/// not rooted, without a drive prefix, not starting at `.`, and without any
/// `..` component. A `.` component after the first one stands for nothing.
pub open spec fn contained_relative(s: Seq<char>) -> bool {
    &&& !rooted(s)
    &&& !drive_prefixed(s)
    &&& split_segments(s)[0] != "."@
    &&& forall|k: int| 0 <= k < split_segments(s).len() ==> #[trigger] split_segments(s)[k] != ".."@
}

/// `relative` joined under `root`, with a `\` between them unless `root`
/// already ends in a separator.
pub open spec fn joined(root: Seq<char>, relative: Seq<char>) -> Seq<char> {
    if root.len() > 0 && is_sep(root.last()) {
        root + relative
    } else {
        root + seq!['\\'] + relative
    }
}

pub fn is_contained_relative(s: &[char]) -> (r: bool)
    ensures
        r == contained_relative(s@),
{
    if s.len() > 0 && is_separator(s[0]) {
        return false;
    }
    if s.len() >= 2 && (('a' <= s[0] && s[0] <= 'z') || ('A' <= s[0] && s[0] <= 'Z')) && s[1] == ':' {
        return false;
    }
    let segs = split_path(s);
    proof {
        lemma_split_segments_nonempty(s@);
    }
    let dot = to_chars(".");
    let dotdot = to_chars("..");
    proof {
        reveal_strlit(".");
        reveal_strlit("..");
    }
    if crate::text::chars_eq(segs[0].as_slice(), dot.as_slice()) {
        assert(segs@[0]@ == split_segments(s@)[0]);
        return false;
    }
    assert(segs@[0]@ == split_segments(s@)[0]);
    let mut k: usize = 0;
    while k < segs.len()
        invariant
            segs@.len() == split_segments(s@).len(),
            forall|m: int| 0 <= m < segs@.len() ==> #[trigger] segs@[m]@ == split_segments(s@)[m],
            dotdot@ == ".."@,
            k <= segs@.len(),
            forall|m: int| 0 <= m < k ==> #[trigger] split_segments(s@)[m] != ".."@,
        decreases segs@.len() - k,
    {
        if crate::text::chars_eq(segs[k].as_slice(), dotdot.as_slice()) {
            assert(segs@[k as int]@ == split_segments(s@)[k as int]);
            return false;
        }
        k += 1;
    }
    true
}

pub fn join_path(root: &[char], relative: &[char]) -> (r: Vec<char>)
    ensures
        r@ == joined(root@, relative@),
{
    let mut r = copy_chars(root);
    if !(root.len() > 0 && is_separator(root[root.len() - 1])) {
        r.push('\\');
    }
    let mut i: usize = 0;
    let ghost base = r@;
    while i < relative.len()
        invariant
            i <= relative@.len(),
            r@ =~= base + relative@.take(i as int),
        decreases relative@.len() - i,
    {
        r.push(relative[i]);
        i += 1;
    }
    assert(relative@.take(relative@.len() as int) =~= relative@);
    r
}

/// Whether `base` is a whole-component prefix of `path`.
pub open spec fn component_prefix(path: Seq<char>, base: Seq<char>) -> bool {
    &&& rooted(path) == rooted(base)
    &&& components(base).len() <= components(path).len()
    &&& forall|i: int| 0 <= i < components(base).len() ==> #[trigger] components(base)[i] == components(path)[i]
}

pub fn has_component_prefix(path: &[char], base: &[char]) -> (r: bool)
    ensures
        r == component_prefix(path@, base@),
{
    let path_rooted = path.len() > 0 && is_separator(path[0]);
    let base_rooted = base.len() > 0 && is_separator(base[0]);
    if path_rooted != base_rooted {
        return false;
    }
    let pc = path_components(path);
    let bc = path_components(base);
    if bc.len() > pc.len() {
        return false;
    }
    let mut i: usize = 0;
    while i < bc.len()
        invariant
            bc@.len() <= pc@.len(),
            bc@.len() == components(base@).len(),
            pc@.len() == components(path@).len(),
            forall|k: int| 0 <= k < bc@.len() ==> #[trigger] bc@[k]@ == components(base@)[k],
            forall|k: int| 0 <= k < pc@.len() ==> #[trigger] pc@[k]@ == components(path@)[k],
            i <= bc@.len(),
            forall|k: int| 0 <= k < i ==> #[trigger] components(base@)[k] == components(path@)[k],
        decreases bc@.len() - i,
    {
        if !crate::text::chars_eq(bc[i].as_slice(), pc[i].as_slice()) {
            assert(bc@[i as int]@ == components(base@)[i as int]);
            assert(pc@[i as int]@ == components(path@)[i as int]);
            return false;
        }
        i += 1;
    }
    true
}

/// `s` without leading spaces.
pub open spec fn trim_start_spaces(s: Seq<char>) -> Seq<char>
    decreases s.len(),
{
    if s.len() > 0 && s[0] == ' ' {
        trim_start_spaces(s.drop_first())
    } else {
        s
    }
}

/// `s` without leading or trailing spaces.
pub open spec fn trim_spaces(s: Seq<char>) -> Seq<char> {
    crate::text::trim_end(trim_start_spaces(s), ' ')
}

pub fn trim_space_chars(s: &[char]) -> (r: Vec<char>)
    ensures
        r@ == trim_spaces(s@),
{
    let mut start: usize = 0;
    assert(s@.subrange(0, s@.len() as int) =~= s@);
    while start < s.len() && s[start] == ' '
        invariant
            start <= s@.len(),
            trim_start_spaces(s@.subrange(start as int, s@.len() as int)) == trim_start_spaces(s@),
        decreases s@.len() - start,
    {
        assert(s@.subrange(start as int, s@.len() as int).drop_first() =~= s@.subrange(start + 1, s@.len() as int));
        start += 1;
    }
    let rest = tail_from(s, start);
    crate::text::trim_end_chars(rest.as_slice(), ' ')
}

/// Whether a folder name carries the `DISABLED ` marker.
pub open spec fn disabled_folder(name: Seq<char>) -> bool {
    has_prefix(lower(trim_spaces(name)), "disabled "@)
}

/// The display name of a folder: trimmed, without the `DISABLED ` marker.
pub open spec fn display_name(name: Seq<char>) -> Seq<char> {
    let t = trim_spaces(name);
    if has_prefix(lower(t), "disabled "@) {
        trim_spaces(t.subrange(9, t.len() as int))
    } else {
        t
    }
}

pub fn is_disabled_folder(name: &[char]) -> (r: bool)
    ensures
        r == disabled_folder(name@),
{
    let t = trim_space_chars(name);
    let lt = lower_chars(t.as_slice());
    let marker = to_chars("disabled ");
    proof { reveal_strlit("disabled "); }
    starts_with(lt.as_slice(), marker.as_slice())
}

pub fn normalize_display_name(name: &[char]) -> (r: Vec<char>)
    ensures
        r@ == display_name(name@),
{
    let t = trim_space_chars(name);
    let lt = lower_chars(t.as_slice());
    let marker = to_chars("disabled ");
    proof { reveal_strlit("disabled "); }
    if starts_with(lt.as_slice(), marker.as_slice()) {
        let rest = tail_from(t.as_slice(), 9);
        trim_space_chars(rest.as_slice())
    } else {
        t
    }
}

/// The identity key of one path component.
pub open spec fn segment_key(seg: Seq<char>) -> Seq<char> {
    lower(display_name(seg))
}

/// `segs` joined with `/`.
pub open spec fn join_slash(segs: Seq<Seq<char>>) -> Seq<char>
    decreases segs.len(),
{
    if segs.len() == 0 {
        Seq::<char>::empty()
    } else if segs.len() == 1 {
        segs[0]
    } else {
        join_slash(segs.drop_last()) + seq!['/'] + segs.last()
    }
}

/// The identity key of a folder path: its components, each without case or
/// `DISABLED ` marker, joined with `/`.
pub open spec fn folder_key(path: Seq<char>) -> Seq<char> {
    join_slash(Seq::new(components(path).len(), |i: int| segment_key(components(path)[i])))
}

pub fn folder_path_key(path: &str) -> (r: String)
    ensures
        r@ == folder_key(path@),
{
    let chars = to_chars(path);
    let comps = path_components(chars.as_slice());
    let ghost keys = Seq::new(components(chars@).len(), |i: int| segment_key(components(chars@)[i]));
    let mut out: Vec<char> = Vec::new();
    let mut i: usize = 0;
    while i < comps.len()
        invariant
            comps@.len() == components(chars@).len(),
            forall|k: int| 0 <= k < comps@.len() ==> #[trigger] comps@[k]@ == components(chars@)[k],
            keys.len() == comps@.len(),
            forall|k: int| 0 <= k < keys.len() ==> #[trigger] keys[k] == segment_key(components(chars@)[k]),
            i <= comps@.len(),
            out@ == join_slash(keys.take(i as int)),
        decreases comps@.len() - i,
    {
        let name = normalize_display_name(comps[i].as_slice());
        let key = lower_chars(name.as_slice());
        assert(key@ == keys[i as int]);
        assert(keys.take(i + 1).drop_last() =~= keys.take(i as int));
        if i > 0 {
            out.push('/');
        }
        let mut j: usize = 0;
        let ghost base = out@;
        while j < key.len()
            invariant
                j <= key@.len(),
                out@ =~= base + key@.take(j as int),
            decreases key@.len() - j,
        {
            out.push(key[j]);
            j += 1;
        }
        assert(key@.take(key@.len() as int) =~= key@);
        proof {
            if i == 0 {
                assert(keys.take(1) =~= seq![keys[0]]);
            }
        }
        i += 1;
    }
    assert(keys.take(comps@.len() as int) =~= keys);
    from_chars(out.as_slice())
}

/// Switching a folder off on disk keeps who it is: with the `DISABLED `
/// marker in front of its name, a folder reads as disabled, shows the same
/// name and keeps the same identity key.
pub proof fn law_disabling_keeps_identity(name: Seq<char>)
    requires
        name.len() > 0,
        name[0] != ' ',
        name.last() != ' ',
        !disabled_folder(name),
    ensures
        disabled_folder("DISABLED "@ + name),
        display_name("DISABLED "@ + name) == display_name(name),
        segment_key("DISABLED "@ + name) == segment_key(name),
{
    reveal_strlit("DISABLED ");
    reveal_strlit("disabled ");
    let d = "DISABLED "@ + name;
    assert(d[0] == 'D');
    assert(trim_start_spaces(d) == d);
    assert(d.last() == name.last());
    assert(crate::text::trim_end(d, ' ') == d);
    assert(trim_start_spaces(name) == name);
    assert(crate::text::trim_end(name, ' ') == name);
    assert(trim_spaces(d) == d);
    assert(trim_spaces(name) == name);
    assert(lower(d).subrange(0, 9) =~= "disabled "@);
    assert(d.subrange(9, d.len() as int) =~= name);
}

/// Two paths whose components have the same identity keys, one for one,
/// have the same folder key.
pub proof fn law_folder_key_follows_components(a: Seq<char>, b: Seq<char>)
    requires
        components(a).len() == components(b).len(),
        forall|i: int| 0 <= i < components(a).len() ==> #[trigger] segment_key(components(a)[i]) == segment_key(components(b)[i]),
    ensures
        folder_key(a) == folder_key(b),
{
    assert(Seq::new(components(a).len(), |i: int| segment_key(components(a)[i]))
        =~= Seq::new(components(b).len(), |i: int| segment_key(components(b)[i])));
}

} // verus!
