//! Unix path text: joining, and the final component and extension, as
//! `std::path` computes them. Paths are held as strings.
use vstd::prelude::*;

use crate::text::{chars_of, owned, push_all, string_of};

verus! {

/// `base` joined with `rel`: an absolute `rel` replaces `base`, otherwise a
/// separator is inserted unless `base` is empty or already ends in one.
pub open spec fn path_join(base: Seq<char>, rel: Seq<char>) -> Seq<char> {
    if rel.len() > 0 && rel[0] == '/' {
        rel
    } else if base.len() == 0 || base.last() == '/' {
        base + rel
    } else {
        base + "/"@ + rel
    }
}

/// Join two paths.
pub fn join(base: &str, rel: &str) -> (r: String)
    ensures
        r@ == path_join(base@, rel@),
{
    let b = chars_of(base);
    let r = chars_of(rel);
    if r.len() > 0 && r[0] == '/' {
        return owned(rel);
    }
    let mut out = owned(base);
    if !(b.len() == 0 || b[b.len() - 1] == '/') {
        push_all(&mut out, "/");
    }
    push_all(&mut out, rel);
    proof {
        reveal_strlit("/");
    }
    out
}

/// The part of `s` after its last `/`.
pub open spec fn last_segment(s: Seq<char>) -> Seq<char>
    decreases s.len(),
{
    if s.len() == 0 {
        s
    } else if s.last() == '/' {
        seq![]
    } else {
        last_segment(s.drop_last()).push(s.last())
    }
}

/// The final component of a path: trailing separators and `.` components
/// are ignored, and there is none when what remains is empty, `.` or `..`.
pub open spec fn file_name_of(s: Seq<char>) -> Option<Seq<char>>
    decreases s.len(),
{
    if s.len() > 0 && s.last() == '/' {
        file_name_of(s.drop_last())
    } else if s.len() >= 2 && s.last() == '.' && s[s.len() - 2] == '/' {
        file_name_of(s.drop_last())
    } else {
        let seg = last_segment(s);
        if seg.len() == 0 || seg =~= seq!['.'] || seg =~= seq!['.', '.'] {
            None
        } else {
            Some(seg)
        }
    }
}

proof fn lemma_last_segment(s: Seq<char>, i: int)
    requires
        0 <= i <= s.len(),
        forall|j: int| i <= j < s.len() ==> s[j] != '/',
        i == 0 || s[i - 1] == '/',
    ensures
        last_segment(s) == s.subrange(i, s.len() as int),
    decreases s.len(),
{
    if s.len() > 0 && i < s.len() {
        lemma_last_segment(s.drop_last(), i);
        assert(s.drop_last().subrange(i, s.len() - 1).push(s.last()) =~= s.subrange(
            i,
            s.len() as int,
        ));
    } else if s.len() > 0 {
        assert(s.subrange(i, s.len() as int) =~= seq![]);
    }
}

/// The final component of a path, when it has one.
pub fn file_name(path: &str) -> (r: Option<String>)
    ensures
        r is None <==> file_name_of(path@) is None,
        r matches Some(n) ==> file_name_of(path@) == Some(n@),
{
    let cs = chars_of(path);
    let mut end: usize = cs.len();
    assert(cs@.take(end as int) =~= cs@);
    while end > 0 && (cs[end - 1] == '/' || (end >= 2 && cs[end - 1] == '.' && cs[end - 2] == '/'))
        invariant
            end <= cs@.len(),
            cs@ == path@,
            file_name_of(path@) == file_name_of(cs@.take(end as int)),
        decreases end,
    {
        assert(cs@.take(end as int).drop_last() =~= cs@.take(end - 1));
        assert(cs@.take(end as int).last() == cs@[end - 1]);
        if end >= 2 {
            assert(cs@.take(end as int)[end - 2] == cs@[end - 2]);
        }
        end = end - 1;
    }
    let ghost t = cs@.take(end as int);
    if end > 0 {
        assert(t.last() == cs@[end - 1]);
    }
    if end >= 2 {
        assert(t[t.len() - 2] == cs@[end - 2]);
    }
    assert(!(t.len() > 0 && t.last() == '/'));
    assert(!(t.len() >= 2 && t.last() == '.' && t[t.len() - 2] == '/'));
    let mut start: usize = end;
    while start > 0 && cs[start - 1] != '/'
        invariant
            start <= end <= cs@.len(),
            forall|j: int| start <= j < end ==> cs@[j] != '/',
        decreases start,
    {
        start = start - 1;
    }
    proof {
        lemma_last_segment(t, start as int);
        assert(t.subrange(start as int, end as int) =~= cs@.subrange(start as int, end as int));
        assert(last_segment(t) == cs@.subrange(start as int, end as int));
    }
    let mut seg: Vec<char> = Vec::new();
    let mut k: usize = start;
    while k < end
        invariant
            start <= k <= end <= cs@.len(),
            seg@ == cs@.subrange(start as int, k as int),
        decreases end - k,
    {
        seg.push(cs[k]);
        k = k + 1;
        assert(seg@ =~= cs@.subrange(start as int, k as int));
    }
    let n = seg.len();
    if n == 0 || (n == 1 && seg[0] == '.') || (n == 2 && seg[0] == '.' && seg[1] == '.') {
        assert(seg@.len() == 0 || seg@ =~= seq!['.'] || seg@ =~= seq!['.', '.']);
        None
    } else {
        assert(!(seg@ =~= seq!['.']));
        assert(!(seg@ =~= seq!['.', '.']));
        Some(string_of(seg.as_slice()))
    }
}


/// The index of the last `c` in `s`, or -1 when there is none.
pub open spec fn last_index_of(s: Seq<char>, c: char) -> int
    decreases s.len(),
{
    if s.len() == 0 {
        -1
    } else if s.last() == c {
        s.len() - 1
    } else {
        last_index_of(s.drop_last(), c)
    }
}

/// The extension of a file name: what follows its last `.`, unless that dot
/// is its first character or it has none.
pub open spec fn name_extension(n: Seq<char>) -> Option<Seq<char>> {
    let d = last_index_of(n, '.');
    if d <= 0 {
        None
    } else {
        Some(n.skip(d + 1))
    }
}

/// The extension of a path's final component.
pub open spec fn extension_of(path: Seq<char>) -> Option<Seq<char>> {
    match file_name_of(path) {
        Some(n) => name_extension(n),
        None => None,
    }
}

proof fn lemma_last_index_of_unique(s: Seq<char>, c: char, d: int)
    requires
        -1 <= d < s.len(),
        d >= 0 ==> s[d] == c,
        forall|j: int| d < j < s.len() ==> s[j] != c,
    ensures
        last_index_of(s, c) == d,
    decreases s.len(),
{
    if s.len() > 0 && s.last() != c {
        lemma_last_index_of_unique(s.drop_last(), c, d);
    }
}

/// The extension of a path's final component, when it has one.
pub fn extension(path: &str) -> (r: Option<String>)
    ensures
        r is None <==> extension_of(path@) is None,
        r matches Some(e) ==> extension_of(path@) == Some(e@),
{
    let name = match file_name(path) {
        Some(n) => n,
        None => return None,
    };
    let cs = chars_of(name.as_str());
    let mut d: usize = cs.len();
    while d > 0 && cs[d - 1] != '.'
        invariant
            d <= cs@.len(),
            forall|j: int| d <= j < cs@.len() ==> cs@[j] != '.',
        decreases d,
    {
        d = d - 1;
    }
    proof {
        lemma_last_index_of_unique(cs@, '.', d - 1);
    }
    if d <= 1 {
        return None;
    }
    let mut ext: Vec<char> = Vec::new();
    let mut k: usize = d;
    while k < cs.len()
        invariant
            d <= k <= cs@.len(),
            ext@ == cs@.subrange(d as int, k as int),
        decreases cs@.len() - k,
    {
        ext.push(cs[k]);
        k = k + 1;
        assert(ext@ =~= cs@.subrange(d as int, k as int));
    }
    assert(cs@.skip(d as int) =~= cs@.subrange(d as int, cs@.len() as int));
    Some(string_of(ext.as_slice()))
}

} // verus!
