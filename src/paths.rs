//! Paths held as text, with `/` between components.
use vstd::prelude::*;

use crate::fix::push_char;

verus! {

/// The index of the last `c` in `s`, or -1 when there is none.
pub open spec fn last_index_of(s: Seq<char>, c: char) -> int
    decreases s.len(),
{
    if s.len() == 0 {
        -1
    } else if s.last() == c {
        s.len() - 1
    } else {
        last_index_of(s.drop_last(), c)
    }
}

/// The last component of the path.
pub open spec fn file_name_of(p: Seq<char>) -> Seq<char> {
    p.subrange(last_index_of(p, '/') + 1, p.len() as int)
}

/// The extension: what follows the last `.` of the file name, unless that
/// dot opens the name or the name is `..`.
pub open spec fn extension_of(p: Seq<char>) -> Option<Seq<char>> {
    let name = file_name_of(p);
    let d = last_index_of(name, '.');
    if d <= 0 || name == seq!['.', '.'] {
        None
    } else {
        Some(name.subrange(d + 1, name.len() as int))
    }
}

/// A hidden entry is one whose name starts with a dot.
pub open spec fn is_hidden_path(p: Seq<char>) -> bool {
    let name = file_name_of(p);
    name.len() > 0 && name[0] == '.'
}

/// The backup of a file sits beside it: the suffix `.bak` is added to the
/// file's extension, which is kept.
pub open spec fn backup_path_of(p: Seq<char>) -> Seq<char> {
    if extension_of(p) is Some {
        p + seq!['.', 'b', 'a', 'k']
    } else {
        p + seq!['.', '.', 'b', 'a', 'k']
    }
}

proof fn lemma_last_index_of(s: Seq<char>, c: char, k: int)
    requires
        -1 <= k < s.len(),
        k >= 0 ==> s[k] == c,
        forall|j: int| k < j < s.len() ==> s[j] != c,
    ensures
        last_index_of(s, c) == k,
    decreases s.len(),
{
    if s.len() > 0 && s.last() != c {
        lemma_last_index_of(s.drop_last(), c, k);
    }
}

/// The characters of `s`, one by one.
pub fn chars_of(s: &str) -> (v: Vec<char>)
    ensures
        v@ == s@,
{
    let mut v: Vec<char> = Vec::new();
    for c in it: s.chars()
        invariant
            it.seq() == s@,
            v@ == s@.take(it.index() as int),
    {
        v.push(c);
        assert(s@.take(it.index() as int + 1) =~= s@.take(it.index() as int).push(c));
    }
    assert(s@.take(s@.len() as int) =~= s@);
    v
}

/// The index of the last `c` among `v[from..]`, if there is one.
fn last_index_in(v: &Vec<char>, from: usize, c: char) -> (r: Option<usize>)
    requires
        from <= v.len(),
    ensures
        r matches Some(k) ==> k + from < v.len() && last_index_of(
            v@.subrange(from as int, v.len() as int),
            c,
        ) == k,
        r is None ==> last_index_of(v@.subrange(from as int, v.len() as int), c) == -1,
{
    let mut i: usize = v.len();
    while i > from
        invariant
            from <= i <= v.len(),
            forall|j: int| i <= j < v.len() ==> v@[j] != c,
        decreases i,
    {
        if v[i - 1] == c {
            proof {
                lemma_last_index_of(v@.subrange(from as int, v.len() as int), c, i - 1 - from);
            }
            return Some(i - 1 - from);
        }
        i = i - 1;
    }
    proof {
        lemma_last_index_of(v@.subrange(from as int, v.len() as int), c, -1);
    }
    None
}

/// The text of `v[from..to]`.
fn text_of(v: &Vec<char>, from: usize, to: usize) -> (r: String)
    requires
        from <= to <= v.len(),
    ensures
        r@ == v@.subrange(from as int, to as int),
{
    let mut r = String::new();
    let mut i: usize = from;
    while i < to
        invariant
            from <= i <= to <= v.len(),
            r@ == v@.subrange(from as int, i as int),
        decreases to - i,
    {
        push_char(&mut r, v[i]);
        assert(v@.subrange(from as int, i + 1) =~= v@.subrange(from as int, i as int).push(v@[i as int]));
        i = i + 1;
    }
    r
}

/// Where the file name of `v` starts.
fn file_name_start(v: &Vec<char>) -> (r: usize)
    ensures
        r == last_index_of(v@, '/') + 1,
        r <= v.len(),
{
    let s = last_index_in(v, 0, '/');
    assert(v@.subrange(0, v.len() as int) =~= v@);
    match s {
        Some(k) => k + 1,
        None => 0,
    }
}

/// The extension of the path, as `Path::extension` reads it.
pub fn extension(path: &str) -> (r: Option<String>)
    ensures
        r matches Some(e) ==> extension_of(path@) == Some(e@),
        r is None ==> extension_of(path@) is None,
{
    let v = chars_of(path);
    let start = file_name_start(&v);
    let name_len = v.len() - start;
    let ghost name = v@.subrange(start as int, v.len() as int);
    assert(name == file_name_of(path@));
    let d = match last_index_in(&v, start, '.') {
        Some(d) => d,
        None => {
            return None;
        },
    };
    if d == 0 {
        return None;
    }
    if name_len == 2 && v[start] == '.' && v[start + 1] == '.' {
        assert(name =~= seq!['.', '.']);
        return None;
    }
    assert(name != seq!['.', '.']) by {
        if name == seq!['.', '.'] {
            assert(name[0] == '.' && name[1] == '.');
        }
    }
    let e = text_of(&v, start + d + 1, v.len());
    assert(e@ =~= name.subrange(d + 1, name.len() as int));
    Some(e)
}

/// Whether the path names a hidden entry.
pub fn is_hidden(path: &str) -> (r: bool)
    ensures
        r == is_hidden_path(path@),
{
    let v = chars_of(path);
    let start = file_name_start(&v);
    start < v.len() && v[start] == '.'
}

/// The path of the backup copy of the file at `path`.
pub fn backup_path(path: &str) -> (r: String)
    ensures
        r@ == backup_path_of(path@),
{
    let has_extension = extension(path).is_some();
    let mut r = path.to_owned();
    push_char(&mut r, '.');
    if !has_extension {
        push_char(&mut r, '.');
    }
    push_char(&mut r, 'b');
    push_char(&mut r, 'a');
    push_char(&mut r, 'k');
    if has_extension {
        assert(r@ =~= path@ + seq!['.', 'b', 'a', 'k']);
    } else {
        assert(r@ =~= path@ + seq!['.', '.', 'b', 'a', 'k']);
    }
    r
}

} // verus!
