//! Path names as text: the last component of a path, its stem and its
//! extension, and joining a file name under a directory.
//!
//! Paths are plain strings with `/` as the separator.

use vstd::prelude::*;
use vstd::string::StrSliceExecFns;
use vstd::string::StringExecFns;

verus! {

/// The position just past the last `c` in `s`, or 0 where `s` holds no `c`.
pub open spec fn after_last(s: Seq<char>, c: char) -> int
    decreases s.len(),
{
    if s.len() == 0 {
        0
    } else if s.last() == c {
        s.len() as int
    } else {
        after_last(s.drop_last(), c)
    }
}

/// The length of `path` once trailing separators and trailing `.` components
/// are taken off.
pub open spec fn trimmed_len(path: Seq<char>) -> int
    decreases path.len(),
{
    if path.len() > 0 && path.last() == '/' {
        trimmed_len(path.drop_last())
    } else if path.len() >= 2 && path.last() == '.' && path[path.len() - 2] == '/' {
        trimmed_len(path.drop_last())
    } else {
        path.len() as int
    }
}

/// The last component of `path`, if it names a file: none for the empty path,
/// the root, and a path that ends in `.` or `..`.
pub open spec fn file_name_of(path: Seq<char>) -> Option<Seq<char>> {
    let t = path.subrange(0, trimmed_len(path));
    let name = t.subrange(after_last(t, '/'), t.len() as int);
    if name.len() == 0 || name == seq!['.'] || name == seq!['.', '.'] {
        None
    } else {
        Some(name)
    }
}

/// The file name without its final extension. A name without a `.` is its own
/// stem; a name with nothing before its last `.` has no stem.
pub open spec fn file_stem_of(path: Seq<char>) -> Option<Seq<char>> {
    match file_name_of(path) {
        None => None,
        Some(name) => {
            let dot = after_last(name, '.');
            if dot == 0 {
                Some(name)
            } else if dot == 1 {
                None
            } else {
                Some(name.subrange(0, dot - 1))
            }
        },
    }
}

/// What follows the last `.` of the file name, if something stands before
/// that `.` too.
pub open spec fn extension_of(path: Seq<char>) -> Option<Seq<char>> {
    match file_name_of(path) {
        None => None,
        Some(name) => {
            let dot = after_last(name, '.');
            if dot <= 1 {
                None
            } else {
                Some(name.subrange(dot, name.len() as int))
            }
        },
    }
}

/// `name` placed under `dir`: a separator is put between the two unless `dir`
/// is empty or already ends in one.
pub open spec fn joined(dir: Seq<char>, name: Seq<char>) -> Seq<char> {
    if dir.len() == 0 || dir.last() == '/' {
        dir + name
    } else {
        dir + seq!['/'] + name
    }
}

/// The text of an optional string.
pub open spec fn text_of(o: Option<String>) -> Option<Seq<char>> {
    match o {
        Some(s) => Some(s@),
        None => None,
    }
}

/// `after_last` finds a cut: `c` stands just before it (unless it is 0) and
/// nowhere after it.
pub proof fn lemma_after_last(s: Seq<char>, c: char)
    ensures
        0 <= after_last(s, c) <= s.len(),
        after_last(s, c) > 0 ==> s[after_last(s, c) - 1] == c,
        forall|j: int| after_last(s, c) <= j < s.len() ==> s[j] != c,
    decreases s.len(),
{
    if s.len() > 0 && s.last() != c {
        let rest = s.drop_last();
        lemma_after_last(rest, c);
        assert forall|j: int| after_last(s, c) <= j < s.len() implies s[j] != c by {
            if j < rest.len() {
                assert(s[j] == rest[j]);
            }
        }
    }
}

/// Trimming leaves a prefix.
pub proof fn lemma_trimmed_len(path: Seq<char>)
    ensures
        0 <= trimmed_len(path) <= path.len(),
    decreases path.len(),
{
    if path.len() > 0 && (path.last() == '/' || (path.len() >= 2 && path.last() == '.' && path[path.len()
        - 2] == '/')) {
        lemma_trimmed_len(path.drop_last());
    }
}

/// A file name is one component: it is not empty and holds no separator.
pub proof fn lemma_file_name_is_one_component(path: Seq<char>)
    ensures
        match file_name_of(path) {
            Some(name) => name.len() > 0 && forall|j: int| 0 <= j < name.len() ==> name[j] != '/',
            None => true,
        },
{
    lemma_trimmed_len(path);
    let t = path.subrange(0, trimmed_len(path));
    lemma_after_last(t, '/');
}

/// A stem is one component too: it is not empty and holds no separator.
pub proof fn lemma_file_stem_is_one_component(path: Seq<char>)
    ensures
        match file_stem_of(path) {
            Some(stem) => stem.len() > 0 && forall|j: int| 0 <= j < stem.len() ==> stem[j] != '/',
            None => true,
        },
{
    lemma_file_name_is_one_component(path);
    match file_name_of(path) {
        Some(name) => {
            lemma_after_last(name, '.');
        },
        None => {},
    }
}

/// The characters of `s`, in order.
pub fn chars_of(s: &str) -> (v: Vec<char>)
    ensures
        v@ == s@,
{
    let mut v: Vec<char> = Vec::new();
    for c in it: s.chars()
        invariant
            it.seq() == s@,
            v@ == s@.take(it.index()),
    {
        assert(s@.take(it.index() + 1) =~= s@.take(it.index()).push(c));
        v.push(c);
    }
    assert(s@.take(s@.len() as int) =~= s@);
    v
}

fn find_after_last(v: &Vec<char>, end: usize, c: char) -> (k: usize)
    requires
        end <= v.len(),
    ensures
        k == after_last(v@.subrange(0, end as int), c),
        k <= end,
{
    let mut i: usize = end;
    while i > 0
        invariant
            i <= end <= v.len(),
            after_last(v@.subrange(0, end as int), c) == after_last(v@.subrange(0, i as int), c),
        decreases i,
    {
        if v[i - 1] == c {
            return i;
        }
        assert(v@.subrange(0, i as int).drop_last() == v@.subrange(0, i - 1));
        i -= 1;
    }
    0
}

fn find_trimmed_len(v: &Vec<char>) -> (t: usize)
    ensures
        t == trimmed_len(v@),
        t <= v.len(),
{
    let mut i: usize = v.len();
    assert(v@.subrange(0, i as int) == v@);
    while i > 0
        invariant
            i <= v.len(),
            trimmed_len(v@) == trimmed_len(v@.subrange(0, i as int)),
        decreases i,
    {
        let ghost cur = v@.subrange(0, i as int);
        let sep: bool = v[i - 1] == '/';
        let dot: bool = i >= 2 && v[i - 1] == '.' && v[i - 2] == '/';
        if !sep && !dot {
            return i;
        }
        assert(cur.drop_last() == v@.subrange(0, i - 1));
        i -= 1;
    }
    0
}

/// The last component of `path`, if it names a file.
pub fn file_name(path: &str) -> (r: Option<String>)
    ensures
        text_of(r) == file_name_of(path@),
{
    let v = chars_of(path);
    let t = find_trimmed_len(&v);
    let k = find_after_last(&v, t, '/');
    let ghost name = v@.subrange(0, t as int).subrange(k as int, t as int);
    assert(name == path@.subrange(k as int, t as int));
    let n = t - k;
    if n == 0 {
        return None;
    }
    if n == 1 && v[k] == '.' {
        assert(name == seq!['.']);
        return None;
    }
    if n == 2 && v[k] == '.' && v[k + 1] == '.' {
        assert(name == seq!['.', '.']);
        return None;
    }
    assert(name != seq!['.']) by {
        if name == seq!['.'] {
            assert(name.len() == 1 && name[0] == '.');
        }
    }
    assert(name != seq!['.', '.']) by {
        if name == seq!['.', '.'] {
            assert(name.len() == 2 && name[0] == '.' && name[1] == '.');
        }
    }
    Some(String::from_str(path.substring_char(k, t)))
}

/// The file name of `path` without its final extension.
pub fn file_stem(path: &str) -> (r: Option<String>)
    ensures
        text_of(r) == file_stem_of(path@),
{
    match file_name(path) {
        None => None,
        Some(name) => {
            let v = chars_of(name.as_str());
            assert(v@.subrange(0, v.len() as int) == v@);
            let dot = find_after_last(&v, v.len(), '.');
            if dot == 0 {
                Some(name)
            } else if dot == 1 {
                None
            } else {
                Some(String::from_str(name.as_str().substring_char(0, dot - 1)))
            }
        },
    }
}

/// The extension of the file name of `path`.
pub fn extension(path: &str) -> (r: Option<String>)
    ensures
        text_of(r) == extension_of(path@),
{
    match file_name(path) {
        None => None,
        Some(name) => {
            let v = chars_of(name.as_str());
            assert(v@.subrange(0, v.len() as int) == v@);
            let dot = find_after_last(&v, v.len(), '.');
            if dot <= 1 {
                None
            } else {
                Some(String::from_str(name.as_str().substring_char(dot, v.len())))
            }
        },
    }
}

/// `name` placed under `dir`.
pub fn join(dir: &str, name: &str) -> (r: String)
    ensures
        r@ == joined(dir@, name@),
{
    let n = dir.unicode_len();
    let mut out = String::from_str(dir);
    if n > 0 && dir.get_char(n - 1) != '/' {
        out.append("/");
        proof {
            reveal_strlit("/");
            assert("/"@ == seq!['/']);
        }
    }
    out.append(name);
    out
}

} // verus!
