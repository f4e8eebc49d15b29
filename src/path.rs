//! Paths as text: the last component, its extension and its stem.
use vstd::prelude::*;

verus! {

/// Index of the last occurrence of `c` in `s`, or -1 where `c` does not occur.
pub open spec fn last_index_of(s: Seq<char>, c: char) -> int
    decreases s.len(),
{
    if s.len() == 0 {
        -1
    } else if s.last() == c {
        s.len() - 1
    } else {
        last_index_of(s.drop_last(), c)
    }
}

/// The characters that separate the components of a path: `/`, and the
/// backslash as Windows writes it.
pub open spec fn is_separator(c: char) -> bool {
    c == '/' || c == '\\'
}

/// Index of the last separator in `p`, or -1 where it has none.
pub open spec fn last_separator(p: Seq<char>) -> int {
    let a = last_index_of(p, '/');
    let b = last_index_of(p, '\\');
    if a >= b {
        a
    } else {
        b
    }
}

/// The last component of a path: everything after its last separator.
pub open spec fn file_name_of(p: Seq<char>) -> Seq<char> {
    p.subrange(last_separator(p) + 1, p.len() as int)
}

/// Whether `s` holds no separator.
pub open spec fn has_no_separator(s: Seq<char>) -> bool {
    forall|i: int| 0 <= i < s.len() ==> !is_separator(#[trigger] s[i])
}

/// Position of the last dot of a file name, or -1 where it has none.
pub open spec fn extension_dot(name: Seq<char>) -> int {
    last_index_of(name, '.')
}

/// The extension of a path's last component, without its dot: what follows its
/// last dot, where that dot is not the first character (`.hidden` has no extension).
pub open spec fn extension_of(p: Seq<char>) -> Option<Seq<char>> {
    let name = file_name_of(p);
    let d = extension_dot(name);
    if d > 0 {
        Some(name.subrange(d + 1, name.len() as int))
    } else {
        None
    }
}

/// The last component of a path with its extension and the dot before it removed;
/// the whole last component where it has no extension.
pub open spec fn stem_of(p: Seq<char>) -> Seq<char> {
    let name = file_name_of(p);
    let d = extension_dot(name);
    if d > 0 {
        name.subrange(0, d)
    } else {
        name
    }
}

pub proof fn lemma_last_index_of(s: Seq<char>, c: char)
    ensures
        -1 <= last_index_of(s, c) < s.len(),
        last_index_of(s, c) >= 0 ==> s[last_index_of(s, c)] == c,
        forall|j: int| last_index_of(s, c) < j < s.len() ==> s[j] != c,
    decreases s.len(),
{
    if s.len() > 0 && s.last() != c {
        lemma_last_index_of(s.drop_last(), c);
        assert forall|j: int| last_index_of(s, c) < j < s.len() implies s[j] != c by {
            if j < s.len() - 1 {
                assert(s[j] == s.drop_last()[j]);
            }
        }
    }
}

/// The last component of a path is a suffix of it that holds no separator.
pub proof fn lemma_file_name_of(p: Seq<char>)
    ensures
        file_name_of(p).len() <= p.len(),
        file_name_of(p) == p.subrange(p.len() - file_name_of(p).len(), p.len() as int),
        has_no_separator(file_name_of(p)),
{
    lemma_last_index_of(p, '/');
    lemma_last_index_of(p, '\\');
    let k = last_separator(p) + 1;
    assert forall|j: int| 0 <= j < file_name_of(p).len() implies !is_separator(
        #[trigger] file_name_of(p)[j],
    ) by {
        assert(file_name_of(p)[j] == p[k + j]);
    }
}

/// Position of the last `c` in `s`.
fn find_last(s: &str, c: char) -> (r: Option<usize>)
    ensures
        match r {
            Some(i) => i == last_index_of(s@, c),
            None => last_index_of(s@, c) == -1,
        },
{
    let n = s.unicode_len();
    let mut i: usize = n;
    assert(s@.subrange(0, n as int) =~= s@);
    while i > 0
        invariant
            i <= n,
            n == s@.len(),
            last_index_of(s@, c) == last_index_of(s@.subrange(0, i as int), c),
        decreases i,
    {
        let ch = s.get_char(i - 1);
        assert(s@.subrange(0, i as int).drop_last() =~= s@.subrange(0, i - 1));
        if ch == c {
            return Some(i - 1);
        }
        i = i - 1;
    }
    None
}

/// The last component of `path`, borrowed from it.
fn file_name_str(path: &str) -> (r: &str)
    ensures
        r@ == file_name_of(path@),
{
    proof {
        lemma_last_index_of(path@, '/');
        lemma_last_index_of(path@, '\\');
    }
    let n = path.unicode_len();
    let slash = find_last(path, '/');
    let backslash = find_last(path, '\\');
    let start: usize = match (slash, backslash) {
        (Some(a), Some(b)) => if a >= b {
            a + 1
        } else {
            b + 1
        },
        (Some(a), None) => a + 1,
        (None, Some(b)) => b + 1,
        (None, None) => 0,
    };
    path.substring_char(start, n)
}

/// The path as text. Paths are handled as their text throughout this library.
pub fn extract_file_path(path: &str) -> (r: String)
    ensures
        r@ == path@,
{
    path.to_owned()
}

/// The file name of `path` without its directories and its extension:
/// `a/b/photo.png` gives `photo`, and `a/b/README` gives `README`. Always `Some`.
pub fn extract_file_name(path: &str) -> (r: Option<String>)
    ensures
        r is Some,
        r->Some_0@ == stem_of(path@),
{
    let name = file_name_str(path);
    proof {
        lemma_last_index_of(name@, '.');
    }
    let n = name.unicode_len();
    assert(name@.subrange(0, n as int) =~= name@);
    match find_last(name, '.') {
        Some(d) => {
            if d > 0 {
                Some(name.substring_char(0, d).to_owned())
            } else {
                Some(name.substring_char(0, n).to_owned())
            }
        },
        None => Some(name.substring_char(0, n).to_owned()),
    }
}

/// The extension of `path` without its dot: `a/b/photo.png` gives `png`.
/// `None` where the last component has no extension.
pub fn file_extension(path: &str) -> (r: Option<String>)
    ensures
        match r {
            Some(s) => extension_of(path@) == Some(s@),
            None => extension_of(path@) is None,
        },
{
    let name = file_name_str(path);
    proof {
        lemma_last_index_of(name@, '.');
    }
    let n = name.unicode_len();
    match find_last(name, '.') {
        Some(d) => {
            if d > 0 {
                Some(name.substring_char(d + 1, n).to_owned())
            } else {
                None
            }
        },
        None => None,
    }
}

} // verus!
