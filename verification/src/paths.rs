//! File-system paths as text: their final component, parent, extension and stem.
//!
//! What a path's final component and parent are, how two paths join and how an
//! extension is set follow `std::path`, which does the parsing; the extension and
//! the stem are read off the final component here, as std's documentation defines them.
use vstd::prelude::*;

verus! {

/// What `Path::file_name` returns for the path: its final component, if it has one.
pub uninterp spec fn path_file_name(p: Seq<char>) -> Option<Seq<char>>;

/// What `Path::parent` returns for the path: the path without its final component,
/// if it has one.
pub uninterp spec fn path_parent(p: Seq<char>) -> Option<Seq<char>>;

/// What `Path::join` returns for a base path and a path to adjoin to it.
pub uninterp spec fn path_join(base: Seq<char>, name: Seq<char>) -> Seq<char>;

/// What `PathBuf::set_extension` leaves in the path for the given extension.
pub uninterp spec fn path_set_extension(p: Seq<char>, ext: Seq<char>) -> Seq<char>;

/// The view of an optional string.
pub open spec fn opt_view(o: Option<String>) -> Option<Seq<char>> {
    match o {
        Some(s) => Some(s@),
        None => None,
    }
}

/// Whether `std::path::is_separator` takes the character as a path separator on the
/// platform the program runs on.
pub uninterp spec fn path_is_separator(c: char) -> bool;

/// Whether a text holds a path separator of the platform.
pub open spec fn has_separator(s: Seq<char>) -> bool {
    exists|i: int| 0 <= i < s.len() && path_is_separator(#[trigger] s[i])
}

/// `std::path::is_separator`. std documents `'/'` as a separator on every platform,
/// and `'\\'` as the only other one, on Windows.
#[verifier::external_body]
pub(crate) fn is_separator_of(c: char) -> (b: bool)
    ensures
        b == path_is_separator(c),
        c == '/' ==> b,
        b ==> (c == '/' || c == '\\'),
{
    std::path::is_separator(c)
}

/// Whether the text holds a path separator of the platform. A text without `'/'` and
/// `'\\'` holds none.
pub fn contains_separator(s: &str) -> (b: bool)
    ensures
        b == has_separator(s@),
        !s@.contains('/') && !s@.contains('\\') ==> !b,
{
    let n = s.unicode_len();
    let mut i: usize = 0;
    while i < n
        invariant
            n == s@.len(),
            i <= n,
            forall|j: int| 0 <= j < i ==> !path_is_separator(#[trigger] s@[j]),
        decreases n - i,
    {
        let c = s.get_char(i);
        if is_separator_of(c) {
            proof {
                assert(s@.contains(c));
            }
            return true;
        }
        i = i + 1;
    }
    false
}

/// `Path::file_name`, read as text.
#[verifier::external_body]
pub(crate) fn file_name_of(p: &str) -> (r: Option<String>)
    ensures
        opt_view(r) == path_file_name(p@),
{
    match std::path::Path::new(p).file_name() {
        Some(n) => Some(n.to_string_lossy().into_owned()),
        None => None,
    }
}

/// `Path::parent`, read as text.
#[verifier::external_body]
pub(crate) fn parent_of(p: &str) -> (r: Option<String>)
    ensures
        opt_view(r) == path_parent(p@),
{
    match std::path::Path::new(p).parent() {
        Some(d) => Some(d.to_string_lossy().into_owned()),
        None => None,
    }
}

/// `Path::join`, read as text.
#[verifier::external_body]
pub(crate) fn join_of(base: &str, name: &str) -> (r: String)
    ensures
        r@ == path_join(base@, name@),
{
    std::path::Path::new(base).join(name).to_string_lossy().into_owned()
}

/// `PathBuf::set_extension`, read as text. std documents that it panics on an
/// extension holding a path separator, which is left out here; that it does nothing
/// to a path without a final component; and that otherwise a non-empty extension
/// becomes the path's extension, so that the path then has one. What it makes of a
/// path whose extension is set to the empty text is not stated here.
#[verifier::external_body]
pub(crate) fn set_extension_of(p: &str, ext: &str) -> (r: String)
    requires
        !has_separator(ext@),
    ensures
        r@ == path_set_extension(p@, ext@),
        path_file_name(p@) is None ==> r@ == p@,
        path_file_name(p@) is Some && ext@.len() > 0 ==> path_extension(r@) is Some,
{
    let mut b = std::path::PathBuf::from(p);
    b.set_extension(ext);
    b.to_string_lossy().into_owned()
}

/// The index of the last occurrence of `c` in `s`, or `-1` when there is none.
pub open spec fn last_index_of(s: Seq<char>, c: char) -> int
    decreases s.len(),
{
    if s.len() == 0 {
        -1
    } else if s.last() == c {
        s.len() - 1
    } else {
        last_index_of(s.drop_last(), c)
    }
}

/// The extension of a file name, as `Path::extension` defines it: none when the name
/// holds no `'.'`, or its only `'.'` is its first character; else what follows the last `'.'`.
pub open spec fn name_extension(name: Seq<char>) -> Option<Seq<char>> {
    let i = last_index_of(name, '.');
    if i <= 0 {
        None
    } else {
        Some(name.subrange(i + 1, name.len() as int))
    }
}

/// The stem of a file name, as `Path::file_stem` defines it: the whole name when it
/// holds no `'.'`, or its only `'.'` is its first character; else what precedes the last `'.'`.
pub open spec fn name_stem(name: Seq<char>) -> Seq<char> {
    let i = last_index_of(name, '.');
    if i <= 0 {
        name
    } else {
        name.subrange(0, i)
    }
}

/// The extension of a path: that of its final component, if it has one.
pub open spec fn path_extension(p: Seq<char>) -> Option<Seq<char>> {
    match path_file_name(p) {
        Some(name) => name_extension(name),
        None => None,
    }
}

/// The stem of a path: that of its final component, if it has one.
pub open spec fn path_stem(p: Seq<char>) -> Option<Seq<char>> {
    match path_file_name(p) {
        Some(name) => Some(name_stem(name)),
        None => None,
    }
}

proof fn lemma_last_index_bounds(s: Seq<char>, c: char)
    ensures
        -1 <= last_index_of(s, c) < s.len(),
        last_index_of(s, c) >= 0 ==> s[last_index_of(s, c)] == c,
        forall|j: int| last_index_of(s, c) < j < s.len() ==> s[j] != c,
    decreases s.len(),
{
    if s.len() > 0 && s.last() != c {
        lemma_last_index_bounds(s.drop_last(), c);
        assert forall|j: int| last_index_of(s, c) < j < s.len() implies s[j] != c by {
            if j < s.len() - 1 {
                assert(s[j] == s.drop_last()[j]);
            }
        }
    }
}

proof fn lemma_last_index_unique(s: Seq<char>, c: char, k: int)
    requires
        -1 <= k < s.len(),
        k >= 0 ==> s[k] == c,
        forall|j: int| k < j < s.len() ==> s[j] != c,
    ensures
        last_index_of(s, c) == k,
    decreases s.len(),
{
    if s.len() > 0 && s.last() != c {
        let t = s.drop_last();
        assert forall|j: int| k < j < t.len() implies t[j] != c by {
            assert(t[j] == s[j]);
        }
        if k >= 0 {
            assert(t[k] == s[k]);
        }
        lemma_last_index_unique(t, c, k);
    }
}

/// The index of the last `'.'` in `name`, if there is one.
fn last_dot(name: &str) -> (r: Option<usize>)
    ensures
        match r {
            Some(i) => i as int == last_index_of(name@, '.'),
            None => last_index_of(name@, '.') == -1,
        },
{
    let n = name.unicode_len();
    let mut k: usize = n;
    while k > 0 && name.get_char(k - 1) != '.'
        invariant
            n == name@.len(),
            k <= n,
            forall|j: int| k <= j < n ==> name@[j] != '.',
        decreases k,
    {
        k = k - 1;
    }
    proof {
        lemma_last_index_unique(name@, '.', k - 1);
    }
    if k == 0 {
        None
    } else {
        Some(k - 1)
    }
}

/// The extension of the path's final component, if it has one.
pub fn extension(p: &str) -> (r: Option<String>)
    ensures
        opt_view(r) == path_extension(p@),
{
    match file_name_of(p) {
        None => None,
        Some(name) => {
            let s = name.as_str();
            match last_dot(s) {
                None => None,
                Some(i) => {
                    if i == 0 {
                        None
                    } else {
                        let n = s.unicode_len();
                        proof {
                            lemma_last_index_bounds(s@, '.');
                        }
                        let e = s.substring_char(i + 1, n);
                        Some(String::from_str(e))
                    }
                },
            }
        },
    }
}

/// The stem of the path's final component, if it has one.
pub fn file_stem(p: &str) -> (r: Option<String>)
    ensures
        opt_view(r) == path_stem(p@),
{
    match file_name_of(p) {
        None => None,
        Some(name) => {
            let s = name.as_str();
            match last_dot(s) {
                None => Some(name),
                Some(i) => {
                    if i == 0 {
                        Some(name)
                    } else {
                        proof {
                            lemma_last_index_bounds(s@, '.');
                        }
                        let e = s.substring_char(0, i);
                        Some(String::from_str(e))
                    }
                },
            }
        },
    }
}

} // verus!
