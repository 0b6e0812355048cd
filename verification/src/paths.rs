//! A character-level model of path strings.
//!
//! The library treats a path as a sequence of characters in which both `/`
//! and `\` separate components, so Windows-style paths keep their meaning
//! wherever the strings are produced.  The file name is everything after
//! the last separator (empty when the path ends with a separator), and an
//! extension exists when the file name has a dot anywhere past its first
//! character.

use vstd::prelude::*;
use crate::text::lower_seq;
use crate::text::lemma_lower_char_fixes;

verus! {

/// A path separator: forward or backward slash.
pub open spec fn is_sep(c: char) -> bool {
    c == '/' || c == '\\'
}

/// Index of the first character of the file name: everything after the
/// last separator of `s` (all of `s` when it has no separator).
pub open spec fn file_name_start(s: Seq<char>) -> int
    decreases s.len(),
{
    if s.len() == 0 {
        0
    } else if is_sep(s[s.len() - 1]) {
        s.len() as int
    } else {
        file_name_start(s.drop_last())
    }
}

/// The file name of a path: the part after the last separator.
pub open spec fn file_name_seq(s: Seq<char>) -> Seq<char> {
    s.subrange(file_name_start(s), s.len() as int)
}

pub proof fn lemma_file_name_start_bounds(s: Seq<char>)
    ensures
        0 <= file_name_start(s) <= s.len(),
    decreases s.len(),
{
    if s.len() > 0 && !is_sep(s[s.len() - 1]) {
        lemma_file_name_start_bounds(s.drop_last());
    }
}

/// Scanning from the end: while no separator has been seen, the start of
/// the file name in the whole path equals its start in the prefix.
pub proof fn lemma_file_name_start_scan(s: Seq<char>, i: int)
    requires
        0 <= i <= s.len(),
        forall|k: int| i <= k < s.len() ==> !is_sep(s[k]),
    ensures
        file_name_start(s) == file_name_start(s.take(i)),
    decreases s.len() - i,
{
    if i == s.len() {
        assert(s.take(i) =~= s);
    } else {
        lemma_file_name_start_scan(s, i + 1);
        let t = s.take(i + 1);
        assert(!is_sep(t[t.len() - 1]));
        assert(t.drop_last() =~= s.take(i));
    }
}

/// Extracts the file name of `path` as a fresh string.
pub fn file_name_of(path: &str) -> (r: String)
    ensures
        r@ == file_name_seq(path@),
{
    let len = path.unicode_len();
    let mut i = len;
    proof {
        lemma_file_name_start_bounds(path@);
    }
    while i > 0 && !is_sep_char(path.get_char(i - 1))
        invariant
            0 <= i <= len,
            len == path@.len(),
            forall|k: int| i <= k < path@.len() ==> !is_sep(path@[k]),
        decreases i,
    {
        i = i - 1;
    }
    proof {
        lemma_file_name_start_scan(path@, i as int);
        if i > 0 {
            assert(path@.take(i as int)[i - 1] == path@[i - 1]);
            assert(file_name_start(path@.take(i as int)) == i);
        } else {
            assert(path@.take(0) =~= Seq::<char>::empty());
        }
        assert(file_name_start(path@) == i);
    }
    let name = path.substring_char(i, len);
    name.to_owned()
}

/// The display name of a media file: its file name, empty when the path
/// has no name component.  Never fails; the `Result` is the command
/// surface's shape.
pub fn get_media_name(path: &str) -> (r: Result<String, String>)
    ensures
        r is Ok && r->Ok_0@ == file_name_seq(path@),
{
    Ok(file_name_of(path))
}

/// Executable test for a separator character.
pub fn is_sep_char(c: char) -> (r: bool)
    ensures
        r == is_sep(c),
{
    c == '/' || c == '\\'
}

/// Index of the last dot of a file name; -1 when it has none.
pub open spec fn last_dot(n: Seq<char>) -> int
    decreases n.len(),
{
    if n.len() == 0 {
        -1
    } else if n[n.len() - 1] == '.' {
        n.len() - 1
    } else {
        last_dot(n.drop_last())
    }
}

/// A file name has an extension when a dot stands past its first
/// character (so `.hidden` has none, while `a.` has an empty one).
pub open spec fn name_has_extension(n: Seq<char>) -> bool {
    last_dot(n) >= 1
}

/// The extension of a path, empty when there is none.
pub open spec fn extension_seq(s: Seq<char>) -> Seq<char> {
    let n = file_name_seq(s);
    if name_has_extension(n) {
        n.subrange(last_dot(n) + 1, n.len() as int)
    } else {
        Seq::empty()
    }
}

/// The stem of a path: its file name up to the last dot.
pub open spec fn stem_seq(s: Seq<char>) -> Seq<char> {
    let n = file_name_seq(s);
    if name_has_extension(n) {
        n.subrange(0, last_dot(n))
    } else {
        n
    }
}

/// Scanning from the end: while no dot has been seen, the last dot of the
/// whole name is the last dot of the prefix.
proof fn lemma_last_dot_scan(n: Seq<char>, i: int)
    requires
        0 <= i <= n.len(),
        forall|k: int| i <= k < n.len() ==> n[k] != '.',
    ensures
        last_dot(n) == last_dot(n.take(i)),
    decreases n.len() - i,
{
    if i == n.len() {
        assert(n.take(i) =~= n);
    } else {
        lemma_last_dot_scan(n, i + 1);
        let t = n.take(i + 1);
        assert(t[t.len() - 1] != '.');
        assert(t.drop_last() =~= n.take(i));
    }
}

/// Finds the start of the file name of `path`.
pub fn file_name_start_exec(path: &str) -> (i: usize)
    ensures
        i as int == file_name_start(path@),
        i <= path@.len(),
{
    let len = path.unicode_len();
    let mut i = len;
    proof {
        lemma_file_name_start_bounds(path@);
    }
    while i > 0 && !is_sep_char(path.get_char(i - 1))
        invariant
            0 <= i <= len,
            len == path@.len(),
            forall|k: int| i <= k < path@.len() ==> !is_sep(path@[k]),
        decreases i,
    {
        i = i - 1;
    }
    proof {
        lemma_file_name_start_scan(path@, i as int);
        if i > 0 {
            assert(path@.take(i as int)[i - 1] == path@[i - 1]);
            assert(file_name_start(path@.take(i as int)) == i);
        } else {
            assert(path@.take(0) =~= Seq::<char>::empty());
        }
    }
    i
}

/// Finds `last_dot` of a file name, as the index one past the dot
/// (0 when the name has no dot at all).
fn dot_scan(name: &str) -> (j: usize)
    ensures
        j == 0 ==> last_dot(name@) == -1,
        j > 0 ==> last_dot(name@) == j - 1,
        j <= name@.len(),
{
    let len = name.unicode_len();
    let mut j = len;
    while j > 0 && name.get_char(j - 1) != '.'
        invariant
            0 <= j <= len,
            len == name@.len(),
            forall|k: int| j <= k < name@.len() ==> name@[k] != '.',
        decreases j,
    {
        j = j - 1;
    }
    proof {
        lemma_last_dot_scan(name@, j as int);
        if j > 0 {
            assert(name@.take(j as int)[j - 1] == name@[j - 1]);
            assert(last_dot(name@.take(j as int)) == j - 1);
        } else {
            assert(name@.take(0) =~= Seq::<char>::empty());
        }
    }
    j
}

/// Extracts the extension of `path`; the empty string when there is none.
pub fn extension_of(path: &str) -> (r: String)
    ensures
        r@ == extension_seq(path@),
{
    let name = file_name_of(path);
    let n = name.as_str();
    let len = n.unicode_len();
    let j = dot_scan(n);
    if j >= 2 {
        n.substring_char(j, len).to_owned()
    } else {
        String::new()
    }
}

/// Extracts the stem of `path`: its file name up to the last dot.
pub fn stem_of(path: &str) -> (r: String)
    ensures
        r@ == stem_seq(path@),
{
    let name = file_name_of(path);
    let n = name.as_str();
    let j = dot_scan(n);
    if j >= 2 {
        let r = n.substring_char(0, j - 1).to_owned();
        r
    } else {
        name
    }
}

proof fn lemma_last_dot_bounds(n: Seq<char>)
    ensures
        -1 <= last_dot(n) < n.len(),
    decreases n.len(),
{
    if n.len() > 0 && n[n.len() - 1] != '.' {
        lemma_last_dot_bounds(n.drop_last());
    }
}

/// Lowercasing never touches a separator, so the file name starts where
/// it started.
proof fn lemma_lower_file_name_start(s: Seq<char>)
    ensures
        file_name_start(lower_seq(s)) == file_name_start(s),
    decreases s.len(),
{
    let t = lower_seq(s);
    if s.len() > 0 {
        lemma_lower_char_fixes(s[s.len() - 1]);
        assert(is_sep(t[s.len() - 1]) == is_sep(s[s.len() - 1]));
        if !is_sep(s[s.len() - 1]) {
            lemma_lower_file_name_start(s.drop_last());
            assert(lower_seq(s.drop_last()) =~= t.drop_last());
        }
    }
}

/// Lowercasing never touches a dot, so the last dot stays where it was.
proof fn lemma_lower_last_dot(n: Seq<char>)
    ensures
        last_dot(lower_seq(n)) == last_dot(n),
    decreases n.len(),
{
    let t = lower_seq(n);
    if n.len() > 0 {
        lemma_lower_char_fixes(n[n.len() - 1]);
        assert((t[n.len() - 1] == '.') == (n[n.len() - 1] == '.'));
        if n[n.len() - 1] != '.' {
            lemma_lower_last_dot(n.drop_last());
            assert(lower_seq(n.drop_last()) =~= t.drop_last());
        }
    }
}

/// Lowercasing a path and taking its extension is taking the extension
/// and lowercasing it.
pub proof fn lemma_lower_extension(s: Seq<char>)
    ensures
        extension_seq(lower_seq(s)) == lower_seq(extension_seq(s)),
{
    lemma_lower_file_name_start(s);
    lemma_file_name_start_bounds(s);
    let n = file_name_seq(s);
    assert(file_name_seq(lower_seq(s)) =~= lower_seq(n));
    lemma_lower_last_dot(n);
    lemma_last_dot_bounds(n);
    if name_has_extension(n) {
        assert(extension_seq(lower_seq(s)) =~= lower_seq(extension_seq(s)));
    } else {
        assert(extension_seq(lower_seq(s)) =~= lower_seq(extension_seq(s)));
    }
}

/// A sequence with its trailing separators dropped.
pub open spec fn strip_trailing_seps(s: Seq<char>) -> Seq<char>
    decreases s.len(),
{
    if s.len() > 0 && is_sep(s.last()) {
        strip_trailing_seps(s.drop_last())
    } else {
        s
    }
}

/// The parent folder of a path:
/// - `None` for an empty path or one made only of separators;
/// - the empty string for a bare file name;
/// - otherwise the path up to the file name, trailing separators dropped,
///   but kept when they are all that is left (the root).
pub open spec fn parent_seq(s: Seq<char>) -> Option<Seq<char>> {
    let fns = file_name_start(s);
    if s.len() == 0 {
        None
    } else if fns == 0 {
        Some(Seq::empty())
    } else {
        let p = s.take(fns);
        let q = strip_trailing_seps(p);
        if q.len() > 0 {
            Some(q)
        } else if fns < s.len() {
            Some(p)
        } else {
            None
        }
    }
}

/// Scanning from the end: while only separators have been seen, stripping
/// trailing separators gives the same result on the shorter prefix.
proof fn lemma_strip_scan(s: Seq<char>, i: int, j: int)
    requires
        0 <= i <= j <= s.len(),
        forall|k: int| i <= k < j ==> is_sep(s[k]),
    ensures
        strip_trailing_seps(s.take(j)) == strip_trailing_seps(s.take(i)),
    decreases j - i,
{
    if i < j {
        lemma_strip_scan(s, i, j - 1);
        let t = s.take(j);
        assert(is_sep(t.last()));
        assert(t.drop_last() =~= s.take(j - 1));
    }
}

/// Derives the folder that holds `path`, as the scan operations need it.
pub fn parent_folder(path: &str) -> (r: Result<String, String>)
    ensures
        match parent_seq(path@) {
            Some(p) => r is Ok && r->Ok_0@ == p,
            None => r is Err && r->Err_0@ == "Cannot get parent folder"@,
        },
{
    let len = path.unicode_len();
    if len == 0 {
        return Err("Cannot get parent folder".to_owned());
    }
    let fns = file_name_start_exec(path);
    if fns == 0 {
        return Ok(String::new());
    }
    let mut i = fns;
    while i > 0 && is_sep_char(path.get_char(i - 1))
        invariant
            0 <= i <= fns,
            fns <= path@.len(),
            len == path@.len(),
            forall|k: int| i <= k < fns ==> is_sep(path@[k]),
        decreases i,
    {
        i = i - 1;
    }
    proof {
        lemma_strip_scan(path@, i as int, fns as int);
        if i > 0 {
            assert(path@.take(i as int).last() == path@[i - 1]);
        } else {
            assert(path@.take(0) =~= Seq::<char>::empty());
        }
    }
    if i > 0 {
        Ok(path.substring_char(0, i).to_owned())
    } else if fns < len {
        Ok(path.substring_char(0, fns).to_owned())
    } else {
        Err("Cannot get parent folder".to_owned())
    }
}

} // verus!
