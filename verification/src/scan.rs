//! Extension and hidden-entry filters for folder scans.
//!
//! The shallow scan keeps exactly the entries whose lowercased extension
//! is in the narrow media table.  The recursive scan applies the same
//! extension filter and additionally drops every path with a component
//! starting with the hidden-file marker `.`, from the scanned folder's
//! own name downward — a walker that prunes hidden directories yields
//! precisely the paths this filter keeps.

use vstd::prelude::*;
use crate::classify::media_kind_of;
use crate::classify::get_media_type;
use crate::paths::is_sep;
use crate::paths::is_sep_char;
use crate::paths::file_name_start;
use crate::paths::file_name_start_exec;

verus! {

/// Whether a path's lowercased extension is in the narrow media table.
pub open spec fn keep_shallow(p: Seq<char>) -> bool {
    media_kind_of(p) is Some
}

/// The shallow filter as a predicate on path strings.
pub open spec fn shallow_pred() -> spec_fn(String) -> bool {
    |p: String| keep_shallow(p@)
}

/// Whether the entry name starting a walk step is not hidden: the
/// walker's per-entry predicate, true unless the name starts with `.`.
pub fn filter_hidden(name: &str) -> (r: bool)
    ensures
        r == !(name@.len() > 0 && name@[0] == '.'),
{
    if name.unicode_len() > 0 {
        name.get_char(0) != '.'
    } else {
        true
    }
}

/// Keeps the entries whose lowercased extension is in the narrow table,
/// in enumeration order.
pub fn scan_folder_filter(entries: Vec<String>) -> (r: Vec<String>)
    ensures
        r@ == entries@.filter(shallow_pred()),
{
    let mut out: Vec<String> = Vec::new();
    let mut i: usize = 0;
    while i < entries.len()
        invariant
            i <= entries@.len(),
            out@ == entries@.take(i as int).filter(shallow_pred()),
        decreases entries@.len() - i,
    {
        let e = entries[i].clone();
        let keep = get_media_type(e.as_str()).is_ok();
        if keep {
            out.push(e);
        }
        proof {
            lemma_filter_take_step(entries@, shallow_pred(), i as int);
            assert(shallow_pred()(entries@[i as int]) == keep_shallow(e@));
        }
        i = i + 1;
    }
    proof {
        assert(entries@.take(entries@.len() as int) =~= entries@);
    }
    out
}

/// One step of filtering a prefix: extending the prefix by one element
/// extends the filtered prefix by that element when the predicate holds.
proof fn lemma_filter_take_step(s: Seq<String>, pred: spec_fn(String) -> bool, i: int)
    requires
        0 <= i < s.len(),
    ensures
        pred(s[i]) ==> s.take(i + 1).filter(pred) == s.take(i).filter(pred).push(s[i]),
        !pred(s[i]) ==> s.take(i + 1).filter(pred) == s.take(i).filter(pred),
{
    let t = s.take(i + 1);
    assert(t.drop_last() =~= s.take(i));
    reveal_with_fuel(Seq::filter, 2);
    if pred(s[i]) {
        assert(t.filter(pred) == t.drop_last().filter(pred).push(t.last()));
    }
}

/// Where the hidden-component check of a scanned path begins: at the
/// scanned folder's own file name when the path lies under the folder,
/// at the path's start otherwise.
pub open spec fn checked_start(root: Seq<char>, p: Seq<char>) -> int {
    if root.len() <= p.len() && p.take(root.len() as int) == root {
        file_name_start(root)
    } else {
        0
    }
}

/// Whether some component of `s` starts with the hidden-file marker.
pub open spec fn has_hidden_component(s: Seq<char>) -> bool {
    exists|i: int| 0 <= i < s.len() && #[trigger] s[i] == '.' && (i == 0 || is_sep(s[i - 1]))
}

/// What the recursive scan keeps: a narrow-table extension and no hidden
/// component from the scanned folder's name downward.
pub open spec fn keep_recursive(root: Seq<char>, p: Seq<char>) -> bool {
    media_kind_of(p) is Some && !has_hidden_component(p.skip(checked_start(root, p)))
}

/// The recursive filter as a predicate on path strings.
pub open spec fn recursive_pred(root: Seq<char>) -> spec_fn(String) -> bool {
    |p: String| keep_recursive(root, p@)
}

/// Looks for a hidden component of `p` at or after `start`.
fn has_hidden_from(p: &str, start: usize) -> (r: bool)
    requires
        start <= p@.len(),
    ensures
        r == has_hidden_component(p@.skip(start as int)),
{
    let ghost s = p@.skip(start as int);
    let len = p.unicode_len();
    let mut i = start;
    while i < len
        invariant
            start <= i <= len,
            len == p@.len(),
            s == p@.skip(start as int),
            forall|j: int|
                0 <= j < i - start ==> !(#[trigger] s[j] == '.' && (j == 0 || is_sep(
                    s[j - 1],
                ))),
        decreases len - i,
    {
        let c = p.get_char(i);
        if c == '.' && (i == start || is_sep_char(p.get_char(i - 1))) {
            proof {
                let j = i - start;
                assert(s[j] == '.' && (j == 0 || is_sep(s[j - 1])));
            }
            return true;
        }
        i = i + 1;
    }
    false
}

/// Whether `p` starts with `root`.
fn starts_with_root(p: &str, root: &str) -> (r: bool)
    ensures
        r == (root@.len() <= p@.len() && p@.take(root@.len() as int) == root@),
{
    let lr = root.unicode_len();
    let lp = p.unicode_len();
    if lr > lp {
        return false;
    }
    let mut i: usize = 0;
    while i < lr
        invariant
            i <= lr,
            lr == root@.len(),
            lr <= lp == p@.len(),
            forall|k: int| 0 <= k < i ==> p@[k] == root@[k],
        decreases lr - i,
    {
        if p.get_char(i) != root.get_char(i) {
            assert(p@.take(lr as int)[i as int] != root@[i as int]);
            return false;
        }
        i = i + 1;
    }
    proof {
        assert(p@.take(lr as int) =~= root@);
    }
    true
}

/// Keeps the entries of a recursive walk below `folder` that have a
/// narrow-table extension and no hidden component, in walk order.
pub fn scan_folder_recursive_filter(folder: &str, entries: Vec<String>) -> (r: Vec<String>)
    ensures
        r@ == entries@.filter(recursive_pred(folder@)),
{
    let mut out: Vec<String> = Vec::new();
    let mut i: usize = 0;
    while i < entries.len()
        invariant
            i <= entries@.len(),
            out@ == entries@.take(i as int).filter(recursive_pred(folder@)),
        decreases entries@.len() - i,
    {
        let e = entries[i].clone();
        let keep_ext = get_media_type(e.as_str()).is_ok();
        let start = if starts_with_root(e.as_str(), folder) {
            file_name_start_exec(folder)
        } else {
            0
        };
        proof {
            crate::paths::lemma_file_name_start_bounds(folder@);
        }
        assert(start as int == checked_start(folder@, e@));
        assert(start <= e@.len());
        let hidden = has_hidden_from(e.as_str(), start);
        if keep_ext && !hidden {
            out.push(e);
        }
        proof {
            lemma_filter_take_step(entries@, recursive_pred(folder@), i as int);
            assert(recursive_pred(folder@)(entries@[i as int]) == keep_recursive(
                folder@,
                e@,
            ));
        }
        i = i + 1;
    }
    proof {
        assert(entries@.take(entries@.len() as int) =~= entries@);
    }
    out
}

/// Law: whatever the recursive filter keeps has a recognized extension
/// and is free of hidden components from the scanned folder's own name
/// downward, whatever the walker yielded.
pub proof fn lemma_recursive_scan_excludes_hidden(
    root: Seq<char>,
    entries: Seq<String>,
    kept: Seq<String>,
    j: int,
)
    requires
        kept == entries.filter(recursive_pred(root)),
        0 <= j < kept.len(),
    ensures
        media_kind_of(kept[j]@) is Some,
        !has_hidden_component(kept[j]@.skip(checked_start(root, kept[j]@))),
{
    entries.lemma_filter_pred(recursive_pred(root), j);
    assert(recursive_pred(root)(kept[j]));
}

} // verus!
