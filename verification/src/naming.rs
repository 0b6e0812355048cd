//! Collision-avoiding names for copies.
//!
//! The first candidate for a copy is the source's file name inside the
//! destination folder.  Each later candidate appends a parenthesized
//! counter to the stem: `name (1).ext`, `name (2).ext`, and for an
//! extensionless source `name (1)` with no trailing dot.  The caller
//! probes candidates in order until one names nothing on disk.

use vstd::prelude::*;
use crate::paths::is_sep;
use crate::paths::is_sep_char;
use crate::paths::file_name_seq;
use crate::paths::file_name_of;
use crate::paths::stem_seq;
use crate::paths::stem_of;
use crate::paths::extension_seq;
use crate::paths::extension_of;
use crate::text::dec_digits;
use crate::text::u64_to_string;

verus! {

/// A folder joined with a file name: a separator stands between them
/// unless the folder is empty or already ends with one.
pub open spec fn join_path(folder: Seq<char>, name: Seq<char>) -> Seq<char> {
    if folder.len() == 0 {
        name
    } else if is_sep(folder.last()) {
        folder + name
    } else {
        folder + seq!['/'] + name
    }
}

/// The `count`-th alternative name built from a stem and an extension.
pub open spec fn numbered_name(stem: Seq<char>, ext: Seq<char>, count: nat) -> Seq<char> {
    let base = stem + seq![' ', '('] + dec_digits(count) + seq![')'];
    if ext.len() == 0 {
        base
    } else {
        base + seq!['.'] + ext
    }
}

/// The candidate destination for copying `src` into `folder`: the plain
/// file name for `count` zero, a numbered alternative afterwards; no
/// candidate exists when the source path has no file name.
pub open spec fn copy_candidate(src: Seq<char>, folder: Seq<char>, count: nat) -> Option<
    Seq<char>,
> {
    if file_name_seq(src).len() == 0 {
        None
    } else if count == 0 {
        Some(join_path(folder, file_name_seq(src)))
    } else {
        Some(join_path(folder, numbered_name(stem_seq(src), extension_seq(src), count)))
    }
}

/// Joins a folder and a file name.
fn join(folder: &str, name: &str) -> (r: String)
    ensures
        r@ == join_path(folder@, name@),
{
    let lf = folder.unicode_len();
    let mut s = folder.to_owned();
    if lf > 0 && !is_sep_char(folder.get_char(lf - 1)) {
        s.append("/");
    }
    s.append(name);
    proof {
        reveal_strlit("/");
        assert(s@ =~= join_path(folder@, name@));
    }
    s
}

/// Builds the numbered alternative name.
fn make_numbered(stem: &str, ext: &str, count: u64) -> (r: String)
    ensures
        r@ == numbered_name(stem@, ext@, count as nat),
{
    let mut s = stem.to_owned();
    s.append(" (");
    let digits = u64_to_string(count);
    s.append(digits.as_str());
    s.append(")");
    if ext.unicode_len() > 0 {
        s.append(".");
        s.append(ext);
    }
    proof {
        reveal_strlit(" (");
        reveal_strlit(")");
        reveal_strlit(".");
        assert(s@ =~= numbered_name(stem@, ext@, count as nat));
    }
    s
}

/// The `count`-th destination path for copying `src_path` into
/// `dest_folder`.  The caller tries counts from zero upwards and keeps
/// the first that does not exist yet, so no copy ever overwrites.
pub fn copy_destination(src_path: &str, dest_folder: &str, count: u64) -> (r: Result<
    String,
    String,
>)
    ensures
        match copy_candidate(src_path@, dest_folder@, count as nat) {
            Some(p) => r is Ok && r->Ok_0@ == p,
            None => r is Err && r->Err_0@ == "Invalid source file name"@,
        },
{
    let name = file_name_of(src_path);
    if name.as_str().unicode_len() == 0 {
        return Err("Invalid source file name".to_owned());
    }
    if count == 0 {
        Ok(join(dest_folder, name.as_str()))
    } else {
        let stem = stem_of(src_path);
        let ext = extension_of(src_path);
        let numbered = make_numbered(stem.as_str(), ext.as_str(), count);
        Ok(join(dest_folder, numbered.as_str()))
    }
}

} // verus!
