//! Turning a path into a `file:` URL for a display surface.
//!
//! Backslashes become forward slashes.  A UNC path (one starting with a
//! double backslash) gets the bare `file:` scheme so that no third slash
//! appears before the host; a path already rooted at a separator gets
//! `file://`, so exactly three slashes precede its first component; any
//! other path gets `file:///`.

use vstd::prelude::*;
use crate::paths::is_sep;
use crate::paths::is_sep_char;

verus! {

/// Every backslash replaced by a forward slash.
pub open spec fn slashify(s: Seq<char>) -> Seq<char> {
    s.map_values(|c: char| if c == '\\' { '/' } else { c })
}

/// A network-share path: it starts with a double backslash.
pub open spec fn is_unc(s: Seq<char>) -> bool {
    s.len() >= 2 && s[0] == '\\' && s[1] == '\\'
}

/// The display URL of a path.
pub open spec fn display_url(s: Seq<char>) -> Seq<char> {
    if is_unc(s) {
        "file:"@ + slashify(s)
    } else if s.len() >= 1 && is_sep(s[0]) {
        "file://"@ + slashify(s)
    } else {
        "file:///"@ + slashify(s)
    }
}

/// Builds the display URL for `path`.  The caller says whether the file
/// was accessible; an inaccessible file is a failure, since the record
/// would point nowhere.
pub fn get_media_url(path: &str, accessible: bool) -> (r: Result<String, String>)
    ensures
        accessible ==> r is Ok && r->Ok_0@ == display_url(path@),
        !accessible ==> r is Err && r->Err_0@ == "Cannot access file"@,
{
    if !accessible {
        return Err("Cannot access file".to_owned());
    }
    let len = path.unicode_len();
    let unc = len >= 2 && path.get_char(0) == '\\' && path.get_char(1) == '\\';
    let rooted = len >= 1 && is_sep_char(path.get_char(0));
    let mut s: String = if unc {
        "file:".to_owned()
    } else if rooted {
        "file://".to_owned()
    } else {
        "file:///".to_owned()
    };
    let ghost prefix = s@;
    let mut i: usize = 0;
    while i < len
        invariant
            i <= len,
            len == path@.len(),
            s@ == prefix + slashify(path@.take(i as int)),
        decreases len - i,
    {
        let c = path.get_char(i);
        if c == '\\' {
            s.append("/");
        } else {
            s.append(path.substring_char(i, i + 1));
        }
        proof {
            reveal_strlit("/");
            assert(path@.subrange(i as int, i + 1) =~= seq![path@[i as int]]);
            assert(slashify(path@.take(i + 1)) =~= slashify(path@.take(i as int)) + seq![
                if path@[i as int] == '\\' {
                    '/'
                } else {
                    path@[i as int]
                },
            ]);
            assert(s@ =~= prefix + slashify(path@.take(i + 1)));
        }
        i = i + 1;
    }
    proof {
        assert(path@.take(len as int) =~= path@);
    }
    Ok(s)
}

} // verus!
