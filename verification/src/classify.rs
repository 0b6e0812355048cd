//! Media-type classification from file extensions.
//!
//! Two deliberately separate tables exist: a narrow one that gates loading
//! and both folder scans, and a broader one behind the general "is this
//! extension supported" predicate.  They are kept apart on purpose.

use vstd::prelude::*;
use crate::paths::extension_seq;
use crate::paths::extension_of;
use crate::text::lower_seq;
use crate::text::eq_lowercased;
use crate::text::str_eq;

verus! {

/// The narrow classification table, applied to an already lowercased
/// extension: jpg, jpeg, png are images; gif is its own kind; mp4 and
/// webm are videos.  Everything else is unsupported.
pub open spec fn narrow_kind(ext: Seq<char>) -> Option<Seq<char>> {
    if ext == "jpg"@ || ext == "jpeg"@ || ext == "png"@ {
        Some("image"@)
    } else if ext == "gif"@ {
        Some("gif"@)
    } else if ext == "mp4"@ || ext == "webm"@ {
        Some("video"@)
    } else {
        None
    }
}

/// The lowercased extension of a path.
pub open spec fn ext_lower(path: Seq<char>) -> Seq<char> {
    lower_seq(extension_seq(path))
}

/// The kind of a path under the narrow table, extension lowercased.
pub open spec fn media_kind_of(path: Seq<char>) -> Option<Seq<char>> {
    narrow_kind(ext_lower(path))
}

/// Classifies `path` by its extension, case-insensitively, under the
/// narrow table; unrecognized extensions are a failure, not a kind.
pub fn get_media_type(path: &str) -> (r: Result<String, String>)
    ensures
        match media_kind_of(path@) {
            Some(k) => r is Ok && r->Ok_0@ == k,
            None => r is Err && r->Err_0@ == "Unsupported file type"@,
        },
{
    let ext = extension_of(path);
    let e = ext.as_str();
    if eq_lowercased(e, "jpg") || eq_lowercased(e, "jpeg") || eq_lowercased(e, "png") {
        Ok("image".to_owned())
    } else if eq_lowercased(e, "gif") {
        Ok("gif".to_owned())
    } else if eq_lowercased(e, "mp4") || eq_lowercased(e, "webm") {
        Ok("video".to_owned())
    } else {
        Err("Unsupported file type".to_owned())
    }
}

/// The broad support table, applied to an extension exactly as given:
/// more raster formats count as images and more containers as videos.
pub open spec fn broad_kind(ext: Seq<char>) -> Option<Seq<char>> {
    if ext == "gif"@ || ext == "png"@ || ext == "jpg"@ || ext == "jpeg"@ || ext == "webp"@
        || ext == "bmp"@ || ext == "tiff"@ {
        Some("image"@)
    } else if ext == "mp4"@ || ext == "mov"@ || ext == "avi"@ || ext == "mkv"@
        || ext == "webm"@ {
        Some("video"@)
    } else {
        None
    }
}

/// Looks a bare extension up in the broad table.
pub fn media_type_from_extension(ext: &str) -> (r: Option<&'static str>)
    ensures
        match broad_kind(ext@) {
            Some(k) => r is Some && r->0@ == k,
            None => r is None,
        },
{
    if str_eq(ext, "gif") || str_eq(ext, "png") || str_eq(ext, "jpg") || str_eq(ext, "jpeg")
        || str_eq(ext, "webp") || str_eq(ext, "bmp") || str_eq(ext, "tiff") {
        Some("image")
    } else if str_eq(ext, "mp4") || str_eq(ext, "mov") || str_eq(ext, "avi")
        || str_eq(ext, "mkv") || str_eq(ext, "webm") {
        Some("video")
    } else {
        None
    }
}

/// Whether a bare extension is in the broad support table.
pub fn is_media_supported(ext: &str) -> (r: bool)
    ensures
        r == (broad_kind(ext@) is Some),
{
    media_type_from_extension(ext).is_some()
}

/// Law: classification is case-insensitive — two paths whose extensions
/// agree up to ASCII case are classified the same.
pub proof fn lemma_classify_case_insensitive(a: Seq<char>, b: Seq<char>)
    requires
        lower_seq(extension_seq(a)) == lower_seq(extension_seq(b)),
    ensures
        media_kind_of(a) == media_kind_of(b),
{
}

/// Law: changing a path's ASCII case never changes its kind — the fully
/// lowercased path classifies exactly as the path itself does.
pub proof fn lemma_classify_ignores_case(p: Seq<char>)
    ensures
        media_kind_of(lower_seq(p)) == media_kind_of(p),
{
    crate::paths::lemma_lower_extension(p);
    crate::text::lemma_lower_seq_idempotent(extension_seq(p));
}

} // verus!
