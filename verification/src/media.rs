//! Assembling the record for one media file.
//!
//! Classification and the display URL are fatal when they fail: without
//! a kind or a displayable location the record is meaningless.  A failed
//! resolution decode or size lookup is not: the record gets the zero
//! sentinel instead, so one odd file cannot abort a whole listing.

use vstd::prelude::*;
use crate::classify::media_kind_of;
use crate::classify::get_media_type;
use crate::paths::file_name_seq;
use crate::paths::file_name_of;
use crate::resolution::MediaResolution;
use crate::resolution::media_resolution_spec;
use crate::resolution::get_media_resolution;
use crate::url::display_url;
use crate::url::get_media_url;

verus! {

/// The externally visible result of loading one file.
pub struct MediaInfo {
    pub src: String,
    pub name: String,
    pub media_type: String,
    pub resolution: MediaResolution,
    pub size: u64,
}

/// The resolution recorded for a kind and content: the decode result,
/// or the (0, 0) sentinel when the decode fails.
pub open spec fn recorded_resolution(kind: Seq<char>, bytes: Seq<u8>) -> MediaResolution {
    match media_resolution_spec(kind, bytes) {
        Some(d) => (MediaResolution { width: d.0, height: d.1 }),
        None => (MediaResolution { width: 0, height: 0 }),
    }
}

/// Builds the record for one file from its path, the byte size its
/// metadata gave (`None` when the file is inaccessible), and its
/// content as read (empty or partial content merely degrades the
/// resolution to the sentinel).
pub fn load_media(path: &str, meta_size: Option<u64>, content: &[u8]) -> (r: Result<
    MediaInfo,
    String,
>)
    ensures
        media_kind_of(path@) is None ==> r is Err && r->Err_0@ == "Unsupported file type"@,
        media_kind_of(path@) is Some && meta_size is None ==> r is Err && r->Err_0@
            == "Cannot access file"@,
        media_kind_of(path@) is Some && meta_size is Some ==> r is Ok && {
            let m = r->Ok_0;
            &&& m.src@ == display_url(path@)
            &&& m.name@ == file_name_seq(path@)
            &&& m.media_type@ == media_kind_of(path@)->0
            &&& m.resolution == recorded_resolution(media_kind_of(path@)->0, content@)
            &&& m.size == meta_size->0
        },
{
    let media_type = match get_media_type(path) {
        Ok(t) => t,
        Err(e) => return Err(e),
    };
    let src = match get_media_url(path, meta_size.is_some()) {
        Ok(u) => u,
        Err(e) => return Err(e),
    };
    let name = file_name_of(path);
    let resolution = match get_media_resolution(content, media_type.as_str()) {
        Ok(res) => res,
        Err(_) => MediaResolution { width: 0, height: 0 },
    };
    let size = match meta_size {
        Some(s) => s,
        None => 0,
    };
    Ok(MediaInfo { src, name, media_type, resolution, size })
}

} // verus!
