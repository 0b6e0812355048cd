//! Pixel dimensions of media content.
//!
//! Raster images and GIF streams are decoded only far enough to read
//! their dimensions, from bytes already in memory.  The decoders come
//! from outside crates; what they return for given bytes is named, and
//! everything around the calls is verified against those names.  Video
//! content is never decoded: its resolution is the (0, 0) sentinel.

use vstd::prelude::*;
use std::io::Cursor;
use crate::text::str_eq;

verus! {

/// A width and height in pixels; (0, 0) means "not computed".
#[derive(Clone, Copy, PartialEq, Eq, Structural, Debug)]
pub struct MediaResolution {
    pub width: u32,
    pub height: u32,
}

/// The dimensions that a raster-image decode of `bytes` yields, with the
/// concrete format guessed from the content; nothing when the format
/// cannot be determined or the header is malformed.
pub uninterp spec fn image_dims_of(bytes: Seq<u8>) -> Option<(u32, u32)>;

/// The dimensions that a GIF header read of `bytes` yields; nothing when
/// the signature or the header is malformed.
pub uninterp spec fn gif_dims_of(bytes: Seq<u8>) -> Option<(u32, u32)>;

/// Relies on image::ImageReader::with_guessed_format and
/// ImageReader::into_dimensions: reading dimensions from an in-memory
/// buffer returns a function of the bytes alone.  Format guessing also
/// consults a process-wide hook registry, which starts empty and which
/// nothing here ever adds to, so the built-in byte signatures decide.
#[verifier::external_body]
fn image_dims_from_bytes(bytes: &[u8]) -> (r: Result<(u32, u32), String>)
    ensures
        match r {
            Ok(d) => image_dims_of(bytes@) == Some(d),
            Err(_) => image_dims_of(bytes@) is None,
        },
{
    let reader = match image::ImageReader::new(Cursor::new(bytes)).with_guessed_format() {
        Ok(reader) => reader,
        Err(e) => return Err(e.to_string()),
    };
    match reader.into_dimensions() {
        Ok(d) => Ok(d),
        Err(e) => Err(e.to_string()),
    }
}

/// Relies on gif::DecodeOptions::read_info with RGBA color output and on
/// gif::Decoder::width and height: the screen descriptor read from an
/// in-memory buffer is a function of the bytes alone, and no frame is
/// decoded.
#[verifier::external_body]
fn gif_dims_from_bytes(bytes: &[u8]) -> (r: Result<(u32, u32), String>)
    ensures
        match r {
            Ok(d) => gif_dims_of(bytes@) == Some(d),
            Err(_) => gif_dims_of(bytes@) is None,
        },
{
    let mut options = gif::DecodeOptions::new();
    options.set_color_output(gif::ColorOutput::RGBA);
    match options.read_info(Cursor::new(bytes)) {
        Ok(reader) => Ok((reader.width() as u32, reader.height() as u32)),
        Err(e) => Err(e.to_string()),
    }
}

/// The dimensions of raster-image content.
pub fn get_image_resolution(bytes: &[u8]) -> (r: Result<MediaResolution, String>)
    ensures
        match image_dims_of(bytes@) {
            Some(d) => r is Ok && r->Ok_0.width == d.0 && r->Ok_0.height == d.1,
            None => r is Err,
        },
{
    match image_dims_from_bytes(bytes) {
        Ok(d) => Ok(MediaResolution { width: d.0, height: d.1 }),
        Err(e) => Err(e),
    }
}

/// The dimensions in a GIF stream's header; no frame need be decodable.
pub fn get_gif_resolution(bytes: &[u8]) -> (r: Result<MediaResolution, String>)
    ensures
        match gif_dims_of(bytes@) {
            Some(d) => r is Ok && r->Ok_0.width == d.0 && r->Ok_0.height == d.1,
            None => r is Err,
        },
{
    match gif_dims_from_bytes(bytes) {
        Ok(d) => Ok(MediaResolution { width: d.0, height: d.1 }),
        Err(e) => Err(e),
    }
}

/// The resolution a media kind yields for given content: the image or
/// GIF decode for those kinds, the (0, 0) sentinel for video whatever
/// the bytes, nothing for anything else.
pub open spec fn media_resolution_spec(kind: Seq<char>, bytes: Seq<u8>) -> Option<(u32, u32)> {
    if kind == "image"@ {
        image_dims_of(bytes)
    } else if kind == "gif"@ {
        gif_dims_of(bytes)
    } else if kind == "video"@ {
        Some((0u32, 0u32))
    } else {
        None
    }
}

/// Law: the video kind yields the (0, 0) sentinel for every content,
/// valid or not — nothing is ever demuxed.
pub proof fn lemma_video_resolution_sentinel(bytes: Seq<u8>)
    ensures
        media_resolution_spec("video"@, bytes) == Some((0u32, 0u32)),
{
    reveal_strlit("image");
    reveal_strlit("gif");
    reveal_strlit("video");
    assert("video"@.len() == 5 && "gif"@.len() == 3);
    assert("video"@[0] == 'v' && "image"@[0] == 'i');
}

/// Dispatches resolution extraction on the media kind.  Video always
/// succeeds with the sentinel, without looking at the content; a kind
/// outside the table is a failure.
pub fn get_media_resolution(bytes: &[u8], media_type: &str) -> (r: Result<
    MediaResolution,
    String,
>)
    ensures
        match media_resolution_spec(media_type@, bytes@) {
            Some(d) => r is Ok && r->Ok_0.width == d.0 && r->Ok_0.height == d.1,
            None => r is Err,
        },
        !(media_type@ == "image"@ || media_type@ == "gif"@ || media_type@ == "video"@)
            ==> r is Err && r->Err_0@ == "Unsupported file type"@,
{
    if str_eq(media_type, "image") {
        get_image_resolution(bytes)
    } else if str_eq(media_type, "gif") {
        get_gif_resolution(bytes)
    } else if str_eq(media_type, "video") {
        Ok(MediaResolution { width: 0, height: 0 })
    } else {
        Err("Unsupported file type".to_owned())
    }
}

} // verus!
