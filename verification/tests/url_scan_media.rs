//! Display URLs, folder-scan filters, resolution extraction and the
//! assembled media record.

use media_core::media::load_media;
use media_core::resolution::get_gif_resolution;
use media_core::resolution::get_image_resolution;
use media_core::resolution::get_media_resolution;
use media_core::scan::filter_hidden;
use media_core::scan::scan_folder_filter;
use media_core::scan::scan_folder_recursive_filter;
use media_core::url::get_media_url;

fn png_bytes(width: u32, height: u32) -> Vec<u8> {
    let img = image::RgbImage::new(width, height);
    let mut buf: Vec<u8> = Vec::new();
    img.write_to(&mut std::io::Cursor::new(&mut buf), image::ImageFormat::Png)
        .unwrap();
    buf
}

#[test]
fn url_for_ordinary_path() {
    assert_eq!(
        get_media_url("/a/b/c.png", true),
        Ok("file:///a/b/c.png".to_string())
    );
}

#[test]
fn url_for_unc_path_has_no_triple_slash() {
    assert_eq!(
        get_media_url("\\\\server\\share\\c.png", true),
        Ok("file://server/share/c.png".to_string())
    );
}

#[test]
fn url_converts_windows_separators() {
    assert_eq!(
        get_media_url("C:\\pics\\a.png", true),
        Ok("file:///C:/pics/a.png".to_string())
    );
}

#[test]
fn url_fails_for_inaccessible_file() {
    assert_eq!(
        get_media_url("/a/b/c.png", false),
        Err("Cannot access file".to_string())
    );
}

#[test]
fn shallow_scan_keeps_only_media_extensions() {
    let entries = vec![
        "/dir/a.jpg".to_string(),
        "/dir/b.txt".to_string(),
        "/dir/c.GIF".to_string(),
        "/dir/sub".to_string(),
        "/dir/d.webm".to_string(),
        "/dir/e.webp".to_string(),
    ];
    let kept = scan_folder_filter(entries);
    assert_eq!(
        kept,
        vec![
            "/dir/a.jpg".to_string(),
            "/dir/c.GIF".to_string(),
            "/dir/d.webm".to_string(),
        ]
    );
}

#[test]
fn shallow_scan_does_not_exclude_hidden_entries() {
    let entries = vec![
        "/dir/.sneaky.jpg".to_string(),
        "/dir/plain.png".to_string(),
    ];
    let kept = scan_folder_filter(entries);
    assert_eq!(
        kept,
        vec!["/dir/.sneaky.jpg".to_string(), "/dir/plain.png".to_string()]
    );
}

#[test]
fn recursive_scan_excludes_hidden_components_at_any_depth() {
    let entries = vec![
        "/dir/a.jpg".to_string(),
        "/dir/.thumbs/b.png".to_string(),
        "/dir/sub/c.png".to_string(),
        "/dir/sub/.hidden.gif".to_string(),
        "/dir/sub/.cache/deep/d.mp4".to_string(),
        "/dir/sub/notes.txt".to_string(),
    ];
    let kept = scan_folder_recursive_filter("/dir", entries);
    assert_eq!(
        kept,
        vec!["/dir/a.jpg".to_string(), "/dir/sub/c.png".to_string()]
    );
}

#[test]
fn recursive_scan_checks_the_scanned_folder_name_too() {
    let entries = vec!["/top/.private/x.png".to_string()];
    let kept = scan_folder_recursive_filter("/top/.private", entries);
    assert_eq!(kept, Vec::<String>::new());
}

#[test]
fn hidden_filter_on_names() {
    assert!(filter_hidden("photo.jpg"));
    assert!(!filter_hidden(".thumbs"));
    assert!(filter_hidden(""));
}

#[test]
fn image_resolution_round_trip() {
    let buf = png_bytes(7, 5);
    let r = get_image_resolution(&buf).unwrap();
    assert_eq!(r.width, 7);
    assert_eq!(r.height, 5);
}

#[test]
fn image_resolution_fails_on_garbage() {
    let r = get_image_resolution(&[0u8, 1, 2, 3]);
    assert!(r.is_err());
}

#[test]
fn gif_resolution_from_header_only() {
    // Signature and logical screen descriptor: 13 x 7, no global palette,
    // then bytes that no frame decoder could accept.
    let mut bytes = vec![
        b'G', b'I', b'F', b'8', b'9', b'a', 13, 0, 7, 0, 0, 0, 0,
    ];
    bytes.extend_from_slice(&[0xFF, 0xFF, 0xFF]);
    let r = get_gif_resolution(&bytes).unwrap();
    assert_eq!(r.width, 13);
    assert_eq!(r.height, 7);
}

#[test]
fn gif_resolution_fails_on_bad_signature() {
    let r = get_gif_resolution(&[b'N', b'O', b'P', b'E']);
    assert!(r.is_err());
}

#[test]
fn video_resolution_is_zero_whatever_the_content() {
    let r = get_media_resolution(&[0xDE, 0xAD], "video").unwrap();
    assert_eq!((r.width, r.height), (0, 0));
    let r2 = get_media_resolution(&[], "video").unwrap();
    assert_eq!((r2.width, r2.height), (0, 0));
}

#[test]
fn resolution_rejects_unknown_kind() {
    let r = get_media_resolution(&[], "audio");
    assert_eq!(r.unwrap_err(), "Unsupported file type".to_string());
}

#[test]
fn load_media_assembles_the_record() {
    let buf = png_bytes(3, 4);
    let m = load_media("/pics/tiny.png", Some(buf.len() as u64), &buf).unwrap();
    assert_eq!(m.src, "file:///pics/tiny.png".to_string());
    assert_eq!(m.name, "tiny.png".to_string());
    assert_eq!(m.media_type, "image".to_string());
    assert_eq!(m.resolution.width, 3);
    assert_eq!(m.resolution.height, 4);
    assert_eq!(m.size, buf.len() as u64);
}

#[test]
fn load_media_reads_gif_header_dimensions() {
    let mut bytes = vec![
        b'G', b'I', b'F', b'8', b'9', b'a', 13, 0, 7, 0, 0, 0, 0,
    ];
    bytes.extend_from_slice(&[0xFF, 0xFF, 0xFF]);
    let m = load_media("/anim/loop.GIF", Some(16), &bytes).unwrap();
    assert_eq!(m.media_type, "gif".to_string());
    assert_eq!((m.resolution.width, m.resolution.height), (13, 7));
    assert_eq!(m.name, "loop.GIF".to_string());
}

#[test]
fn load_media_rejects_unsupported_extension() {
    let r = load_media("/pics/readme.txt", Some(9), &[1, 2, 3]);
    assert_eq!(r.err(), Some("Unsupported file type".to_string()));
}

#[test]
fn load_media_rejects_inaccessible_file() {
    let r = load_media("/pics/gone.png", None, &[]);
    assert_eq!(r.err(), Some("Cannot access file".to_string()));
}

#[test]
fn load_media_survives_a_corrupt_decode() {
    // Keep only the PNG signature: the format is still recognized, but
    // the header with the dimensions is gone.
    let mut buf = png_bytes(6, 6);
    buf.truncate(8);
    let cut = buf.len();
    let m = load_media("/pics/cut.png", Some(cut as u64), &buf).unwrap();
    assert_eq!((m.resolution.width, m.resolution.height), (0, 0));
    assert_eq!(m.media_type, "image".to_string());
    assert_eq!(m.src, "file:///pics/cut.png".to_string());
    assert_eq!(m.size, cut as u64);
}
