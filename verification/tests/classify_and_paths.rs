//! Classification, names, parents and copy-candidate names.

use media_core::classify::get_media_type;
use media_core::classify::is_media_supported;
use media_core::classify::media_type_from_extension;
use media_core::naming::copy_destination;
use media_core::paths::get_media_name;
use media_core::paths::parent_folder;

#[test]
fn narrow_table_images() {
    assert_eq!(get_media_type("a.jpg"), Ok("image".to_string()));
    assert_eq!(get_media_type("a.jpeg"), Ok("image".to_string()));
    assert_eq!(get_media_type("/x/y/a.png"), Ok("image".to_string()));
}

#[test]
fn narrow_table_gif_and_video() {
    assert_eq!(get_media_type("anim.gif"), Ok("gif".to_string()));
    assert_eq!(get_media_type("v.mp4"), Ok("video".to_string()));
    assert_eq!(get_media_type("v.webm"), Ok("video".to_string()));
}

#[test]
fn narrow_table_case_insensitive() {
    assert_eq!(get_media_type("a.JPG"), get_media_type("a.jpg"));
    assert_eq!(get_media_type("a.Png"), Ok("image".to_string()));
    assert_eq!(get_media_type("a.GIF"), Ok("gif".to_string()));
    assert_eq!(get_media_type("a.WEBM"), Ok("video".to_string()));
}

#[test]
fn narrow_table_rejects_everything_else() {
    assert_eq!(get_media_type("a.txt"), Err("Unsupported file type".to_string()));
    assert_eq!(get_media_type("a.webp"), Err("Unsupported file type".to_string()));
    assert_eq!(get_media_type("noext"), Err("Unsupported file type".to_string()));
    assert_eq!(get_media_type(".png"), Err("Unsupported file type".to_string()));
    assert_eq!(get_media_type(""), Err("Unsupported file type".to_string()));
}

#[test]
fn broad_table_lookup() {
    assert_eq!(media_type_from_extension("webp"), Some("image"));
    assert_eq!(media_type_from_extension("tiff"), Some("image"));
    assert_eq!(media_type_from_extension("gif"), Some("image"));
    assert_eq!(media_type_from_extension("mkv"), Some("video"));
    assert_eq!(media_type_from_extension("webm"), Some("video"));
    assert_eq!(media_type_from_extension("txt"), None);
}

#[test]
fn broad_table_is_case_sensitive() {
    assert_eq!(media_type_from_extension("GIF"), None);
    assert!(!is_media_supported("MP4"));
    assert!(is_media_supported("mp4"));
    assert!(is_media_supported("bmp"));
    assert!(!is_media_supported(""));
}

#[test]
fn media_name_is_the_base_name() {
    assert_eq!(get_media_name("/a/b/c.png"), Ok("c.png".to_string()));
    assert_eq!(get_media_name("c.png"), Ok("c.png".to_string()));
    assert_eq!(get_media_name("\\\\server\\share\\c.png"), Ok("c.png".to_string()));
    assert_eq!(get_media_name("/a/b/"), Ok("".to_string()));
}

#[test]
fn parent_of_ordinary_paths() {
    assert_eq!(parent_folder("/dir/anything.txt"), Ok("/dir".to_string()));
    assert_eq!(parent_folder("/a/b/c.png"), Ok("/a/b".to_string()));
    assert_eq!(parent_folder("file.txt"), Ok("".to_string()));
    assert_eq!(parent_folder("/x.png"), Ok("/".to_string()));
    assert_eq!(parent_folder("C:\\pics\\a.png"), Ok("C:\\pics".to_string()));
}

#[test]
fn parent_of_degenerate_paths() {
    assert_eq!(parent_folder(""), Err("Cannot get parent folder".to_string()));
    assert_eq!(parent_folder("/"), Err("Cannot get parent folder".to_string()));
}

#[test]
fn copy_candidate_plain_then_numbered() {
    assert_eq!(
        copy_destination("/src/photo.jpg", "/dest", 0),
        Ok("/dest/photo.jpg".to_string())
    );
    assert_eq!(
        copy_destination("/src/photo.jpg", "/dest", 1),
        Ok("/dest/photo (1).jpg".to_string())
    );
    assert_eq!(
        copy_destination("/src/photo.jpg", "/dest", 2),
        Ok("/dest/photo (2).jpg".to_string())
    );
}

#[test]
fn copy_candidate_extensionless_omits_the_dot() {
    assert_eq!(copy_destination("/src/README", "/dest", 1), Ok("/dest/README (1)".to_string()));
}

#[test]
fn copy_candidate_dot_leading_name_counts_as_extensionless() {
    assert_eq!(
        copy_destination("/src/.config", "/dest", 1),
        Ok("/dest/.config (1)".to_string())
    );
}

#[test]
fn copy_candidate_multi_digit_counter() {
    assert_eq!(
        copy_destination("/src/photo.jpg", "/dest", 10),
        Ok("/dest/photo (10).jpg".to_string())
    );
    assert_eq!(
        copy_destination("/src/photo.jpg", "/dest", 203),
        Ok("/dest/photo (203).jpg".to_string())
    );
}

#[test]
fn copy_candidate_folder_with_trailing_separator() {
    assert_eq!(
        copy_destination("/src/photo.jpg", "/dest/", 0),
        Ok("/dest/photo.jpg".to_string())
    );
}

#[test]
fn copy_candidate_needs_a_file_name() {
    assert_eq!(
        copy_destination("/src/", "/dest", 0),
        Err("Invalid source file name".to_string())
    );
}
