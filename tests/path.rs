use image_gallery::{extract_file_name, extract_file_path, file_extension};

#[test]
fn file_path_is_the_text() {
    assert_eq!(extract_file_path("/a/b/c.png"), "/a/b/c.png");
    assert_eq!(extract_file_path(""), "");
}

#[test]
fn file_name_drops_directories_and_extension() {
    assert_eq!(extract_file_name("/a/b/photo.png"), Some("photo".to_string()));
    assert_eq!(extract_file_name("photo.jpg"), Some("photo".to_string()));
    assert_eq!(extract_file_name("/a/b/archive.tar.gz"), Some("archive.tar".to_string()));
    assert_eq!(extract_file_name("/a/b/été.png"), Some("été".to_string()));
}

#[test]
fn file_name_without_extension_is_the_whole_name() {
    assert_eq!(extract_file_name("/a/b/README"), Some("README".to_string()));
    assert_eq!(extract_file_name("abcde"), Some("abcde".to_string()));
    assert_eq!(extract_file_name("/a/b/.hidden"), Some(".hidden".to_string()));
    assert_eq!(extract_file_name("/a.d/b"), Some("b".to_string()));
    assert_eq!(extract_file_name("/a/b/"), Some("".to_string()));
}

#[test]
fn windows_separators_split_components() {
    assert_eq!(extract_file_name("C:\\pics\\a.png"), Some("a".to_string()));
    assert_eq!(extract_file_name("C:\\pics/sub\\b.jpg"), Some("b".to_string()));
    assert_eq!(file_extension("C:\\pics.d\\readme"), None);
    assert_eq!(file_extension("C:\\pics\\a.png"), Some("png".to_string()));
}

#[test]
fn extension_is_text_after_last_dot() {
    assert_eq!(file_extension("/a/b/photo.png"), Some("png".to_string()));
    assert_eq!(file_extension("/a/b/x.tar.GZ"), Some("GZ".to_string()));
    assert_eq!(file_extension("/a/b/x."), Some("".to_string()));
    assert_eq!(file_extension("/a.d/b"), None);
    assert_eq!(file_extension(".png"), None);
}
