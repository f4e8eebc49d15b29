use image_gallery::{collect_images, image_record, is_image_extension, PathMetadata, WalkEntry};

fn file(path: &str) -> WalkEntry {
    WalkEntry { path: path.to_string(), is_dir: false }
}

fn dir(path: &str) -> WalkEntry {
    WalkEntry { path: path.to_string(), is_dir: true }
}

fn summary(records: &[PathMetadata]) -> Vec<(String, String, String)> {
    let mut out: Vec<(String, String, String)> = records
        .iter()
        .map(|m| (m.path.clone(), m.file_name.clone(), m.ext.clone()))
        .collect();
    out.sort();
    out
}

#[test]
fn gallery_example_gives_three_records() {
    let entries = vec![
        file("/g/a.png"),
        file("/g/b.jpg"),
        file("/g/notes.txt"),
        dir("/g/sub"),
        file("/g/sub/c.png"),
    ];
    let records = collect_images(&entries);
    assert_eq!(records.len(), 3);
    assert_eq!(
        summary(&records),
        vec![
            ("/g/a.png".to_string(), "a".to_string(), "png".to_string()),
            ("/g/b.jpg".to_string(), "b".to_string(), "jpg".to_string()),
            ("/g/sub/c.png".to_string(), "c".to_string(), "png".to_string()),
        ]
    );
}

#[test]
fn records_keep_the_walk_order() {
    let entries = vec![file("x/2.png"), file("x/1.jpg")];
    let records = collect_images(&entries);
    assert_eq!(records[0].path, "x/2.png");
    assert_eq!(records[1].path, "x/1.jpg");
}

#[test]
fn no_image_files_give_no_records() {
    let entries = vec![
        file("/g/notes.txt"),
        file("/g/readme"),
        file("/g/photo.gif"),
        dir("/g/empty"),
        file("/g/photo.jpeg"),
    ];
    assert!(collect_images(&entries).is_empty());
}

#[test]
fn empty_walk_gives_no_records() {
    assert!(collect_images(&Vec::new()).is_empty());
}

#[test]
fn nested_image_files_are_all_counted() {
    let entries = vec![
        dir("r/a"),
        dir("r/a/b"),
        file("r/a/b/deep.png"),
        file("r/a/mid.jpg"),
        file("r/a/mid.txt"),
        file("r/top.png"),
    ];
    let records = collect_images(&entries);
    assert_eq!(records.len(), 3);
    for m in &records {
        assert!(m.ext == "png" || m.ext == "jpg");
        assert!(!m.file_name.contains('/'));
        assert!(!m.file_name.ends_with(".png") && !m.file_name.ends_with(".jpg"));
    }
}

#[test]
fn walk_order_does_not_change_the_records() {
    let first = vec![file("p/a.png"), dir("p/s"), file("p/s/b.jpg"), file("p/c.txt")];
    let second = vec![file("p/c.txt"), file("p/s/b.jpg"), dir("p/s"), file("p/a.png")];
    assert_eq!(summary(&collect_images(&first)), summary(&collect_images(&second)));
    assert_eq!(summary(&collect_images(&first)), summary(&collect_images(&first)));
}

#[test]
fn extension_match_is_case_sensitive() {
    assert!(image_record("g/A.PNG", false).is_none());
    assert!(image_record("g/b.Jpg", false).is_none());
    assert!(is_image_extension("png"));
    assert!(is_image_extension("jpg"));
    assert!(!is_image_extension("jpeg"));
    assert!(!is_image_extension("PNG"));
    assert!(!is_image_extension(""));
}

#[test]
fn directory_named_like_an_image_is_not_a_record() {
    assert!(image_record("g/album.png", true).is_none());
}

#[test]
fn record_name_comes_from_the_extension_length() {
    let m = image_record("/home/u/Pictures/holiday.v2.jpg", false).unwrap();
    assert_eq!(m.path, "/home/u/Pictures/holiday.v2.jpg");
    assert_eq!(m.file_name, "holiday.v2");
    assert_eq!(m.ext, "jpg");
}

#[test]
fn leading_dot_is_no_extension() {
    assert!(image_record("g/.png", false).is_none());
    let m = image_record("x.png", false).unwrap();
    assert_eq!(m.file_name, "x");
}

#[test]
fn windows_paths_give_bare_names() {
    let records = collect_images(&vec![file("C:\\Users\\u\\Pictures\\cat.png")]);
    assert_eq!(records.len(), 1);
    assert_eq!(records[0].file_name, "cat");
    assert_eq!(records[0].ext, "png");
    assert_eq!(records[0].path, "C:\\Users\\u\\Pictures\\cat.png");
}
