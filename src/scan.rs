//! Choosing the image files among the entries that a directory walk visits.
use vstd::prelude::*;
use crate::path::{
    extension_of, extract_file_name, extract_file_path, file_extension, file_name_of,
    has_no_separator, is_separator, last_index_of, lemma_file_name_of, lemma_last_index_of,
    stem_of,
};

verus! {

/// One image file found by a scan.
pub struct PathMetadata {
    /// The file's path as text.
    pub path: String,
    /// The file's name without its directories and without its extension.
    pub file_name: String,
    /// The file's extension, one of `jpg` and `png`.
    pub ext: String,
}

/// What a `PathMetadata` holds, as sequences of characters.
pub struct ImageRecord {
    pub path: Seq<char>,
    pub file_name: Seq<char>,
    pub ext: Seq<char>,
}

impl View for PathMetadata {
    type V = ImageRecord;

    open spec fn view(&self) -> ImageRecord {
        ImageRecord { path: self.path@, file_name: self.file_name@, ext: self.ext@ }
    }
}

/// One entry that a directory walk visited: its path, and whether it is a directory.
pub struct WalkEntry {
    pub path: String,
    pub is_dir: bool,
}

impl View for WalkEntry {
    type V = (Seq<char>, bool);

    open spec fn view(&self) -> (Seq<char>, bool) {
        (self.path@, self.is_dir)
    }
}

/// The extensions that mark a file as an image, compared exactly (`PNG` is not one).
pub open spec fn is_image_ext(e: Seq<char>) -> bool {
    e == seq!['j', 'p', 'g'] || e == seq!['p', 'n', 'g']
}

/// A walk entry is an image file when it is no directory and its extension is an image one.
pub open spec fn is_image_file(e: (Seq<char>, bool)) -> bool {
    &&& !e.1
    &&& extension_of(e.0) is Some
    &&& is_image_ext(extension_of(e.0)->0)
}

/// The record a scan makes of a walk entry, if any.
pub open spec fn record_of(e: (Seq<char>, bool)) -> Option<ImageRecord> {
    if is_image_file(e) {
        Some(ImageRecord { path: e.0, file_name: stem_of(e.0), ext: extension_of(e.0)->0 })
    } else {
        None
    }
}

/// The records of a walk, in the order in which the walk visited the entries.
pub open spec fn images_of(entries: Seq<(Seq<char>, bool)>) -> Seq<ImageRecord> {
    entries.filter_map(|e: (Seq<char>, bool)| record_of(e))
}

/// The entries of a walk that are image files.
pub open spec fn image_files(entries: Seq<(Seq<char>, bool)>) -> Seq<(Seq<char>, bool)> {
    entries.filter(|e: (Seq<char>, bool)| is_image_file(e))
}

/// A record as a scan makes it: an image extension, and a name that is the last
/// component of the path with `.` and that extension taken off.
pub open spec fn record_well_formed(r: ImageRecord) -> bool {
    &&& is_image_ext(r.ext)
    &&& has_no_separator(r.file_name)
    &&& r.file_name + seq!['.'] + r.ext == file_name_of(r.path)
}

proof fn lemma_record_of_well_formed(e: (Seq<char>, bool))
    requires
        record_of(e) is Some,
    ensures
        record_well_formed(record_of(e)->0),
{
    let name = file_name_of(e.0);
    lemma_file_name_of(e.0);
    lemma_last_index_of(name, '.');
    let d = last_index_of(name, '.');
    let stem = name.subrange(0, d);
    assert(stem + seq!['.'] + name.subrange(d + 1, name.len() as int) =~= name);
    assert forall|j: int| 0 <= j < stem.len() implies !is_separator(#[trigger] stem[j]) by {
        assert(stem[j] == name[j]);
    }
}

proof fn lemma_images_of_contains(s: Seq<(Seq<char>, bool)>, t: (Seq<char>, bool))
    requires
        s.contains(t),
        record_of(t) is Some,
    ensures
        images_of(s).contains(record_of(t)->0),
    decreases s.len(),
{
    let rest = s.drop_last();
    if s.last() == t {
        assert(images_of(s) == images_of(rest) + seq![record_of(t)->0]);
        assert(images_of(s)[images_of(rest).len() as int] == record_of(t)->0);
    } else {
        let i = choose|i: int| 0 <= i < s.len() && s[i] == t;
        assert(rest[i] == t);
        lemma_images_of_contains(rest, t);
        let k = choose|k: int| 0 <= k < images_of(rest).len() && images_of(rest)[k] == record_of(t)->0;
        assert(images_of(s)[k] == record_of(t)->0);
    }
}

/// A walk that meets no image file gives no record.
pub proof fn lemma_no_image_files_no_records(entries: Seq<(Seq<char>, bool)>)
    requires
        forall|i: int| 0 <= i < entries.len() ==> !is_image_file(#[trigger] entries[i]),
    ensures
        images_of(entries).len() == 0,
{
    if images_of(entries).len() > 0 {
        let r = images_of(entries)[0];
        assert(images_of(entries).contains(r));
        entries.lemma_filter_map_contains(|e: (Seq<char>, bool)| record_of(e), r);
        let t = choose|t: (Seq<char>, bool)| entries.contains(t) && record_of(t) == Some(r);
        let i = choose|i: int| 0 <= i < entries.len() && entries[i] == t;
        assert(is_image_file(entries[i]));
    }
}

/// A walk gives exactly one record for each image file among its entries, and each
/// record has an image extension and a name free of directories and extension.
pub proof fn lemma_one_record_per_image_file(entries: Seq<(Seq<char>, bool)>)
    ensures
        images_of(entries).len() == image_files(entries).len(),
        forall|k: int|
            0 <= k < images_of(entries).len() ==> record_well_formed(
                #[trigger] images_of(entries)[k],
            ),
    decreases entries.len(),
{
    reveal(Seq::filter);
    if entries.len() > 0 {
        let rest = entries.drop_last();
        let last = entries.last();
        lemma_one_record_per_image_file(rest);
        if is_image_file(last) {
            lemma_record_of_well_formed(last);
            assert(images_of(entries) == images_of(rest) + seq![record_of(last)->0]);
            assert(image_files(entries) == image_files(rest).push(last));
            assert forall|k: int| 0 <= k < images_of(entries).len() implies record_well_formed(
                #[trigger] images_of(entries)[k],
            ) by {
                if k < images_of(rest).len() {
                    assert(images_of(entries)[k] == images_of(rest)[k]);
                }
            }
        } else {
            assert(images_of(entries) == images_of(rest));
            assert(image_files(entries) == image_files(rest));
        }
    }
}

/// The records of a walk do not depend on the order in which it met the entries:
/// two walks that met the same entries give the same records.
pub proof fn lemma_scan_order_irrelevant(a: Seq<(Seq<char>, bool)>, b: Seq<(Seq<char>, bool)>)
    requires
        a.to_set() == b.to_set(),
    ensures
        images_of(a).to_set() == images_of(b).to_set(),
{
    assert forall|r: ImageRecord| images_of(a).contains(r) implies images_of(b).contains(r) by {
        a.lemma_filter_map_contains(|e: (Seq<char>, bool)| record_of(e), r);
        let t = choose|t: (Seq<char>, bool)| a.contains(t) && record_of(t) == Some(r);
        assert(a.to_set().contains(t));
        lemma_images_of_contains(b, t);
    }
    assert forall|r: ImageRecord| images_of(b).contains(r) implies images_of(a).contains(r) by {
        b.lemma_filter_map_contains(|e: (Seq<char>, bool)| record_of(e), r);
        let t = choose|t: (Seq<char>, bool)| b.contains(t) && record_of(t) == Some(r);
        assert(b.to_set().contains(t));
        lemma_images_of_contains(a, t);
    }
    assert(images_of(a).to_set() =~= images_of(b).to_set());
}

/// Whether `ext` is one of the image extensions.
pub fn is_image_extension(ext: &str) -> (r: bool)
    ensures
        r == is_image_ext(ext@),
{
    if ext.unicode_len() != 3 {
        return false;
    }
    let a = ext.get_char(0);
    let b = ext.get_char(1);
    let c = ext.get_char(2);
    assert(ext@ =~= seq![a, b, c]);
    (a == 'j' && b == 'p' && c == 'g') || (a == 'p' && b == 'n' && c == 'g')
}

/// The record of one walk entry: `Some` exactly for a file with an image extension.
pub fn image_record(path: &str, is_dir: bool) -> (r: Option<PathMetadata>)
    ensures
        match r {
            Some(m) => record_of((path@, is_dir)) == Some(m@),
            None => record_of((path@, is_dir)) is None,
        },
{
    if is_dir {
        return None;
    }
    match file_extension(path) {
        Some(ext) => {
            if is_image_extension(ext.as_str()) {
                let file_name = extract_file_name(path).unwrap();
                Some(PathMetadata { path: extract_file_path(path), file_name, ext })
            } else {
                None
            }
        },
        None => None,
    }
}

/// The records of the image files among the entries of a walk, in the walk's order.
pub fn collect_images(entries: &Vec<WalkEntry>) -> (r: Vec<PathMetadata>)
    ensures
        r@.map_values(|m: PathMetadata| m@) == images_of(entries@.map_values(|e: WalkEntry| e@)),
{
    let ghost seen = entries@.map_values(|e: WalkEntry| e@);
    let mut images: Vec<PathMetadata> = Vec::new();
    let mut i: usize = 0;
    while i < entries.len()
        invariant
            i <= entries.len(),
            seen == entries@.map_values(|e: WalkEntry| e@),
            images@.map_values(|m: PathMetadata| m@) == images_of(seen.take(i as int)),
        decreases entries.len() - i,
    {
        let entry = &entries[i];
        let found = image_record(entry.path.as_str(), entry.is_dir);
        proof {
            seen.lemma_filter_map_take_succ(|e: (Seq<char>, bool)| record_of(e), i as int);
        }
        match found {
            Some(m) => {
                images.push(m);
                assert(images@.map_values(|m: PathMetadata| m@) =~= images_of(
                    seen.take(i + 1),
                ));
            },
            None => {},
        }
        i = i + 1;
    }
    assert(seen.take(entries.len() as int) =~= seen);
    images
}

} // verus!
