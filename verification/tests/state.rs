use squash::cache_path::{cache_file_name, cache_path_for, SbmcStore};
use squash::dropzone::{eq_ignore_ascii_case, has_valid_extension, DropZone, DroppedPath, VALID_EXTENSIONS};
use squash::load_state::{LoadState, PaintAction};
use squash::path_formatter::PathFormatter;
use squash::path_key::{same_path, PathPart};
use squash::preview::{Preview, PreviewData, PreviewStatus};
use squash::theme::{theme_kind_for, Appearance, ThemeKind};
use squash::utilities::{get_random_in_range, human_size, push_decimal, random_in_range_from_seed};
use std::collections::hash_map::DefaultHasher;
use std::hash::{Hash, Hasher};
use std::path::Path;

fn key(path: &str) -> Vec<PathPart> {
    DroppedPath::from_path(path, true).key
}

fn dropped(path: &str, is_file: bool) -> DroppedPath {
    DroppedPath::from_path(path, is_file)
}

fn formatter(path: &str) -> PathFormatter {
    PathFormatter::new(path.to_string(), true).unwrap()
}

fn data(original: u64, compressed: u64, index: usize) -> PreviewData {
    PreviewData {
        path: "/p/a.png".to_string(),
        name: "a.png".to_string(),
        original_bytes: original,
        compressed_bytes: compressed,
        index,
        is_processing: false,
        is_error: false,
    }
}

#[test]
fn cache_file_names_are_zero_padded_hex() {
    assert_eq!(cache_file_name(0), "0000000000000000.sbmc");
    assert_eq!(cache_file_name(0xdead_beef), "00000000deadbeef.sbmc");
    assert_eq!(cache_file_name(u64::MAX), "ffffffffffffffff.sbmc");
    for h in [1u64, 0x0123_4567_89ab_cdef, 1 << 63] {
        assert_eq!(cache_file_name(h), format!("{:016x}.sbmc", h));
    }
}

#[test]
fn distinct_hashes_give_distinct_names() {
    assert_ne!(cache_file_name(1), cache_file_name(16));
    assert_eq!(cache_file_name(12345).len(), 21);
}

#[test]
fn cache_path_without_directory_sits_next_to_the_source() {
    assert_eq!(cache_path_for("/photos/cat.png", None), "/photos/cat.png.sbmc");
    assert_eq!(cache_path_for("", None), ".sbmc");
}

#[test]
fn cache_path_in_directory_is_named_after_the_path_hash() {
    let source = "/photos/cat.png";
    let mut h = DefaultHasher::new();
    Path::new(source).hash(&mut h);
    let expected = Path::new("/tmp/squash").join(format!("{:016x}.sbmc", h.finish()));
    let got = cache_path_for(source, Some("/tmp/squash"));
    assert_eq!(got, expected.to_string_lossy());
    assert!(got.starts_with("/tmp/squash"));
    assert_ne!(got, cache_path_for("/photos/dog.png", Some("/tmp/squash")));
    let store = SbmcStore::new("/tmp/squash".to_string());
    assert_eq!(store.cache_dir(), "/tmp/squash");
    assert_eq!(store.cache_path(source), got);
    assert_eq!(store.clone().cache_dir(), "/tmp/squash");
}

#[test]
fn extensions_match_in_any_case() {
    assert_eq!(VALID_EXTENSIONS, ["jpg", "jpeg", "png", "gif", "webp", "tiff"]);
    for e in ["jpg", "JPG", "JpEg", "png", "GIF", "webp", "TIFF"] {
        assert!(has_valid_extension(e), "{}", e);
    }
    for e in ["", "bmp", "pn", "pngg", "jpé", "tif"] {
        assert!(!has_valid_extension(e), "{}", e);
    }
    assert!(eq_ignore_ascii_case("Hello", "hELLO"));
    assert!(!eq_ignore_ascii_case("Hello", "Help"));
    assert!(!eq_ignore_ascii_case("é", "É"));
}

#[test]
fn drop_filter_keeps_new_supported_files_in_order() {
    let mut zone = DropZone::new();
    let first = [
        dropped("/a.PNG", true),
        dropped("/b.txt", true),
        dropped("/dir.png", false),
        dropped("/noext", true),
        dropped("/c.jpeg", true),
        dropped("/a.PNG", true),
    ];
    let kept = zone.filter_paths(&first);
    assert_eq!(kept, vec![0, 4, 5]);
    let f = formatter("/a.PNG");
    let d = zone.push_file(&f, Some(10), Some(12), 0);
    assert_eq!(zone.file_count(), 1);
    assert!(d.is_processing && !d.is_error);
    assert_eq!((d.original_bytes, d.compressed_bytes, d.index), (12, 10, 0));
    assert_eq!(d.name, "a.PNG");
    assert_eq!(d.path, "/a.PNG");
    let again = zone.filter_paths(&[dropped("/a.PNG", true), dropped("/d.gif", true)]);
    assert_eq!(again, vec![1]);
}

#[test]
fn drop_filter_compares_paths_by_components() {
    let mut zone = DropZone::new();
    zone.push_file(&formatter("/a/b.png"), Some(1), Some(1), 0);
    let kept = zone.filter_paths(&[
        dropped("/a/./b.png", true),
        dropped("/a//b.png", true),
        dropped("/a/b.png/", true),
        dropped("/a/../a/b.png", true),
        dropped("a/b.png", true),
    ]);
    assert_eq!(kept, vec![3, 4]);
    assert!(same_path(&key("/a/./b.png"), &key("/a/b.png")));
    assert!(!same_path(&key("/a/b.png"), &key("/a/c.png")));
    assert!(!same_path(&key("/a/b.png"), &key("a/b.png")));
}

#[test]
fn placeholder_text_follows_drag_until_files_arrive() {
    let mut zone = DropZone::new();
    assert_eq!(zone.placeholder(), Some("Drag & Drop your files here"));
    zone.set_active_drag(true);
    assert_eq!(zone.placeholder(), Some("Drop your files here"));
    zone.push_file(&formatter("/a.png"), Some(1), Some(1), 0);
    assert_eq!(zone.placeholder(), None);
}

#[test]
fn dropped_paths_are_read_from_their_text() {
    let d = dropped("/photos/cat.tar.JPG", true);
    assert_eq!(d.extension.as_deref(), Some("JPG"));
    assert!(d.is_file);
    assert!(same_path(
        &d.key,
        &[
            PathPart::RootDir,
            PathPart::Normal(b"photos".to_vec()),
            PathPart::Normal(b"cat.tar.JPG".to_vec()),
        ],
    ));
    assert!(same_path(
        &dropped("./a/../b", false).key,
        &[
            PathPart::CurDir,
            PathPart::Normal(b"a".to_vec()),
            PathPart::ParentDir,
            PathPart::Normal(b"b".to_vec()),
        ],
    ));
    assert!(same_path(&dropped("", true).key, &[]));
    assert_eq!(dropped(".bashrc", true).extension, None);
    assert_eq!(dropped("noext", true).extension, None);
    assert_eq!(dropped("a.", true).extension.as_deref(), Some(""));
    assert_eq!(dropped("/", true).extension, None);
    assert!(!dropped("/x.png", false).is_file);
}

#[test]
fn file_names_come_from_the_path() {
    assert_eq!(formatter("/tmp/photos/cat.JPG").file_name(), "cat.JPG");
    assert_eq!(formatter("/tmp/photos/cat.JPG/").file_name(), "cat.JPG");
    assert_eq!(formatter("/tmp/photos/cat.JPG/.").file_name(), "cat.JPG");
    assert_eq!(formatter("cat").file_name(), "cat");
    assert_eq!(formatter("/tmp/photos/cat.JPG").full_path(), "/tmp/photos/cat.JPG");
    assert!(PathFormatter::new("/tmp/..".to_string(), true).is_none());
    assert!(PathFormatter::new("/".to_string(), true).is_none());
    assert!(PathFormatter::new(String::new(), true).is_none());
}

#[test]
fn drag_flag_is_recorded() {
    let mut zone = DropZone::new();
    assert!(!zone.has_active_drag());
    zone.set_active_drag(true);
    assert!(zone.has_active_drag());
    zone.set_active_drag(false);
    assert!(!zone.has_active_drag());
    assert_eq!(zone.file_count(), 0);
}

#[test]
fn path_formatter_reads_the_size_at_each_call() {
    let f = formatter("/x/y.jpg");
    assert_eq!(f.full_path(), "/x/y.jpg");
    assert_eq!(f.file_name(), "y.jpg");
    assert_eq!(f.file_bytes(Some(1500)), 1500);
    assert_eq!(f.size(Some(1500)), "1.50 kB");
    assert_eq!(f.file_bytes(Some(2)), 2);
    assert_eq!(f.file_bytes(None), 0);
    assert_eq!(f.size(None), "0 B");
    let c = f.clone();
    assert_eq!(c.full_path(), "/x/y.jpg");
    assert_eq!(c.file_name(), "y.jpg");
}

#[test]
fn human_sizes() {
    assert_eq!(human_size(0), "0 B");
    assert_eq!(human_size(999), "999 B");
    assert_eq!(human_size(1000), "1 kB");
    assert_eq!(human_size(1_500_000), "1.50 MB");
}

#[test]
fn decimal_text() {
    for n in [0u64, 7, 10, 99, 100, 12345, u64::MAX] {
        let mut s = String::from("x");
        push_decimal(&mut s, n);
        assert_eq!(s, format!("x{}", n));
    }
}

#[test]
fn savings_text_and_sign() {
    assert_eq!(Preview::new(data(200, 100, 0)).savings(), "-50%");
    assert_eq!(Preview::new(data(100, 100, 0)).savings(), "+0%");
    assert_eq!(Preview::new(data(100, 150, 0)).savings(), "+50%");
    assert_eq!(Preview::new(data(3, 2, 0)).savings(), "-34%");
    assert_eq!(Preview::new(data(0, 5, 0)).savings(), "0%");
    assert_eq!(Preview::new(data(1000, 0, 0)).savings(), "-100%");
    for (o, c) in [(200u64, 100u64), (100, 100), (7, 9), (9, 7)] {
        let p = Preview::new(data(o, c, 0));
        assert_eq!(p.savings().starts_with('-'), p.is_smaller());
    }
}

#[test]
fn preview_sizes_are_upper_case() {
    let p = Preview::new(data(1500, 999, 1));
    assert_eq!(p.original_size(), "1.50 KB");
    assert_eq!(p.compressed_size(), "999 B");
    assert_eq!(p.name(), "a.png");
    assert_eq!(p.path(), "/p/a.png");
}

#[test]
fn rows_alternate_backgrounds() {
    assert!(!Preview::new(data(1, 1, 0)).uses_alternate_background());
    assert!(Preview::new(data(1, 1, 1)).uses_alternate_background());
    assert!(!Preview::new(data(1, 1, 2)).uses_alternate_background());
}

#[test]
fn status_follows_compression() {
    let mut d = data(100, 100, 0);
    d.is_processing = true;
    let mut p = Preview::new(d);
    assert_eq!(p.status(), PreviewStatus::Processing);
    p.finish_compression(Some(60));
    assert_eq!(p.compressed_bytes(), 60);
    assert!(!p.is_processing());
    assert_eq!(p.status(), PreviewStatus::Smaller);
    p.finish_compression(Some(120));
    assert_eq!(p.status(), PreviewStatus::NotSmaller);
    let mut q = Preview::new(data(100, 100, 0));
    q.finish_compression(None);
    assert!(q.is_error());
    assert_eq!(q.compressed_bytes(), 100);
    assert_eq!(q.status(), PreviewStatus::Failed);
}

#[test]
fn failure_while_processing_keeps_the_spinner() {
    let mut d = data(100, 100, 0);
    d.is_processing = true;
    let mut p = Preview::new(d);
    p.finish_compression(None);
    assert!(p.is_error());
    assert!(p.is_processing());
    assert_eq!(p.status(), PreviewStatus::Processing);
}

#[test]
fn random_numbers_stay_in_range() {
    assert_eq!(get_random_in_range(5, 5), Some(5));
    for _ in 0..100 {
        let v = get_random_in_range(10, 20).unwrap();
        assert!((10..=20).contains(&v));
    }
    assert!(get_random_in_range(0, u64::MAX - 1).is_some());
}

#[test]
fn seeded_number_is_xorshift_reduced() {
    let seed: u64 = 0x1234_5678_9abc_def0;
    let mut s = seed;
    s ^= s << 13;
    s ^= s >> 7;
    s ^= s << 17;
    assert_eq!(random_in_range_from_seed(seed, 100, 199), 100 + s % 100);
    assert_eq!(random_in_range_from_seed(0, 3, 9), 3);
    assert_eq!(random_in_range_from_seed(seed, 0, u64::MAX - 1), s % u64::MAX);
}

#[test]
fn theme_follows_appearance() {
    assert_eq!(theme_kind_for(Appearance::Dark), ThemeKind::Dark);
    assert_eq!(theme_kind_for(Appearance::Light), ThemeKind::Light);
    assert_eq!(theme_kind_for(Appearance::VibrantDark), ThemeKind::Default);
    assert_eq!(theme_kind_for(Appearance::VibrantLight), ThemeKind::Default);
}

#[test]
fn load_starts_once_and_paints_when_loaded() {
    let mut s: LoadState<u32> = LoadState::new();
    assert_eq!(s.paint_action(), PaintAction::Nothing);
    assert!(s.begin());
    assert_eq!(s.paint_action(), PaintAction::Refresh);
    assert!(!s.begin());
    s.finish(Some(7));
    assert_eq!(s.paint_action(), PaintAction::Paint);
    assert_eq!(s.image(), Some(&7));
    assert!(!s.begin());
    assert_eq!(s.image(), Some(&7));
    let mut f: LoadState<u32> = LoadState::new();
    assert!(f.begin());
    f.finish(None);
    assert_eq!(f.paint_action(), PaintAction::Nothing);
    assert_eq!(f.image(), None);
    assert!(!f.begin());
}
