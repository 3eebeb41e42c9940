use cheval::cache_model::FileCacheError;
use cheval::canonical_path::{is_covered_by, parent_directory, starts_with_verbatim_disk};
use cheval::file_cache::FileCache;

#[test]
fn verbatim_disk_prefix_is_collapsed() {
    assert_eq!(Ok("C:\\test\\a.txt".to_string()), FileCache::canonicalize(Some("\\\\?\\C:\\test\\a.txt")));
    assert_eq!(Ok("z:\\".to_string()), FileCache::canonicalize(Some("\\\\?\\z:\\")));
    assert_eq!(Ok("D:".to_string()), FileCache::canonicalize(Some("\\\\?\\D:")));
}

#[test]
fn other_paths_stay_as_they_are() {
    for path in [
        "/test/a.txt",
        "/",
        "",
        "C:\\test\\a.txt",
        "\\\\?\\UNC\\server\\share\\a.txt",
        "\\\\?\\1:\\a.txt",
        "\\\\?\\C:a.txt",
        "\\\\?\\CD:\\a.txt",
        "\\\\?\\C",
        "\\\\.\\C:\\a.txt",
        "//?/C:/a.txt",
        "/gr\u{fc}n/\\\\?\\C:\\",
    ] {
        assert_eq!(Ok(path.to_string()), FileCache::canonicalize(Some(path)));
        assert!(!starts_with_verbatim_disk(path));
    }
}

#[test]
fn canonical_form_is_reached_in_one_step() {
    let once = FileCache::canonicalize(Some("\\\\?\\C:\\\\?\\D:\\a")).unwrap();
    assert_eq!("C:\\\\?\\D:\\a", once);
    assert_eq!(Ok(once.clone()), FileCache::canonicalize(Some(&once)));
}

#[test]
fn unresolved_path_has_no_canonical_form() {
    assert_eq!(Err(FileCacheError::Unresolved), FileCache::canonicalize(None));
}

#[test]
fn parent_directory_stops_at_the_last_separator() {
    assert_eq!("/test/aaa", parent_directory("/test/aaa/x.txt"));
    assert_eq!("/test", parent_directory("/test/aaa"));
    assert_eq!("/", parent_directory("/test"));
    assert_eq!("/", parent_directory("/"));
    assert_eq!("C:\\", parent_directory("C:\\a.txt"));
    assert_eq!("C:\\test", parent_directory("C:\\test\\a.txt"));
    assert_eq!("/gr\u{fc}n", parent_directory("/gr\u{fc}n/\u{e4}.txt"));
    assert_eq!("/test/aaa", parent_directory("/test/aaa/"));
    assert_eq!("a.txt", parent_directory("a.txt"));
    assert_eq!("", parent_directory(""));
}

#[test]
fn a_directory_covers_itself_and_what_lies_below() {
    assert!(is_covered_by("/test", "/test"));
    assert!(is_covered_by("/test", "/test/a.txt"));
    assert!(is_covered_by("/test", "/test/aaa/a.txt"));
    assert!(is_covered_by("/", "/test/a.txt"));
    assert!(is_covered_by("C:\\", "C:\\a.txt"));
    assert!(is_covered_by("C:\\test", "C:\\test\\a.txt"));
    assert!(is_covered_by("", "/a"));
    assert!(is_covered_by("", ""));
}

#[test]
fn a_directory_does_not_cover_its_neighbours() {
    assert!(!is_covered_by("/test", "/testing/a.txt"));
    assert!(!is_covered_by("/test/aaa", "/test/bbb/a.txt"));
    assert!(!is_covered_by("/test/aaa", "/test"));
    assert!(!is_covered_by("/test", "/tes"));
    assert!(!is_covered_by("/test", ""));
    assert!(!is_covered_by("", "a"));
    assert!(!is_covered_by("/gr\u{fc}n", "/gr\u{fc}ner"));
}
