use gif_server::storage::files::{file_path, slice};
use std::path::Path;

#[test]
fn file_path_buckets_by_first_four_chars() {
    let path = file_path("storage", "abcd1234.gif");
    assert_eq!(Path::new(&path), Path::new("storage/ab/cd/abcd1234.gif"));
}

#[test]
fn file_path_different_filenames_different_buckets() {
    let a = file_path("storage", "aabbcc.gif");
    let b = file_path("storage", "zzyyxx.gif");
    assert_ne!(Path::new(&a).parent(), Path::new(&b).parent());
}

#[test]
fn file_path_handles_short_names_without_panicking() {
    assert_eq!(Path::new(&file_path("s", "abc")), Path::new("s/ab/__/abc"));
    assert_eq!(Path::new(&file_path("s", "a")), Path::new("s/__/__/a"));
}

#[test]
fn file_path_joins_as_std_does() {
    for storage in ["s", "s/", "", "/var/gifs"] {
        for name in ["abcd.gif", "é1.gif", "aéb.gif", "日本.gif", "abé", "/abs", "ab/d"] {
            let bucket1 = name.get(0..2).unwrap_or("__");
            let bucket2 = name.get(2..4).unwrap_or("__");
            let expected = Path::new(storage).join(bucket1).join(bucket2).join(name);
            assert_eq!(file_path(storage, name), expected.to_str().unwrap());
        }
    }
}

#[test]
fn slices_by_bytes() {
    assert_eq!(slice("aéb", 0, 2), None);
    assert_eq!(slice("aéb", 1, 3), Some("é".to_string()));
    assert_eq!(slice("abc", 1, 1), Some(String::new()));
    assert_eq!(slice("abc", 2, 1), None);
    assert_eq!(slice("abc", 0, 4), None);
}
