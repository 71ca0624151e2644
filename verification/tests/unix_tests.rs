use deviceid::unix::{folder_path, path, root_path, OsFamily, UnixStorage};
use deviceid::Error;

#[test]
fn linux_location_from_home() {
    let p = path(OsFamily::Linux, None, Some("/home/u".to_string())).unwrap();
    assert_eq!(p, "/home/u/.cache/Microsoft/DeveloperTools/deviceid");
}

#[test]
fn apple_location_from_home() {
    let p = path(OsFamily::Apple, None, Some("/Users/u".to_string())).unwrap();
    assert_eq!(p, "/Users/u/Library/Application Support/Microsoft/DeveloperTools/deviceid");
}

#[test]
fn cache_root_override_wins() {
    let p = path(OsFamily::Linux, Some("/tmp/cache".to_string()), Some("/home/u".to_string()))
        .unwrap();
    assert_eq!(p, "/tmp/cache/Microsoft/DeveloperTools/deviceid");
    let f = folder_path(OsFamily::Linux, Some("/tmp/cache".to_string()), None).unwrap();
    assert_eq!(f, "/tmp/cache/Microsoft/DeveloperTools");
}

#[test]
fn unresolvable_location_is_a_storage_error() {
    assert!(matches!(root_path(OsFamily::Linux, None, None), Err(Error::StorageError(_))));
    assert!(matches!(path(OsFamily::Apple, None, None), Err(Error::StorageError(_))));
}

#[test]
fn resolved_storage_paths() {
    let s = UnixStorage::resolve(OsFamily::Linux, None, Some("/home/u".to_string())).unwrap();
    assert_eq!(s.folder, "/home/u/.cache/Microsoft/DeveloperTools");
    assert_eq!(s.file, "/home/u/.cache/Microsoft/DeveloperTools/deviceid");
}
