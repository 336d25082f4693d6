use std::collections::BTreeMap;

use fs_storage::error::ArklibError;
use fs_storage::file_storage::{FileSnapshot, FileStorage, Timestamp, STORAGE_VERSION};

fn at(secs: u64) -> Timestamp {
    Timestamp { secs, nanos: 0 }
}

/// Writes `storage` as a file system would: the returned snapshot is the
/// file's text and its modification time `written`.
fn write(storage: &mut FileStorage, written: Timestamp) -> FileSnapshot {
    let req = storage.write_request().expect("Failed to write data to disk");
    storage.finish_write(written).expect("Failed to write data to disk");
    FileSnapshot { contents: req.contents, modified: written }
}

fn storage_at(path: &str) -> FileStorage {
    FileStorage::new("TestStorage".to_string(), path.to_string(), at(100), None)
}

#[test]
fn test_file_storage_write_read() {
    let mut file_storage = storage_at("/tmp/tmp/test_storage.txt");

    file_storage.set("key1".to_string(), "value1".to_string(), at(101));
    write(&mut file_storage, at(102));
    file_storage.set("key2".to_string(), "value2".to_string(), at(103));
    write(&mut file_storage, at(104));

    assert!(file_storage.remove("key1", at(105)).is_ok());
    let file = write(&mut file_storage, at(106));
    let data_read: BTreeMap<_, _> = file_storage
        .read_fs(&file)
        .expect("Failed to read data from disk");

    assert_eq!(data_read.len(), 1);
    assert_eq!(data_read.get("key2").map(|v| v.as_str()), Some("value2"))
}

#[test]
fn test_file_storage_auto_delete() {
    let mut file_storage = storage_at("/tmp/tmp/test_storage.txt");

    file_storage.set("key1".to_string(), "value1".to_string(), at(101));
    write(&mut file_storage, at(102));
    file_storage.set("key1".to_string(), "value2".to_string(), at(103));
    let file = write(&mut file_storage, at(104));

    let reopened = FileStorage::new(
        "TestStorage".to_string(),
        "/tmp/tmp/test_storage.txt".to_string(),
        at(200),
        Some(file),
    );
    assert_eq!(reopened.as_ref().len(), 1);
    assert_eq!(reopened.as_ref().get("key1").map(|v| v.as_str()), Some("value2"));
    assert_eq!(reopened.timestamp(), at(104));
}

#[test]
fn test_file_storage_is_storage_updated() {
    let mut file_storage = storage_at("/tmp/tmp/teststorage.txt");

    file_storage.set("key1".to_string(), "value1".to_string(), at(101));
    let file = write(&mut file_storage, at(102));
    assert_eq!(file_storage.is_storage_updated(file.modified), false);

    // Another storage on the same file writes one second later.
    let mut mirror_storage = FileStorage::new(
        "TestStorage".to_string(),
        "/tmp/tmp/teststorage.txt".to_string(),
        at(103),
        Some(file),
    );
    mirror_storage.set("key1".to_string(), "value3".to_string(), at(103));
    let mirrored = write(&mut mirror_storage, at(104));
    assert_eq!(mirror_storage.is_storage_updated(mirrored.modified), false);

    assert_eq!(file_storage.is_storage_updated(mirrored.modified), true);
}

#[test]
fn written_text_has_header_and_json() {
    let mut s = storage_at("/data/store.txt");
    s.set("b".to_string(), "2".to_string(), at(1));
    s.set("a".to_string(), "x\ny".to_string(), at(2));
    let req = s.write_request().unwrap();
    assert_eq!(req.dir, "/data");
    assert_eq!(req.contents, "version 2\n{\"a\":\"x\\ny\",\"b\":\"2\"}");
    assert_eq!(STORAGE_VERSION, 2);
}

#[test]
fn empty_storage_writes_empty_object_and_reads_back() {
    let mut s = storage_at("/data/store.txt");
    let file = write(&mut s, at(7));
    assert_eq!(file.contents, "version 2\n{}");
    let read = s.read_fs(&file).unwrap();
    assert!(read.is_empty());
}

#[test]
fn read_back_after_write_law() {
    let mut s = storage_at("/data/store.txt");
    s.set("k\r".to_string(), "line1\nline2\r\n".to_string(), at(1));
    s.set("ключ".to_string(), "значение".to_string(), at(2));
    let file = write(&mut s, at(3));
    let read = s.read_fs(&file).unwrap();
    assert_eq!(&read, s.as_ref());
    assert_eq!(s.timestamp(), at(3));
}

#[test]
fn read_of_empty_file_is_missing_header() {
    let mut s = storage_at("/data/store.txt");
    let file = FileSnapshot { contents: String::new(), modified: at(50) };
    assert_eq!(
        s.read_fs(&file),
        Err(ArklibError::Storage(
            "TestStorage".to_string(),
            "Storage file is missing header".to_string()
        ))
    );
    assert_eq!(s.timestamp(), at(100));
}

#[test]
fn read_with_unknown_prefix() {
    let mut s = storage_at("/data/store.txt");
    let file = FileSnapshot { contents: "versio 2\n{}".to_string(), modified: at(50) };
    assert_eq!(
        s.read_fs(&file),
        Err(ArklibError::Storage(
            "TestStorage".to_string(),
            "Unknown storage version prefix".to_string()
        ))
    );
}

#[test]
fn read_with_unparsable_version() {
    let mut s = storage_at("/data/store.txt");
    for header in ["version ", "version two", "version 2 ", "version -", "version 99999999999"] {
        let file = FileSnapshot { contents: format!("{}\n{{}}", header), modified: at(50) };
        assert_eq!(
            s.read_fs(&file),
            Err(ArklibError::Storage(
                "TestStorage".to_string(),
                "Failed to parse storage version".to_string()
            )),
            "header {:?}",
            header
        );
    }
}

#[test]
fn read_with_other_version() {
    let mut s = storage_at("/data/store.txt");
    let file = FileSnapshot { contents: "version 3\n{}".to_string(), modified: at(50) };
    assert_eq!(
        s.read_fs(&file),
        Err(ArklibError::Storage(
            "TestStorage".to_string(),
            "Storage version mismatch: expected 2, found 3".to_string()
        ))
    );
    let file = FileSnapshot { contents: "version -2147483648\n{}".to_string(), modified: at(50) };
    assert_eq!(
        s.read_fs(&file),
        Err(ArklibError::Storage(
            "TestStorage".to_string(),
            "Storage version mismatch: expected 2, found -2147483648".to_string()
        ))
    );
}

#[test]
fn read_accepts_signed_and_padded_versions_and_crlf() {
    let mut s = storage_at("/data/store.txt");
    for header in ["version +2", "version 002", "version 2\r"] {
        let file = FileSnapshot {
            contents: format!("{}\n{{\"a\":\n\n\"b\"}}\r\n", header),
            modified: at(60),
        };
        let data = s.read_fs(&file).unwrap();
        assert_eq!(data.get("a").map(|v| v.as_str()), Some("b"), "header {:?}", header);
    }
    assert_eq!(s.timestamp(), at(60));
}

#[test]
fn read_of_bad_json_is_parse_error() {
    let mut s = storage_at("/data/store.txt");
    let file = FileSnapshot { contents: "version 2\n{\"a\": 1}".to_string(), modified: at(50) };
    assert_eq!(s.read_fs(&file), Err(ArklibError::Parse));
    let file = FileSnapshot { contents: "version 2".to_string(), modified: at(50) };
    assert_eq!(s.read_fs(&file), Err(ArklibError::Parse));
    assert_eq!(s.timestamp(), at(100));
}

#[test]
fn new_without_readable_file_is_empty() {
    let s = storage_at("/data/store.txt");
    assert!(s.as_ref().is_empty());
    assert_eq!(s.timestamp(), at(100));
    assert_eq!(s.label(), "TestStorage");
    assert_eq!(s.path(), "/data/store.txt");
    let bad = FileSnapshot { contents: "garbage".to_string(), modified: at(5) };
    let s = FileStorage::new("L".to_string(), "/x/y".to_string(), at(9), Some(bad));
    assert!(s.as_ref().is_empty());
    assert_eq!(s.timestamp(), at(9));
}

#[test]
fn remove_missing_key_fails_and_changes_nothing() {
    let mut s = storage_at("/data/store.txt");
    s.set("a".to_string(), "1".to_string(), at(101));
    assert_eq!(
        s.remove("b", at(102)),
        Err(ArklibError::Storage("TestStorage".to_string(), "Key not found".to_string()))
    );
    assert_eq!(s.timestamp(), at(101));
    assert_eq!(s.as_ref().len(), 1);
    assert_eq!(s.remove("a", at(103)), Ok(()));
    assert!(s.as_ref().is_empty());
    assert_eq!(s.timestamp(), at(103));
}

#[test]
fn set_overwrites_value() {
    let mut s = storage_at("/data/store.txt");
    s.set("a".to_string(), "1".to_string(), at(101));
    s.set("a".to_string(), "2".to_string(), at(102));
    assert_eq!(s.as_ref().get("a").map(|v| v.as_str()), Some("2"));
    assert_eq!(s.as_ref().len(), 1);
}

#[test]
fn finish_write_with_unchanged_time_fails() {
    let mut s = storage_at("/data/store.txt");
    assert_eq!(
        s.finish_write(at(100)),
        Err(ArklibError::Other("Timestamp didn't update".to_string()))
    );
    assert_eq!(s.timestamp(), at(100));
    assert_eq!(s.finish_write(Timestamp { secs: 100, nanos: 1 }), Ok(()));
    assert_eq!(s.timestamp(), Timestamp { secs: 100, nanos: 1 });
}

#[test]
fn write_without_parent_directory_fails() {
    for path in ["", "/"] {
        let s = FileStorage::new("L".to_string(), path.to_string(), at(1), None);
        assert_eq!(
            s.write_request().err(),
            Some(ArklibError::Storage("L".to_string(), "Failed to get parent directory".to_string()))
        );
    }
    let s = FileStorage::new("L".to_string(), "file.txt".to_string(), at(1), None);
    assert_eq!(s.write_request().unwrap().dir, "");
}

#[test]
fn update_check_compares_seconds() {
    let s = storage_at("/data/store.txt");
    assert!(!s.is_storage_updated(Timestamp { secs: 100, nanos: 999 }));
    assert!(!s.is_storage_updated(at(99)));
    assert!(s.is_storage_updated(at(101)));
}

#[test]
fn verify_version_directly() {
    let s = storage_at("/data/store.txt");
    assert_eq!(s.verify_version("version 2"), Ok(()));
    assert!(s.verify_version("Version 2").is_err());
}
