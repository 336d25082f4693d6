use fs_storage::append::{Append, AppError, Format, StorageLocation, StorageType};
use fs_storage::watch::{touches_folder, watch_step, WatchStep, ARK_FOLDER};

fn append(format: Option<Format>, kind: Option<StorageType>) -> Append {
    Append {
        root_dir: ".".to_string(),
        storage: "tags".to_string(),
        id: "42-123".to_string(),
        content: "hello".to_string(),
        format,
        kind,
    }
}

#[test]
fn append_to_unknown_storage_fails() {
    let err = append(None, None).run(None).err();
    assert_eq!(err, Some(AppError::StorageNotFound("tags".to_string())));
}

#[test]
fn append_defaults_to_file_and_raw() {
    let loc = StorageLocation { path: "./.ark/tags".to_string(), storage_type: None };
    let plan = append(None, None).run(Some(loc)).unwrap();
    assert_eq!(plan.file_path, "./.ark/tags");
    assert_eq!(plan.storage_type, StorageType::File);
    assert_eq!(plan.format, Format::Raw);
    assert_eq!(plan.id, "42-123");
    assert_eq!(plan.content, "hello");
}

#[test]
fn append_location_kind_wins_over_asked_kind() {
    let loc = StorageLocation { path: "p".to_string(), storage_type: Some(StorageType::Folder) };
    let plan = append(Some(Format::KeyValue), Some(StorageType::File)).run(Some(loc)).unwrap();
    assert_eq!(plan.storage_type, StorageType::Folder);
    assert_eq!(plan.format, Format::KeyValue);
    let loc = StorageLocation { path: "p".to_string(), storage_type: None };
    let plan = append(None, Some(StorageType::Folder)).run(Some(loc)).unwrap();
    assert_eq!(plan.storage_type, StorageType::Folder);
}

#[test]
fn watch_skips_metadata_events() {
    let ark = format!("/root/{}", ARK_FOLDER);
    let inside = Ok(vec!["/root/a.txt".to_string(), "/root/.ark/index".to_string()]);
    assert_eq!(watch_step(&inside, &ark), WatchStep::Skip);
    let outside = Ok(vec!["/root/a.txt".to_string(), "/root/.arkive/x".to_string()]);
    assert_eq!(watch_step(&outside, &ark), WatchStep::Reindex);
    assert_eq!(watch_step(&Ok(vec![]), &ark), WatchStep::Reindex);
    assert_eq!(watch_step(&Err("boom".to_string()), &ark), WatchStep::ReportError);
}

#[test]
fn touches_folder_compares_components() {
    assert!(touches_folder(&vec!["/r/.ark".to_string()], "/r/.ark"));
    assert!(touches_folder(&vec!["/r//.ark/x".to_string()], "/r/.ark"));
    assert!(!touches_folder(&vec!["/r/.ark2".to_string()], "/r/.ark"));
}
