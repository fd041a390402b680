use copernicus_viewer::s3_config_dialog::{
    bucket_label, empty_bucket_entry, S3ConfigDialog, entries_to_save, is_placeholder_entry, validate_all_entries,
    validate_bucket_entry, validate_for_save,
};
use copernicus_viewer::zarr::creds::S3BucketEntry;

fn entry(bucket: &str, ak: &str, sk: &str, region: &str, endpoint: &str) -> S3BucketEntry {
    S3BucketEntry {
        bucket: bucket.to_string(),
        access_key_id: ak.to_string(),
        secret_access_key: sk.to_string(),
        region: region.to_string(),
        endpoint: endpoint.to_string(),
    }
}

#[test]
fn placeholders_are_ignored_for_save_validation() {
    let entries = vec![
        S3BucketEntry {
            bucket: "bucket-a".to_string(),
            access_key_id: "AK".to_string(),
            secret_access_key: "SK".to_string(),
            region: "eu-west-1".to_string(),
            endpoint: "https://s3.example.com".to_string(),
        },
        empty_bucket_entry(),
    ];

    let saved = validate_for_save(&entries).expect("complete bucket should be savable");
    assert_eq!(saved.len(), 1);
    assert_eq!(saved[0].bucket, "bucket-a");
}

#[test]
fn partial_entries_still_block_save() {
    let entries = vec![S3BucketEntry {
        bucket: "bucket-a".to_string(),
        access_key_id: "AK".to_string(),
        secret_access_key: String::new(),
        region: "eu-west-1".to_string(),
        endpoint: "https://s3.example.com".to_string(),
    }];

    assert!(validate_for_save(&entries).is_err());
}

#[test]
fn each_missing_field_has_its_message() {
    let full = entry("b", "a", "s", "r", "e");
    assert!(validate_bucket_entry(&full).is_ok());
    assert_eq!(validate_bucket_entry(&entry(" ", "a", "s", "r", "e")).unwrap_err(), "Bucket name is required.");
    assert_eq!(validate_bucket_entry(&entry("b", "", "s", "r", "e")).unwrap_err(), "Access key ID is required.");
    assert_eq!(validate_bucket_entry(&entry("b", "a", "", "r", "e")).unwrap_err(), "Secret access key is required.");
    assert_eq!(validate_bucket_entry(&entry("b", "a", "s", "\t", "e")).unwrap_err(), "Region is required.");
    assert_eq!(validate_bucket_entry(&entry("b", "a", "s", "r", "")).unwrap_err(), "Endpoint is required.");
}

#[test]
fn duplicate_and_missing_buckets_are_refused() {
    assert_eq!(validate_all_entries(&Vec::new()).unwrap_err(), "Add at least one bucket.");
    let dup = vec![entry("b", "a", "s", "r", "e"), entry(" b ", "a2", "s2", "r", "e")];
    assert_eq!(validate_all_entries(&dup).unwrap_err(), "Duplicate bucket name: b");
    assert_eq!(
        validate_for_save(&vec![empty_bucket_entry()]).unwrap_err(),
        "add at least one bucket with credentials"
    );
}

#[test]
fn saved_entries_are_trimmed() {
    let entries = vec![entry(" b ", " a ", "s", "r ", " e"), empty_bucket_entry()];
    assert!(is_placeholder_entry(&entries[1]));
    let saved = entries_to_save(&entries);
    assert_eq!(saved, vec![entry("b", "a", "s", "r", "e")]);
}

#[test]
fn dialog_edits_tests_and_saves() {
    let mut d = S3ConfigDialog::new();
    d.show(Some("/tmp/s3.conf".to_string()), false, Err("cannot read".to_string()));
    assert!(d.open);
    assert_eq!(d.feedback, Some((false, "cannot read".to_string())));
    assert_eq!(d.buckets.len(), 1);
    assert_eq!(bucket_label(&d.buckets[0]), "(new bucket)");
    assert!(!d.can_remove());
    assert!(!d.can_test());
    assert_eq!(d.start_connection_test(), None);
    assert_eq!(d.feedback, Some((false, "Bucket name is required.".to_string())));
    assert_eq!(
        d.save_disabled_reason(),
        Some("Save is disabled: add at least one bucket with credentials".to_string())
    );
    d.buckets[0] = entry("b", "a", "s", "r", "e");
    assert!(d.can_test());
    let (id, tested) = d.start_connection_test().expect("test");
    assert_eq!(tested.bucket, "b");
    assert!(d.test_in_progress);
    d.test_result(id + 1, Ok(()));
    assert!(d.test_in_progress);
    d.test_result(id, Ok(()));
    assert_eq!(d.feedback, Some((true, "Connection successful.".to_string())));
    d.add_bucket();
    assert_eq!(d.selected, 1);
    assert!(d.can_remove());
    d.remove_selected();
    assert_eq!(d.selected, 0);
    assert_eq!(d.save_disabled_reason(), None);
    let to_write = d.begin_save().expect("entries");
    d.finish_save(to_write, Ok(()));
    assert!(d.take_saved());
    assert!(!d.take_saved());
    d.after_frame(true, true);
    assert!(!d.open);
}
