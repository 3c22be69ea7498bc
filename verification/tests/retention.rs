use stream_catalog::manifest::{File, Manifest};
use stream_catalog::snapshot::{ManifestItem, Snapshot};

fn data_file(path: &str, lower: i64, upper: i64) -> File {
    File {
        file_path: path.to_string(),
        num_rows: 0,
        file_size: 0,
        ingestion_size: 0,
        time_lower_bound: lower,
        time_upper_bound: upper,
    }
}

#[test]
fn manifest_ages_out_when_all_its_files_have() {
    let mut manifest = Manifest::new("m".to_string());
    assert!(manifest.is_aged_out(i64::MIN));
    manifest.append(data_file("a", 0, 9)).unwrap();
    manifest.append(data_file("b", 5, 19)).unwrap();
    assert!(!manifest.is_aged_out(10));
    assert!(!manifest.is_aged_out(19));
    assert!(manifest.is_aged_out(20));
    assert_eq!(manifest.time_upper_bound, 19);
}

#[test]
fn snapshot_names_the_manifests_that_have_aged_out() {
    let mut snapshot = Snapshot::default();
    for (path, lower, upper) in [("a", 0, 9), ("b", 10, 19), ("c", 5, 8), ("d", 20, 29)] {
        snapshot.add_manifest(ManifestItem::new(path.to_string(), lower, upper).unwrap());
    }
    assert_eq!(snapshot.aged_out(10), vec!["a".to_string(), "c".to_string()]);
    assert_eq!(snapshot.aged_out(9), vec!["c".to_string()]);
    assert!(snapshot.aged_out(0).is_empty());
    let gone = snapshot.aged_out(20);
    assert_eq!(gone.len(), 3);
    assert_eq!(snapshot.retention_cleanup(&gone), Some(20));
    assert_eq!(snapshot.manifest_list.len(), 1);
    assert_eq!(snapshot.manifest_list[0].manifest_path, "d");
}
