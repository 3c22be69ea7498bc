use stream_catalog::manifest::{File, Manifest};
use stream_catalog::paths::{parse_partition_time, path_partition_time, PartitionTime};
use stream_catalog::pruner::{
    collect_files_reversed, group_by_partition, manifests_to_fetch, fetch_parquet_file_paths,
    stamp_files, stamp_of, PruneError, Stamp, StampedFile,
};
use stream_catalog::snapshot::{merge_snapshots, ManifestItem, Snapshot};
use stream_catalog::timefilter::TimeRange;

const T_10_30: i64 = 1705314600000;
const T_10_31: i64 = 1705314660000;

fn data_file(path: &str, lower: i64, upper: i64) -> File {
    File {
        file_path: path.to_string(),
        num_rows: 3,
        file_size: 100,
        ingestion_size: 200,
        time_lower_bound: lower,
        time_upper_bound: upper,
    }
}

fn manifest_of(path: &str, files: Vec<File>) -> Manifest {
    let mut manifest = Manifest::new(path.to_string());
    for f in files {
        manifest.append(f).unwrap();
    }
    manifest
}

fn names(files: &[File]) -> Vec<&str> {
    files.iter().map(|f| f.file_path.as_str()).collect()
}

#[test]
fn partition_time_is_read_after_first_slash() {
    let time = path_partition_time("logs/date=2024-01-15/hour=10/minute=30/a.parquet");
    assert_eq!(
        time,
        Some(PartitionTime { year: 2024, month: 1, day: 15, hour: 10, minute: 30 })
    );
}

#[test]
fn partition_time_may_end_the_path() {
    let time = parse_partition_time(b"s/date=0999-12-31/hour=23/minute=59");
    assert_eq!(
        time,
        Some(PartitionTime { year: 999, month: 12, day: 31, hour: 23, minute: 59 })
    );
}

#[test]
fn partition_time_is_read_as_written_even_if_no_such_day() {
    let time = path_partition_time("s/date=2024-13-45/hour=99/minute=99/x");
    assert_eq!(
        time,
        Some(PartitionTime { year: 2024, month: 13, day: 45, hour: 99, minute: 99 })
    );
}

#[test]
fn malformed_paths_have_no_partition_time() {
    let bad = [
        "",
        "no-slash",
        "s/",
        "s/date=2024-01-15/hour=10/minute=3",
        "s/date=2024-01-15/hour=10/minute=300/x",
        "s/date=2024-01-15/hour=10/minute=30x",
        "s/date=2024-1-15/hour=10/minute=30/x",
        "s/date=2024_01_15/hour=10/minute=30/x",
        "s/Date=2024-01-15/hour=10/minute=30/x",
        "s/date=2024-01-15/hours=10/minute=30/x",
        "s/date=2024-01-15/hour=1o/minute=30/x",
        "s/date=2024-01-15/minute=30/hour=10/x",
        "/s/date=2024-01-15/hour=10/minute=30/x",
        "s/t/date=2024-01-15/hour=10/minute=30/x",
        "s/date=+024-01-15/hour=10/minute=30/x",
    ];
    for path in bad {
        assert_eq!(path_partition_time(path), None, "{}", path);
    }
}

#[test]
fn stamp_is_the_start_of_the_minute_in_utc() {
    let stamp = stamp_of("s/date=2024-01-15/hour=10/minute=30/a.parquet");
    assert_eq!(
        stamp,
        Some(Stamp {
            time: PartitionTime { year: 2024, month: 1, day: 15, hour: 10, minute: 30 },
            millis: 1705314600000,
        })
    );
    assert_eq!(stamp_of("s/date=1970-01-01/hour=00/minute=00").map(|s| s.millis), Some(0));
    assert_eq!(
        stamp_of("s/date=2024-02-29/hour=23/minute=59/x").map(|s| s.millis),
        Some(1709251140000)
    );
}

#[test]
fn stamp_needs_a_day_and_a_minute_that_exist() {
    assert_eq!(stamp_of("s/date=2023-02-29/hour=10/minute=30/x"), None);
    assert_eq!(stamp_of("s/date=2024-13-01/hour=10/minute=30/x"), None);
    assert_eq!(stamp_of("s/date=2024-01-15/hour=24/minute=30/x"), None);
    assert_eq!(stamp_of("s/date=2024-01-15/hour=10/minute=60/x"), None);
    assert_eq!(stamp_of("s/date=2024-01-00/hour=10/minute=30/x"), None);
    assert_eq!(stamp_of("nothing"), None);
}

#[test]
fn files_are_collected_last_to_first() {
    let manifests = vec![
        manifest_of("m1", vec![data_file("a", 0, 1), data_file("b", 0, 1)]),
        manifest_of("m2", vec![]),
        manifest_of("m3", vec![data_file("c", 0, 1), data_file("d", 0, 1), data_file("e", 0, 1)]),
    ];
    let files = collect_files_reversed(&manifests);
    assert_eq!(names(&files), vec!["e", "d", "c", "b", "a"]);
    assert!(collect_files_reversed(&Vec::new()).is_empty());
}

#[test]
fn stamp_files_keeps_files_and_order() {
    let files = vec![
        data_file("s/date=2024-01-15/hour=10/minute=30/a", 1, 2),
        data_file("broken", 3, 4),
    ];
    let items = stamp_files(&files);
    assert_eq!(items.len(), 2);
    assert_eq!(items[0].file.file_path, "s/date=2024-01-15/hour=10/minute=30/a");
    assert_eq!(items[0].stamp.map(|s| s.millis), Some(T_10_30));
    assert_eq!(items[1].file.file_path, "broken");
    assert_eq!(items[1].file.time_lower_bound, 3);
    assert_eq!(items[1].stamp, None);
}

fn stamped(path: &str, time: PartitionTime, millis: i64) -> StampedFile {
    StampedFile { file: data_file(path, 0, 1), stamp: Some(Stamp { time, millis }) }
}

#[test]
fn grouping_sorts_timely_files_by_partition() {
    let early = PartitionTime { year: 2024, month: 1, day: 15, hour: 10, minute: 29 };
    let first = PartitionTime { year: 2024, month: 1, day: 15, hour: 10, minute: 30 };
    let second = PartitionTime { year: 2024, month: 1, day: 15, hour: 10, minute: 31 };
    let items = vec![
        stamped("b1", second, T_10_31),
        stamped("a1", first, T_10_30),
        stamped("old", early, T_10_30 - 60000),
        stamped("b2", second, T_10_31),
        stamped("a2", first, T_10_30),
    ];
    let groups = group_by_partition(&items, T_10_30).unwrap();
    assert_eq!(groups.len(), 2);
    let of_first = groups.iter().find(|g| g.time == first).unwrap();
    let of_second = groups.iter().find(|g| g.time == second).unwrap();
    assert_eq!(names(&of_first.files), vec!["a1", "a2"]);
    assert_eq!(names(&of_second.files), vec!["b1", "b2"]);
}

#[test]
fn grouping_of_nothing_is_empty() {
    assert_eq!(group_by_partition(&Vec::new(), 0).unwrap().len(), 0);
    let early = PartitionTime { year: 2024, month: 1, day: 15, hour: 10, minute: 29 };
    let items = vec![stamped("old", early, 5)];
    assert_eq!(group_by_partition(&items, 6).unwrap().len(), 0);
    assert_eq!(group_by_partition(&items, 5).unwrap().len(), 1);
}

#[test]
fn grouping_fails_on_a_file_without_stamp() {
    let first = PartitionTime { year: 2024, month: 1, day: 15, hour: 10, minute: 30 };
    let items = vec![
        stamped("a1", first, T_10_30),
        StampedFile { file: data_file("broken", 0, 1), stamp: None },
    ];
    assert_eq!(group_by_partition(&items, 0).err(), Some(PruneError::MalformedPath));
}

#[test]
fn select_drops_pruned_and_early_files_and_groups_the_rest() {
    let manifests = vec![
        manifest_of(
            "m1",
            vec![
                data_file("s/date=2024-01-15/hour=10/minute=30/a", T_10_30, T_10_30 + 100),
                data_file("s/date=2024-01-15/hour=10/minute=30/b", T_10_30 + 50000, T_10_30 + 59999),
                data_file("s/date=2024-01-15/hour=10/minute=29/late", T_10_30 + 5, T_10_30 + 6),
            ],
        ),
        manifest_of(
            "m2",
            vec![
                data_file("s/date=2024-01-15/hour=10/minute=31/c", T_10_31, T_10_31 + 10),
                data_file("s/date=2024-01-15/hour=10/minute=31/out", T_10_31 + 30000, T_10_31 + 40000),
                data_file("not a partition path", T_10_31 + 30000, T_10_31 + 40000),
            ],
        ),
    ];
    let range = TimeRange { start: T_10_30, end: T_10_31 + 20000 };
    let groups = fetch_parquet_file_paths("s", None, &manifests, &range).unwrap();
    assert_eq!(groups.len(), 2);
    assert_eq!(groups[0].time.minute, 31);
    assert_eq!(names(&groups[0].files), vec!["s/date=2024-01-15/hour=10/minute=31/c"]);
    assert_eq!(groups[1].time.minute, 30);
    assert_eq!(
        names(&groups[1].files),
        vec![
            "s/date=2024-01-15/hour=10/minute=30/b",
            "s/date=2024-01-15/hour=10/minute=30/a"
        ]
    );
}

#[test]
fn select_fails_on_a_kept_file_with_a_malformed_path() {
    let manifests = vec![manifest_of("m", vec![data_file("oops", 5, 6)])];
    let hit = TimeRange { start: 0, end: 10 };
    assert_eq!(
        fetch_parquet_file_paths("s", None, &manifests, &hit).err(),
        Some(PruneError::MalformedPath)
    );
    let miss = TimeRange { start: 7, end: 10 };
    assert_eq!(fetch_parquet_file_paths("s", None, &manifests, &miss).unwrap().len(), 0);
}

#[test]
fn manifests_to_fetch_merges_shards_and_prunes() {
    let mut one = Snapshot::default();
    one.add_manifest(ManifestItem::new("a".to_string(), 0, 9).unwrap());
    one.add_manifest(ManifestItem::new("b".to_string(), 10, 19).unwrap());
    let mut two = Snapshot::default();
    two.add_manifest(ManifestItem::new("c".to_string(), 5, 14).unwrap());
    two.add_manifest(ManifestItem::new("d".to_string(), 20, 29).unwrap());
    let shards = vec![one, two];
    let merged = merge_snapshots(&shards);
    let all: Vec<&str> = merged.manifest_list.iter().map(|m| m.manifest_path.as_str()).collect();
    assert_eq!(all, vec!["a", "b", "c", "d"]);
    let picked = manifests_to_fetch("s", None, &shards, &TimeRange { start: 12, end: 20 });
    let picked: Vec<&str> = picked.iter().map(|m| m.manifest_path.as_str()).collect();
    assert_eq!(picked, vec!["b", "c"]);
    let sorted = merged.sorted_by_lower_bound();
    let sorted: Vec<i64> = sorted.iter().map(|m| m.time_lower_bound).collect();
    assert_eq!(sorted, vec![0, 5, 10, 20]);
}

#[test]
fn retention_cleanup_removes_named_manifests() {
    let mut snapshot = Snapshot::default();
    snapshot.add_manifest(ManifestItem::new("a".to_string(), 0, 9).unwrap());
    snapshot.add_manifest(ManifestItem::new("b".to_string(), 10, 19).unwrap());
    snapshot.add_manifest(ManifestItem::new("c".to_string(), 20, 29).unwrap());
    let first = snapshot.retention_cleanup(&vec!["a".to_string(), "c".to_string(), "x".to_string()]);
    assert_eq!(first, Some(10));
    assert_eq!(snapshot.manifest_list.len(), 1);
    assert_eq!(snapshot.manifest_list[0].manifest_path, "b");
    assert_eq!(snapshot.retention_cleanup(&vec!["b".to_string()]), None);
}

#[test]
fn sorted_view_is_stable_and_complete() {
    let mut snapshot = Snapshot::default();
    for (path, lower) in [("p", 7), ("q", 3), ("r", 7), ("s", 1), ("t", 3)] {
        snapshot.add_manifest(ManifestItem::new(path.to_string(), lower, lower + 1).unwrap());
    }
    let sorted = snapshot.sorted_by_lower_bound();
    let order: Vec<&str> = sorted.iter().map(|m| m.manifest_path.as_str()).collect();
    assert_eq!(order, vec!["s", "q", "t", "p", "r"]);
    assert_eq!(snapshot.manifest_list.len(), 5);
}

#[test]
fn partition_is_written_as_paths_name_it() {
    let time = PartitionTime { year: 2024, month: 1, day: 15, hour: 10, minute: 30 };
    assert_eq!(time.prefix().as_deref(), Some("date=2024-01-15/hour=10/minute=30"));
    let early = PartitionTime { year: 7, month: 0, day: 99, hour: 0, minute: 9 };
    assert_eq!(early.prefix().as_deref(), Some("date=0007-00-99/hour=00/minute=09"));
    let last = PartitionTime { year: 9999, month: 12, day: 31, hour: 23, minute: 59 };
    assert_eq!(last.prefix().as_deref(), Some("date=9999-12-31/hour=23/minute=59"));
}

#[test]
fn partition_that_the_layout_cannot_hold_is_not_written() {
    let base = PartitionTime { year: 2024, month: 1, day: 15, hour: 10, minute: 30 };
    assert_eq!(PartitionTime { year: 10000, ..base }.prefix(), None);
    assert_eq!(PartitionTime { year: -1, ..base }.prefix(), None);
    assert_eq!(PartitionTime { month: 100, ..base }.prefix(), None);
    assert_eq!(PartitionTime { day: 100, ..base }.prefix(), None);
    assert_eq!(PartitionTime { hour: 100, ..base }.prefix(), None);
    assert_eq!(PartitionTime { minute: 100, ..base }.prefix(), None);
}

#[test]
fn written_partition_is_read_back() {
    let time = PartitionTime { year: 1987, month: 6, day: 5, hour: 4, minute: 3 };
    let path = format!("stream/{}/file.parquet", time.prefix().unwrap());
    assert_eq!(path_partition_time(&path), Some(time));
}
