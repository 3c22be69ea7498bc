//! From the manifests of a time range to the data files that a query reads,
//! grouped by the partition under which they are stored.

use vstd::prelude::*;
use chrono::TimeZone;
use crate::manifest::select_files;
use crate::manifest::File;
use crate::manifest::Manifest;
use crate::paths::path_partition_time;
use crate::paths::path_time;
use crate::paths::PartitionTime;
use crate::snapshot::all_items;
use crate::snapshot::merge_snapshots;
use crate::snapshot::ManifestItem;
use crate::snapshot::Snapshot;
use crate::text::lemma_filter_prefix_step;
use crate::timefilter::range_filters;
use crate::timefilter::time_filters;
use crate::timefilter::TimeRange;

verus! {

/// The instant, in milliseconds since the Unix epoch, at which the given
/// minute of the given day begins in UTC; nothing where the calendar has no
/// such day or the day no such minute.
pub uninterp spec fn utc_timestamp_millis(
    year: int,
    month: int,
    day: int,
    hour: int,
    minute: int,
) -> Option<i64>;

/// Calls `chrono::TimeZone::with_ymd_and_hms` on `chrono::Utc` with zero
/// seconds and takes `timestamp_millis` of the one instant it gives. The
/// contract claims only that the outcome is determined by the five numbers.
#[verifier::external_body]
fn utc_millis(year: i32, month: u32, day: u32, hour: u32, minute: u32) -> (millis: Option<i64>)
    ensures
        millis == utc_timestamp_millis(
            year as int,
            month as int,
            day as int,
            hour as int,
            minute as int,
        ),
{
    match chrono::Utc.with_ymd_and_hms(year, month, day, hour, minute, 0).single() {
        Some(instant) => Some(instant.timestamp_millis()),
        None => None,
    }
}

/// Why the files of a time range could not be listed.
#[derive(Clone, Copy, Debug, PartialEq, Eq, Structural)]
pub enum PruneError {
    /// The path of a file does not name a partition, or names a day or a
    /// minute that does not exist.
    MalformedPath,
}

/// The partition of a data file and the instant at which it begins.
#[derive(Clone, Copy, Debug, PartialEq, Eq, Structural)]
pub struct Stamp {
    pub time: PartitionTime,
    pub millis: i64,
}

/// A data file with the stamp read off its path, if one could be read.
#[derive(Debug)]
pub struct StampedFile {
    pub file: File,
    pub stamp: Option<Stamp>,
}

/// The files of one partition.
#[derive(Debug)]
pub struct DateGroup {
    pub time: PartitionTime,
    pub files: Vec<File>,
}

/// The stamp that a path gives rise to.
pub open spec fn path_stamp(path: Seq<char>) -> Option<Stamp> {
    match path_time(path) {
        Some(time) => match utc_timestamp_millis(
            time.year as int,
            time.month as int,
            time.day as int,
            time.hour as int,
            time.minute as int,
        ) {
            Some(millis) => Some(Stamp { time, millis }),
            None => None,
        },
        None => None,
    }
}

/// Reads the partition off a path and finds the instant at which it begins.
pub fn stamp_of(path: &str) -> (stamp: Option<Stamp>)
    ensures
        stamp == path_stamp(path@),
{
    match path_partition_time(path) {
        Some(time) => match utc_millis(time.year, time.month, time.day, time.hour, time.minute) {
            Some(millis) => Some(Stamp { time, millis }),
            None => None,
        },
        None => None,
    }
}

/// The files of a list of manifests from the last file of the last manifest
/// back to the first file of the first.
pub open spec fn reversed_files(manifests: Seq<Manifest>) -> Seq<File>
    decreases manifests.len(),
{
    if manifests.len() == 0 {
        Seq::empty()
    } else {
        reversed_files(manifests.drop_first()) + manifests.first().files@.reverse()
    }
}

/// Lists the files of all manifests, last to first.
pub fn collect_files_reversed(manifests: &Vec<Manifest>) -> (files: Vec<File>)
    ensures
        files@ == reversed_files(manifests@),
{
    let n = manifests.len();
    let mut files: Vec<File> = Vec::new();
    let mut i: usize = n;
    proof {
        assert(manifests@.subrange(n as int, n as int).len() == 0);
    }
    while i > 0
        invariant
            i <= n,
            n == manifests@.len(),
            files@ == reversed_files(manifests@.subrange(i as int, n as int)),
        decreases i,
    {
        let manifest = &manifests[i - 1];
        let count = manifest.files.len();
        let ghost base = files@;
        let mut j: usize = count;
        proof {
            assert(manifest.files@.subrange(count as int, count as int).reverse() =~= Seq::empty());
            assert(files@ =~= base + Seq::<File>::empty());
        }
        while j > 0
            invariant
                j <= count,
                count == manifest.files@.len(),
                files@ == base + manifest.files@.subrange(j as int, count as int).reverse(),
            decreases j,
        {
            files.push(manifest.files[j - 1].clone());
            proof {
                let shorter = manifest.files@.subrange(j as int, count as int);
                let longer = manifest.files@.subrange(j - 1, count as int);
                assert(longer.reverse() =~= shorter.reverse().push(manifest.files@[j - 1]));
                assert(files@ =~= base + longer.reverse());
            }
            j -= 1;
        }
        proof {
            let tail = manifests@.subrange(i - 1, n as int);
            assert(manifest.files@.subrange(0, count as int) =~= manifest.files@);
            assert(tail.drop_first() =~= manifests@.subrange(i as int, n as int));
            assert(tail.first() == manifests@[i - 1]);
        }
        i -= 1;
    }
    proof {
        assert(manifests@.subrange(0, n as int) =~= manifests@);
    }
    files
}

/// A file with the stamp of its path.
pub open spec fn stamped(file: File) -> StampedFile {
    StampedFile { file, stamp: path_stamp(file.file_path@) }
}

/// Reads the stamp of every file of a list.
pub fn stamp_files(files: &Vec<File>) -> (items: Vec<StampedFile>)
    ensures
        items@ == files@.map_values(|f: File| stamped(f)),
{
    let mut items: Vec<StampedFile> = Vec::new();
    let mut i: usize = 0;
    while i < files.len()
        invariant
            i <= files.len(),
            items@ == files@.subrange(0, i as int).map_values(|f: File| stamped(f)),
        decreases files.len() - i,
    {
        let stamp = stamp_of(files[i].file_path.as_str());
        items.push(StampedFile { file: files[i].clone(), stamp });
        proof {
            assert(items@ =~= files@.subrange(0, i + 1).map_values(|f: File| stamped(f)));
        }
        i += 1;
    }
    proof {
        assert(files@.subrange(0, i as int) =~= files@);
    }
    items
}

impl StampedFile {
    /// Whether the file's partition begins at or after `start`.
    pub open spec fn timely(self, start: i64) -> bool {
        match self.stamp {
            Some(stamp) => stamp.millis >= start,
            None => false,
        }
    }

    /// Whether the file is timely and stored under the partition `time`.
    pub open spec fn belongs(self, start: i64, time: PartitionTime) -> bool {
        self.timely(start) && self.stamp.unwrap().time == time
    }
}

/// Whether one of the first `upto` files of `items` belongs to the partition
/// `time`.
pub open spec fn has_member(
    items: Seq<StampedFile>,
    upto: int,
    start: i64,
    time: PartitionTime,
) -> bool {
    exists|i: int| 0 <= i < upto && i < items.len() && #[trigger] items[i].belongs(start, time)
}

/// Whether position `k` holds the first file of `items` that belongs to the
/// partition `time`.
pub open spec fn is_first_member(
    items: Seq<StampedFile>,
    start: i64,
    time: PartitionTime,
    k: int,
) -> bool {
    &&& 0 <= k < items.len()
    &&& items[k].belongs(start, time)
    &&& forall|j: int| 0 <= j < k ==> !(#[trigger] items[j]).belongs(start, time)
}

/// Whether one of `groups` is that of the partition `time`.
pub open spec fn has_group(groups: Seq<DateGroup>, time: PartitionTime) -> bool {
    exists|g: int| 0 <= g < groups.len() && (#[trigger] groups[g]).time == time
}

/// Whether `groups` sorts the timely files of `items` by partition: no
/// partition has two groups, a group holds the timely files of its partition
/// in the order of `items` and has at least one, every timely file has its
/// group, and the groups stand in the order in which their first files stand
/// in `items`.
pub open spec fn is_grouping(items: Seq<StampedFile>, start: i64, groups: Seq<DateGroup>) -> bool {
    &&& forall|g: int, h: int|
        0 <= g < h < groups.len() ==> (#[trigger] groups[g]).time != (#[trigger] groups[h]).time
    &&& forall|g: int|
        0 <= g < groups.len() ==> (#[trigger] groups[g]).files@ == items.filter(
            |x: StampedFile| x.belongs(start, groups[g].time),
        ).map_values(|x: StampedFile| x.file)
    &&& forall|g: int|
        0 <= g < groups.len() ==> has_member(
            items,
            items.len() as int,
            start,
            (#[trigger] groups[g]).time,
        )
    &&& forall|i: int|
        0 <= i < items.len() && (#[trigger] items[i]).timely(start) ==> has_group(
            groups,
            items[i].stamp.unwrap().time,
        )
    &&& forall|g: int, h: int, i: int, j: int|
        0 <= g < h < groups.len() && #[trigger] is_first_member(items, start, groups[g].time, i)
            && #[trigger] is_first_member(items, start, groups[h].time, j) ==> i < j
}

/// Whether every file of `items` has a stamp.
pub open spec fn all_stamped(items: Seq<StampedFile>) -> bool {
    forall|i: int| 0 <= i < items.len() ==> (#[trigger] items[i]).stamp.is_some()
}

fn every_stamp_read(items: &Vec<StampedFile>) -> (all: bool)
    ensures
        all == all_stamped(items@),
{
    let mut i: usize = 0;
    while i < items.len()
        invariant
            i <= items.len(),
            forall|j: int| 0 <= j < i ==> (#[trigger] items@[j]).stamp.is_some(),
        decreases items.len() - i,
    {
        if items[i].stamp.is_none() {
            return false;
        }
        i += 1;
    }
    true
}

fn position_of(keys: &Vec<PartitionTime>, time: PartitionTime) -> (found: bool)
    ensures
        found == exists|k: int| 0 <= k < keys@.len() && keys@[k] == time,
{
    let mut k: usize = 0;
    while k < keys.len()
        invariant
            k <= keys.len(),
            forall|j: int| 0 <= j < k ==> keys@[j] != time,
        decreases keys.len() - k,
    {
        if keys[k] == time {
            return true;
        }
        k += 1;
    }
    false
}

fn partitions_of(items: &Vec<StampedFile>, start: i64) -> (keys: Vec<PartitionTime>)
    ensures
        forall|g: int, h: int| 0 <= g < h < keys@.len() ==> keys@[g] != keys@[h],
        forall|g: int|
            0 <= g < keys@.len() ==> has_member(
                items@,
                items@.len() as int,
                start,
                #[trigger] keys@[g],
            ),
        forall|i: int|
            0 <= i < items@.len() && (#[trigger] items@[i]).timely(start) ==> keys@.contains(
                items@[i].stamp.unwrap().time,
            ),
        forall|g: int, h: int, i: int, j: int|
            0 <= g < h < keys@.len() && #[trigger] is_first_member(items@, start, keys@[g], i)
                && #[trigger] is_first_member(items@, start, keys@[h], j) ==> i < j,
{
    let mut keys: Vec<PartitionTime> = Vec::new();
    let ghost mut firsts: Seq<int> = Seq::empty();
    let mut i: usize = 0;
    while i < items.len()
        invariant
            i <= items.len(),
            firsts.len() == keys@.len(),
            forall|g: int|
                0 <= g < keys@.len() ==> (#[trigger] firsts[g]) < i && is_first_member(
                    items@,
                    start,
                    keys@[g],
                    firsts[g],
                ),
            forall|g: int, h: int|
                0 <= g < h < keys@.len() ==> (#[trigger] firsts[g]) < (#[trigger] firsts[h]),
            forall|g: int, h: int| 0 <= g < h < keys@.len() ==> keys@[g] != keys@[h],
            forall|g: int|
                0 <= g < keys@.len() ==> has_member(items@, i as int, start, #[trigger] keys@[g]),
            forall|j: int|
                0 <= j < i && (#[trigger] items@[j]).timely(start) ==> keys@.contains(
                    items@[j].stamp.unwrap().time,
                ),
        decreases items.len() - i,
    {
        let ghost before = keys@;
        if let Some(stamp) = items[i].stamp {
            if stamp.millis >= start {
                if !position_of(&keys, stamp.time) {
                    keys.push(stamp.time);
                    proof {
                        assert(keys@[before.len() as int] == stamp.time);
                        assert forall|j: int| 0 <= j < i implies !(#[trigger] items@[j]).belongs(
                            start,
                            stamp.time,
                        ) by {
                            if items@[j].belongs(start, stamp.time) {
                                assert(before.contains(stamp.time));
                            }
                        }
                        firsts = firsts.push(i as int);
                    }
                }
                proof {
                    assert(items@[i as int].belongs(start, stamp.time));
                    assert(keys@.contains(stamp.time));
                }
            }
        }
        proof {
            assert forall|g: int| 0 <= g < keys@.len() implies has_member(
                items@,
                i + 1,
                start,
                #[trigger] keys@[g],
            ) by {
                if g < before.len() {
                    assert(keys@[g] == before[g]);
                    assert(has_member(items@, i as int, start, before[g]));
                    let j = choose|j: int|
                        0 <= j < i && j < items@.len() && #[trigger] items@[j].belongs(
                            start,
                            before[g],
                        );
                    assert(items@[j].belongs(start, keys@[g]));
                } else {
                    assert(items@[i as int].belongs(start, keys@[g]));
                }
            }
            assert forall|j: int|
                0 <= j < i + 1 && (#[trigger] items@[j]).timely(start) implies keys@.contains(
                items@[j].stamp.unwrap().time,
            ) by {
                if j < i {
                    let time = items@[j].stamp.unwrap().time;
                    assert(before.contains(time));
                    let g = choose|g: int| 0 <= g < before.len() && before[g] == time;
                    assert(keys@[g] == time);
                }
            }
        }
        i += 1;
    }
    proof {
        assert forall|g: int, h: int, a: int, b: int|
            0 <= g < h < keys@.len() && #[trigger] is_first_member(items@, start, keys@[g], a)
                && #[trigger] is_first_member(items@, start, keys@[h], b) implies a < b by {
            assert(is_first_member(items@, start, keys@[g], firsts[g]));
            assert(is_first_member(items@, start, keys@[h], firsts[h]));
            assert(a == firsts[g]);
            assert(b == firsts[h]);
        }
    }
    keys
}

fn files_of_partition(items: &Vec<StampedFile>, start: i64, time: PartitionTime) -> (files: Vec<
    File,
>)
    ensures
        files@ == items@.filter(|x: StampedFile| x.belongs(start, time)).map_values(
            |x: StampedFile| x.file,
        ),
{
    let ghost keep = |x: StampedFile| x.belongs(start, time);
    let ghost file_of = |x: StampedFile| x.file;
    let mut files: Vec<File> = Vec::new();
    let mut i: usize = 0;
    while i < items.len()
        invariant
            i <= items.len(),
            keep == (|x: StampedFile| x.belongs(start, time)),
            file_of == (|x: StampedFile| x.file),
            files@ == items@.subrange(0, i as int).filter(keep).map_values(file_of),
        decreases items.len() - i,
    {
        proof {
            lemma_filter_prefix_step(items@, i as int, keep);
        }
        let wanted = match items[i].stamp {
            Some(stamp) => stamp.millis >= start && stamp.time == time,
            None => false,
        };
        if wanted {
            files.push(items[i].file.clone());
            proof {
                let sofar = items@.subrange(0, i as int).filter(keep);
                assert(sofar.push(items@[i as int]).map_values(file_of) =~= sofar.map_values(
                    file_of,
                ).push(items@[i as int].file));
            }
        }
        i += 1;
    }
    proof {
        assert(items@.subrange(0, i as int) =~= items@);
    }
    files
}

/// Sorts stamped files by partition. A file without a stamp fails the whole
/// list. Files whose partition begins before `start` are left out; the
/// others are grouped by partition, each group in the order of the list.
pub fn group_by_partition(items: &Vec<StampedFile>, start: i64) -> (outcome: Result<
    Vec<DateGroup>,
    PruneError,
>)
    ensures
        match outcome {
            Ok(groups) => all_stamped(items@) && is_grouping(items@, start, groups@),
            Err(error) => !all_stamped(items@) && error == PruneError::MalformedPath,
        },
{
    if !every_stamp_read(items) {
        return Err(PruneError::MalformedPath);
    }
    let keys = partitions_of(items, start);
    let mut groups: Vec<DateGroup> = Vec::new();
    let mut g: usize = 0;
    while g < keys.len()
        invariant
            g <= keys.len(),
            groups@.len() == g,
            forall|h: int| 0 <= h < g ==> (#[trigger] groups@[h]).time == keys@[h],
            forall|h: int|
                0 <= h < g ==> (#[trigger] groups@[h]).files@ == items@.filter(
                    |x: StampedFile| x.belongs(start, groups@[h].time),
                ).map_values(|x: StampedFile| x.file),
        decreases keys.len() - g,
    {
        let files = files_of_partition(items, start, keys[g]);
        groups.push(DateGroup { time: keys[g], files });
        g += 1;
    }
    proof {
        assert forall|i: int|
            0 <= i < items@.len() && (#[trigger] items@[i]).timely(start) implies has_group(
            groups@,
            items@[i].stamp.unwrap().time,
        ) by {
            let time = items@[i].stamp.unwrap().time;
            assert(keys@.contains(time));
            let k = choose|k: int| 0 <= k < keys@.len() && keys@[k] == time;
            assert(groups@[k].time == time);
        }
    }
    Ok(groups)
}

/// The manifests that a query over `time_range` on `stream` has to fetch:
/// those of the snapshots of all shards whose span touches the range.
pub fn manifests_to_fetch(
    stream: &str,
    time_partition: Option<String>,
    snapshots: &Vec<Snapshot>,
    time_range: &TimeRange,
) -> (selected: Vec<ManifestItem>)
    ensures
        selected@ == all_items(snapshots@).filter(
            |item: ManifestItem| item.in_range(range_filters(*time_range)),
        ),
{
    let filters = time_filters(time_range, time_partition, stream);
    let merged = merge_snapshots(snapshots);
    merged.manifests_for_range(filters.as_slice())
}

/// The files of `manifests` that a query over `time_range` reads. Files are
/// taken last to first; those whose own bounds lie outside the range are
/// dropped; the partition of each other file is read off its path, and the
/// files whose partition begins at or after the start of the range are
/// grouped by partition.
pub fn fetch_parquet_file_paths(
    stream: &str,
    time_partition: Option<String>,
    manifests: &Vec<Manifest>,
    time_range: &TimeRange,
) -> (outcome: Result<Vec<DateGroup>, PruneError>)
    ensures
        ({
            let kept = reversed_files(manifests@).filter(
                |f: File| f.passes(range_filters(*time_range)),
            );
            let items = kept.map_values(|f: File| stamped(f));
            match outcome {
                Ok(groups) => all_stamped(items) && is_grouping(items, time_range.start, groups@),
                Err(error) => !all_stamped(items) && error == PruneError::MalformedPath,
            }
        }),
{
    let filters = time_filters(time_range, time_partition, stream);
    let all = collect_files_reversed(manifests);
    let kept = select_files(&all, filters.as_slice());
    let items = stamp_files(&kept);
    group_by_partition(&items, time_range.start)
}

} // verus!
