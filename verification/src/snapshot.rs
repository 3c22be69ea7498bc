//! The per-stream index of manifests.

use vstd::prelude::*;
use crate::manifest::CatalogError;
use crate::manifest::Manifest;
use crate::text::lemma_filter_prefix_step;
use crate::text::has_name;
use crate::text::is_name_of;
use crate::text::str_eq;
use crate::timefilter::range_filters;
use crate::timefilter::PartialTimeFilter;
use crate::timefilter::TimeBound;
use crate::timefilter::TimeRange;

verus! {

/// A reference to one manifest: where it is stored and the span of time
/// that its files cover.
#[derive(Debug)]
pub struct ManifestItem {
    pub manifest_path: String,
    pub time_lower_bound: i64,
    pub time_upper_bound: i64,
    pub events_ingested: u64,
    pub ingestion_size: u64,
    pub storage_size: u64,
}

impl Clone for ManifestItem {
    fn clone(&self) -> (copy: Self)
        ensures
            copy == *self,
    {
        ManifestItem {
            manifest_path: self.manifest_path.clone(),
            time_lower_bound: self.time_lower_bound,
            time_upper_bound: self.time_upper_bound,
            events_ingested: self.events_ingested,
            ingestion_size: self.ingestion_size,
            storage_size: self.storage_size,
        }
    }
}

impl ManifestItem {
    /// Whether the pruning rule of every filter keeps the item's span.
    pub open spec fn in_range(self, filters: Seq<PartialTimeFilter>) -> bool {
        forall|k: int|
            0 <= k < filters.len() ==> (#[trigger] filters[k]).touches(
                self.time_lower_bound as int,
                self.time_upper_bound as int,
            )
    }

    /// A reference to the manifest at `manifest_path` that covers
    /// `[time_lower_bound, time_upper_bound]`, with no events counted yet.
    /// Bounds out of order are refused.
    pub fn new(manifest_path: String, time_lower_bound: i64, time_upper_bound: i64) -> (item:
        Result<ManifestItem, CatalogError>)
        ensures
            time_lower_bound > time_upper_bound ==> item == Err::<ManifestItem, CatalogError>(
                CatalogError::InvalidManifest,
            ),
            time_lower_bound <= time_upper_bound ==> item == Ok::<ManifestItem, CatalogError>(
                (ManifestItem {
                    manifest_path,
                    time_lower_bound,
                    time_upper_bound,
                    events_ingested: 0,
                    ingestion_size: 0,
                    storage_size: 0,
                }),
            ),
    {
        if time_lower_bound > time_upper_bound {
            return Err(CatalogError::InvalidManifest);
        }
        Ok(
            ManifestItem {
                manifest_path,
                time_lower_bound,
                time_upper_bound,
                events_ingested: 0,
                ingestion_size: 0,
                storage_size: 0,
            },
        )
    }

    /// The reference under which a manifest enters a snapshot. A manifest
    /// without files covers no time and is refused.
    pub fn of_manifest(manifest: &Manifest) -> (item: Result<ManifestItem, CatalogError>)
        ensures
            manifest.time_lower_bound > manifest.time_upper_bound ==> item == Err::<
                ManifestItem,
                CatalogError,
            >(CatalogError::InvalidManifest),
            manifest.time_lower_bound <= manifest.time_upper_bound ==> item == Ok::<
                ManifestItem,
                CatalogError,
            >(
                (ManifestItem {
                    manifest_path: manifest.manifest_path,
                    time_lower_bound: manifest.time_lower_bound,
                    time_upper_bound: manifest.time_upper_bound,
                    events_ingested: 0,
                    ingestion_size: 0,
                    storage_size: 0,
                }),
            ),
    {
        ManifestItem::new(
            manifest.manifest_path.clone(),
            manifest.time_lower_bound,
            manifest.time_upper_bound,
        )
    }

    /// Whether every filter keeps the item's span.
    pub fn is_in_range(&self, filters: &[PartialTimeFilter]) -> (kept: bool)
        ensures
            kept == self.in_range(filters@),
    {
        let mut k: usize = 0;
        while k < filters.len()
            invariant
                k <= filters.len(),
                forall|j: int|
                    0 <= j < k ==> (#[trigger] filters@[j]).touches(
                        self.time_lower_bound as int,
                        self.time_upper_bound as int,
                    ),
            decreases filters.len() - k,
        {
            if !filters[k].keeps_range(self.time_lower_bound, self.time_upper_bound) {
                return false;
            }
            k += 1;
        }
        true
    }
}

/// Whether `least` is the smallest lower bound among `items`: nothing for an
/// empty list, otherwise a bound that some item has and none undercuts.
pub open spec fn is_min_lower_bound(items: Seq<ManifestItem>, least: Option<i64>) -> bool {
    match least {
        None => items.len() == 0,
        Some(bound) => {
            &&& exists|i: int|
                0 <= i < items.len() && (#[trigger] items[i]).time_lower_bound == bound
            &&& forall|i: int|
                0 <= i < items.len() ==> bound <= (#[trigger] items[i]).time_lower_bound
        },
    }
}

/// Whether no reference comes before one with a smaller lower bound.
pub open spec fn is_sorted_by_lower_bound(items: Seq<ManifestItem>) -> bool {
    forall|a: int, b: int|
        0 <= a < b < items.len() ==> (#[trigger] items[a]).time_lower_bound <= (
        #[trigger] items[b]).time_lower_bound
}

/// Whether two references name the same manifest with the same bounds and
/// counters.
pub open spec fn same_item(a: ManifestItem, b: ManifestItem) -> bool {
    &&& a.manifest_path@ == b.manifest_path@
    &&& a.time_lower_bound == b.time_lower_bound
    &&& a.time_upper_bound == b.time_upper_bound
    &&& a.events_ingested == b.events_ingested
    &&& a.ingestion_size == b.ingestion_size
    &&& a.storage_size == b.storage_size
}

/// How often a reference occurs in a list.
pub open spec fn occurrences(items: Seq<ManifestItem>, wanted: ManifestItem) -> nat {
    items.filter(|item: ManifestItem| same_item(item, wanted)).len()
}

/// Whether two lists hold the same references, each as often in the one as
/// in the other, in whatever order.
pub open spec fn same_references(a: Seq<ManifestItem>, b: Seq<ManifestItem>) -> bool {
    forall|wanted: ManifestItem| #[trigger] occurrences(a, wanted) == occurrences(b, wanted)
}

proof fn lemma_occurrences_of_same_item(items: Seq<ManifestItem>, a: ManifestItem, b: ManifestItem)
    requires
        same_item(a, b),
    ensures
        occurrences(items, a) == occurrences(items, b),
{
    let like_a = |item: ManifestItem| same_item(item, a);
    let like_b = |item: ManifestItem| same_item(item, b);
    assert(like_a =~= like_b);
}

proof fn lemma_no_occurrence(items: Seq<ManifestItem>, wanted: ManifestItem)
    requires
        forall|i: int| 0 <= i < items.len() ==> !same_item(#[trigger] items[i], wanted),
    ensures
        occurrences(items, wanted) == 0,
{
    items.lemma_all_neg_filter_empty(|item: ManifestItem| same_item(item, wanted));
}

proof fn lemma_insert_adds_one_occurrence(
    items: Seq<ManifestItem>,
    at: int,
    item: ManifestItem,
    wanted: ManifestItem,
)
    requires
        0 <= at <= items.len(),
    ensures
        occurrences(items.insert(at, item), wanted) == occurrences(items, wanted) + if same_item(
            item,
            wanted,
        ) {
            1nat
        } else {
            0nat
        },
{
    let like = |other: ManifestItem| same_item(other, wanted);
    let left = items.subrange(0, at);
    let right = items.subrange(at, items.len() as int);
    let one = seq![item];
    assert(items =~= left + right);
    assert(items.insert(at, item) =~= (left + one) + right);
    Seq::filter_distributes_over_add(left, right, like);
    Seq::filter_distributes_over_add(left + one, right, like);
    Seq::filter_distributes_over_add(left, one, like);
    assert(one.filter(like) =~= if like(item) {
        one
    } else {
        Seq::empty()
    }) by {
        reveal(Seq::filter);
        assert(one.drop_last() =~= Seq::<ManifestItem>::empty());
        assert(one.drop_last().filter(like) =~= Seq::<ManifestItem>::empty());
        assert(one.last() == item);
    }
}

/// The references that begin at `bound`, in their order.
pub open spec fn starting_at(items: Seq<ManifestItem>, bound: i64) -> Seq<ManifestItem> {
    items.filter(|item: ManifestItem| item.time_lower_bound == bound)
}

proof fn lemma_insert_keeps_order_of_equals(
    items: Seq<ManifestItem>,
    at: int,
    item: ManifestItem,
    bound: i64,
)
    requires
        0 <= at <= items.len(),
        is_sorted_by_lower_bound(items),
        at < items.len() ==> items[at].time_lower_bound > item.time_lower_bound,
    ensures
        starting_at(items.insert(at, item), bound) == if item.time_lower_bound == bound {
            starting_at(items, bound).push(item)
        } else {
            starting_at(items, bound)
        },
{
    let begins = |other: ManifestItem| other.time_lower_bound == bound;
    let left = items.subrange(0, at);
    let right = items.subrange(at, items.len() as int);
    let one = seq![item];
    assert(items =~= left + right);
    assert(items.insert(at, item) =~= (left + one) + right);
    Seq::filter_distributes_over_add(left, right, begins);
    Seq::filter_distributes_over_add(left + one, right, begins);
    Seq::filter_distributes_over_add(left, one, begins);
    assert(one.filter(begins) =~= if begins(item) {
        one
    } else {
        Seq::empty()
    }) by {
        reveal(Seq::filter);
        assert(one.drop_last() =~= Seq::<ManifestItem>::empty());
        assert(one.drop_last().filter(begins) =~= Seq::<ManifestItem>::empty());
        assert(one.last() == item);
    }
    if item.time_lower_bound == bound {
        assert forall|j: int| 0 <= j < right.len() implies !begins(#[trigger] right[j]) by {
            assert(right[j] == items[at + j]);
            if j > 0 {
                assert(items[at].time_lower_bound <= items[at + j].time_lower_bound);
            }
        }
        right.lemma_all_neg_filter_empty(begins);
        assert(right.filter(begins) =~= Seq::<ManifestItem>::empty());
        assert(starting_at(items.insert(at, item), bound) =~= starting_at(items, bound).push(item));
    } else {
        assert(starting_at(items.insert(at, item), bound) =~= starting_at(items, bound));
    }
}

/// The references of a list of snapshots, one snapshot after the other.
pub open spec fn all_items(snapshots: Seq<Snapshot>) -> Seq<ManifestItem>
    decreases snapshots.len(),
{
    if snapshots.len() == 0 {
        Seq::empty()
    } else {
        all_items(snapshots.drop_last()) + snapshots.last()@
    }
}

/// Merges the snapshots of the shards of a stream into one.
pub fn merge_snapshots(snapshots: &Vec<Snapshot>) -> (merged: Snapshot)
    ensures
        merged@ == all_items(snapshots@),
{
    let mut merged = Snapshot::default();
    let mut i: usize = 0;
    proof {
        assert(merged@ =~= all_items(snapshots@.subrange(0, 0)));
    }
    while i < snapshots.len()
        invariant
            i <= snapshots.len(),
            merged@ == all_items(snapshots@.subrange(0, i as int)),
        decreases snapshots.len() - i,
    {
        proof {
            assert(snapshots@.subrange(0, i + 1).drop_last() =~= snapshots@.subrange(0, i as int));
        }
        merged.merge(&snapshots[i]);
        i += 1;
    }
    proof {
        assert(snapshots@.subrange(0, i as int) =~= snapshots@);
    }
    merged
}

/// The manifests of one stream. The order of the list carries no meaning:
/// readers go by the bounds of each item.
#[derive(Debug)]
pub struct Snapshot {
    pub manifest_list: Vec<ManifestItem>,
}

impl View for Snapshot {
    type V = Seq<ManifestItem>;

    open spec fn view(&self) -> Seq<ManifestItem> {
        self.manifest_list@
    }
}

impl Default for Snapshot {
    fn default() -> (snapshot: Snapshot)
        ensures
            snapshot@.len() == 0,
    {
        Snapshot { manifest_list: Vec::new() }
    }
}

impl Snapshot {
    /// The references whose span every filter keeps, in the order of the
    /// list. A reference is left out only if it lies fully before a lower
    /// limit or fully at or after an upper limit.
    pub fn manifests_for_range(&self, time_filters: &[PartialTimeFilter]) -> (selected: Vec<
        ManifestItem,
    >)
        ensures
            selected@ == self@.filter(|item: ManifestItem| item.in_range(time_filters@)),
    {
        let ghost keep = |item: ManifestItem| item.in_range(time_filters@);
        let mut selected: Vec<ManifestItem> = Vec::new();
        let mut i: usize = 0;
        while i < self.manifest_list.len()
            invariant
                i <= self.manifest_list.len(),
                keep == (|item: ManifestItem| item.in_range(time_filters@)),
                selected@ == self@.subrange(0, i as int).filter(keep),
            decreases self.manifest_list.len() - i,
        {
            proof {
                lemma_filter_prefix_step(self@, i as int, keep);
            }
            if self.manifest_list[i].is_in_range(time_filters) {
                selected.push(self.manifest_list[i].clone());
            }
            i += 1;
        }
        proof {
            assert(self@.subrange(0, i as int) =~= self@);
        }
        selected
    }

    /// Adds a reference at the end of the list. Nothing else changes.
    pub fn add_manifest(&mut self, item: ManifestItem)
        ensures
            final(self)@ == old(self)@.push(item),
    {
        self.manifest_list.push(item);
    }

    /// The smallest lower bound among the references, or nothing when there
    /// are none.
    pub fn min_lower_bound(&self) -> (least: Option<i64>)
        ensures
            is_min_lower_bound(self@, least),
    {
        if self.manifest_list.len() == 0 {
            return None;
        }
        let mut best: i64 = self.manifest_list[0].time_lower_bound;
        let ghost mut at: int = 0;
        let mut i: usize = 1;
        while i < self.manifest_list.len()
            invariant
                1 <= i <= self.manifest_list.len(),
                0 <= at < i,
                self@[at].time_lower_bound == best,
                forall|j: int| 0 <= j < i ==> best <= (#[trigger] self@[j]).time_lower_bound,
            decreases self.manifest_list.len() - i,
        {
            if self.manifest_list[i].time_lower_bound < best {
                best = self.manifest_list[i].time_lower_bound;
                proof {
                    at = i as int;
                }
            }
            i += 1;
        }
        Some(best)
    }

    /// Deletes every reference to the manifest at `manifest_path` and returns
    /// the smallest lower bound among those that stay, from which the stream's
    /// time of first event is corrected; nothing when none stays.
    pub fn remove_manifest(&mut self, manifest_path: &str) -> (first_event_at: Option<i64>)
        ensures
            final(self)@ == old(self)@.filter(
                |item: ManifestItem| item.manifest_path@ != manifest_path@,
            ),
            is_min_lower_bound(final(self)@, first_event_at),
    {
        let ghost keep = |item: ManifestItem| item.manifest_path@ != manifest_path@;
        let mut kept: Vec<ManifestItem> = Vec::new();
        let mut i: usize = 0;
        while i < self.manifest_list.len()
            invariant
                i <= self.manifest_list.len(),
                keep == (|item: ManifestItem| item.manifest_path@ != manifest_path@),
                kept@ == self@.subrange(0, i as int).filter(keep),
            decreases self.manifest_list.len() - i,
        {
            proof {
                lemma_filter_prefix_step(self@, i as int, keep);
            }
            if !str_eq(self.manifest_list[i].manifest_path.as_str(), manifest_path) {
                kept.push(self.manifest_list[i].clone());
            }
            i += 1;
        }
        proof {
            assert(self@.subrange(0, i as int) =~= self@);
        }
        self.manifest_list = kept;
        self.min_lower_bound()
    }

    /// The paths of the manifests that end before `retain_from`, in the
    /// order of the list: those that retention deletes.
    pub fn aged_out(&self, retain_from: i64) -> (paths: Vec<String>)
        ensures
            paths@.map_values(|path: String| path@) == self@.filter(
                |item: ManifestItem| item.time_upper_bound < retain_from,
            ).map_values(|item: ManifestItem| item.manifest_path@),
    {
        let ghost old_enough = |item: ManifestItem| item.time_upper_bound < retain_from;
        let ghost path_of = |item: ManifestItem| item.manifest_path@;
        let ghost text_of = |path: String| path@;
        let mut paths: Vec<String> = Vec::new();
        let mut i: usize = 0;
        proof {
            assert(paths@.map_values(text_of) =~= self@.subrange(0, 0).filter(
                old_enough,
            ).map_values(path_of));
        }
        while i < self.manifest_list.len()
            invariant
                i <= self.manifest_list.len(),
                old_enough == (|item: ManifestItem| item.time_upper_bound < retain_from),
                path_of == (|item: ManifestItem| item.manifest_path@),
                text_of == (|path: String| path@),
                paths@.map_values(text_of) == self@.subrange(0, i as int).filter(
                    old_enough,
                ).map_values(path_of),
            decreases self.manifest_list.len() - i,
        {
            proof {
                lemma_filter_prefix_step(self@, i as int, old_enough);
            }
            let ghost before = paths@;
            if self.manifest_list[i].time_upper_bound < retain_from {
                paths.push(self.manifest_list[i].manifest_path.clone());
                proof {
                    let sofar = self@.subrange(0, i as int).filter(old_enough);
                    assert(paths@.map_values(text_of) =~= before.map_values(text_of).push(
                        self@[i as int].manifest_path@,
                    ));
                    assert(sofar.push(self@[i as int]).map_values(path_of) =~= sofar.map_values(
                        path_of,
                    ).push(self@[i as int].manifest_path@));
                }
            }
            i += 1;
        }
        proof {
            assert(self@.subrange(0, i as int) =~= self@);
        }
        paths
    }

    /// Deletes every reference to one of the manifests at `manifest_paths`,
    /// as retention does once their files have aged out, and returns the
    /// smallest lower bound among the references that stay.
    pub fn retention_cleanup(&mut self, manifest_paths: &Vec<String>) -> (first_event_at: Option<
        i64,
    >)
        ensures
            final(self)@ == old(self)@.filter(
                |item: ManifestItem| !has_name(manifest_paths@, item.manifest_path@),
            ),
            is_min_lower_bound(final(self)@, first_event_at),
    {
        let ghost keep = |item: ManifestItem| !has_name(manifest_paths@, item.manifest_path@);
        let mut kept: Vec<ManifestItem> = Vec::new();
        let mut i: usize = 0;
        while i < self.manifest_list.len()
            invariant
                i <= self.manifest_list.len(),
                keep == (|item: ManifestItem| !has_name(manifest_paths@, item.manifest_path@)),
                kept@ == self@.subrange(0, i as int).filter(keep),
            decreases self.manifest_list.len() - i,
        {
            proof {
                lemma_filter_prefix_step(self@, i as int, keep);
            }
            if !is_name_of(manifest_paths, self.manifest_list[i].manifest_path.as_str()) {
                kept.push(self.manifest_list[i].clone());
            }
            i += 1;
        }
        proof {
            assert(self@.subrange(0, i as int) =~= self@);
        }
        self.manifest_list = kept;
        self.min_lower_bound()
    }

    /// The references ordered by lower bound, those that begin at the same
    /// instant in the order of the list. Nothing is added and nothing is
    /// lost.
    pub fn sorted_by_lower_bound(&self) -> (sorted: Vec<ManifestItem>)
        ensures
            is_sorted_by_lower_bound(sorted@),
            sorted@.to_multiset() == self@.to_multiset(),
            same_references(sorted@, self@),
            forall|bound: i64| #[trigger] starting_at(sorted@, bound) == starting_at(self@, bound),
    {
        let mut sorted: Vec<ManifestItem> = Vec::new();
        let mut i: usize = 0;
        proof {
            assert(self@.subrange(0, 0) =~= sorted@);
        }
        while i < self.manifest_list.len()
            invariant
                i <= self.manifest_list.len(),
                sorted@.len() == i,
                is_sorted_by_lower_bound(sorted@),
                sorted@.to_multiset() == self@.subrange(0, i as int).to_multiset(),
                same_references(sorted@, self@.subrange(0, i as int)),
                forall|bound: i64| #[trigger]
                    starting_at(sorted@, bound) == starting_at(
                        self@.subrange(0, i as int),
                        bound,
                    ),
            decreases self.manifest_list.len() - i,
        {
            let item = self.manifest_list[i].clone();
            let mut at: usize = 0;
            while at < sorted.len() && sorted[at].time_lower_bound <= item.time_lower_bound
                invariant
                    at <= sorted@.len(),
                    forall|j: int|
                        0 <= j < at ==> (#[trigger] sorted@[j]).time_lower_bound
                            <= item.time_lower_bound,
                decreases sorted.len() - at,
            {
                at += 1;
            }
            let ghost before = sorted@;
            sorted.insert(at, item);
            proof {
                assert forall|wanted: ManifestItem| #[trigger]
                    occurrences(before.insert(at as int, item), wanted) == occurrences(
                        self@.subrange(0, i + 1),
                        wanted,
                    ) by {
                    lemma_insert_adds_one_occurrence(before, at as int, item, wanted);
                    lemma_filter_prefix_step(
                        self@,
                        i as int,
                        |other: ManifestItem| same_item(other, wanted),
                    );
                    assert(occurrences(before, wanted) == occurrences(
                        self@.subrange(0, i as int),
                        wanted,
                    ));
                }
            }
            proof {
                assert forall|bound: i64| #[trigger]
                    starting_at(before.insert(at as int, item), bound) == starting_at(
                        self@.subrange(0, i + 1),
                        bound,
                    ) by {
                    lemma_insert_keeps_order_of_equals(before, at as int, item, bound);
                    lemma_filter_prefix_step(
                        self@,
                        i as int,
                        |other: ManifestItem| other.time_lower_bound == bound,
                    );
                    assert(starting_at(before, bound) == starting_at(
                        self@.subrange(0, i as int),
                        bound,
                    ));
                }
            }
            proof {
                broadcast use vstd::seq_lib::group_to_multiset_ensures;

                assert(self@.subrange(0, i + 1) =~= self@.subrange(0, i as int).push(item));
                assert(sorted@ == before.insert(at as int, item));
                assert forall|a: int, b: int| 0 <= a < b < sorted@.len() implies (
                #[trigger] sorted@[a]).time_lower_bound <= (#[trigger] sorted@[b]).time_lower_bound by {
                    if a < at && b > at {
                        assert(sorted@[a] == before[a]);
                        assert(sorted@[b] == before[b - 1]);
                    } else if a < at && b < at {
                        assert(sorted@[a] == before[a]);
                        assert(sorted@[b] == before[b]);
                    } else if a > at {
                        assert(sorted@[a] == before[a - 1]);
                        assert(sorted@[b] == before[b - 1]);
                    } else if a == at {
                        assert(sorted@[b] == before[b - 1]);
                        assert(before[at as int].time_lower_bound > item.time_lower_bound);
                    } else {
                        assert(sorted@[a] == before[a]);
                    }
                }
            }
            i += 1;
        }
        proof {
            assert(self@.subrange(0, i as int) =~= self@);
        }
        sorted
    }

    /// How often a reference occurs in the snapshot.
    pub fn count_of(&self, wanted: &ManifestItem) -> (count: usize)
        ensures
            count == occurrences(self@, *wanted),
    {
        let ghost like = |item: ManifestItem| same_item(item, *wanted);
        let mut count: usize = 0;
        let mut i: usize = 0;
        while i < self.manifest_list.len()
            invariant
                i <= self.manifest_list.len(),
                count <= i,
                like == (|item: ManifestItem| same_item(item, *wanted)),
                count == self@.subrange(0, i as int).filter(like).len(),
            decreases self.manifest_list.len() - i,
        {
            proof {
                lemma_filter_prefix_step(self@, i as int, like);
            }
            let item = &self.manifest_list[i];
            if str_eq(item.manifest_path.as_str(), wanted.manifest_path.as_str())
                && item.time_lower_bound == wanted.time_lower_bound && item.time_upper_bound
                == wanted.time_upper_bound && item.events_ingested == wanted.events_ingested
                && item.ingestion_size == wanted.ingestion_size && item.storage_size
                == wanted.storage_size {
                count += 1;
            }
            i += 1;
        }
        proof {
            assert(self@.subrange(0, i as int) =~= self@);
        }
        count
    }

    fn covered_by(&self, other: &Snapshot) -> (covered: bool)
        ensures
            covered == forall|i: int|
                0 <= i < self@.len() ==> occurrences(self@, #[trigger] self@[i]) == occurrences(
                    other@,
                    self@[i],
                ),
    {
        let mut i: usize = 0;
        while i < self.manifest_list.len()
            invariant
                i <= self.manifest_list.len(),
                forall|j: int|
                    0 <= j < i ==> occurrences(self@, #[trigger] self@[j]) == occurrences(
                        other@,
                        self@[j],
                    ),
            decreases self.manifest_list.len() - i,
        {
            let wanted = &self.manifest_list[i];
            if self.count_of(wanted) != other.count_of(wanted) {
                return false;
            }
            i += 1;
        }
        true
    }

    /// Whether two snapshots hold the same references, whatever their order.
    pub fn has_same_references(&self, other: &Snapshot) -> (same: bool)
        ensures
            same == same_references(self@, other@),
    {
        let same = self.covered_by(other) && other.covered_by(self);
        proof {
            if same {
                assert forall|wanted: ManifestItem| #[trigger]
                    occurrences(self@, wanted) == occurrences(other@, wanted) by {
                    if exists|i: int| 0 <= i < self@.len() && same_item(self@[i], wanted) {
                        let i = choose|i: int| 0 <= i < self@.len() && same_item(self@[i], wanted);
                        lemma_occurrences_of_same_item(self@, self@[i], wanted);
                        lemma_occurrences_of_same_item(other@, self@[i], wanted);
                    } else if exists|i: int| 0 <= i < other@.len() && same_item(other@[i], wanted) {
                        let i = choose|i: int|
                            0 <= i < other@.len() && same_item(other@[i], wanted);
                        lemma_occurrences_of_same_item(self@, other@[i], wanted);
                        lemma_occurrences_of_same_item(other@, other@[i], wanted);
                    } else {
                        lemma_no_occurrence(self@, wanted);
                        lemma_no_occurrence(other@, wanted);
                    }
                }
            } else {
                if !(forall|i: int|
                    0 <= i < self@.len() ==> occurrences(self@, #[trigger] self@[i]) == occurrences(
                        other@,
                        self@[i],
                    )) {
                    let i = choose|i: int|
                        0 <= i < self@.len() && occurrences(self@, #[trigger] self@[i])
                            != occurrences(other@, self@[i]);
                    assert(occurrences(self@, self@[i]) != occurrences(other@, self@[i]));
                } else {
                    let i = choose|i: int|
                        0 <= i < other@.len() && occurrences(other@, #[trigger] other@[i])
                            != occurrences(self@, other@[i]);
                    assert(occurrences(self@, other@[i]) != occurrences(other@, other@[i]));
                }
            }
        }
        same
    }

    /// Takes over the references of another shard's snapshot, after its own.
    pub fn merge(&mut self, other: &Snapshot)
        ensures
            final(self)@ == old(self)@ + other@,
    {
        let mut i: usize = 0;
        while i < other.manifest_list.len()
            invariant
                i <= other.manifest_list.len(),
                self@ == old(self)@ + other@.subrange(0, i as int),
            decreases other.manifest_list.len() - i,
        {
            self.manifest_list.push(other.manifest_list[i].clone());
            proof {
                assert(self@ =~= old(self)@ + other@.subrange(0, i + 1));
            }
            i += 1;
        }
        proof {
            assert(other@.subrange(0, i as int) =~= other@);
        }
    }
}

/// A reference is selected for a time range `[start, end)` exactly when its
/// span reaches the start and begins before the end.
pub proof fn lemma_range_selects_what_it_meets(item: ManifestItem, time_range: TimeRange)
    ensures
        item.in_range(range_filters(time_range)) <==> item.time_upper_bound >= time_range.start
            && item.time_lower_bound < time_range.end,
{
    let filters = range_filters(time_range);
    assert(filters.len() == 2);
    assert(filters[0] == PartialTimeFilter::Low(TimeBound::Included(time_range.start)));
    assert(filters[1] == PartialTimeFilter::High(TimeBound::Excluded(time_range.end)));
    if item.in_range(filters) {
        assert(filters[0].touches(item.time_lower_bound as int, item.time_upper_bound as int));
        assert(filters[1].touches(item.time_lower_bound as int, item.time_upper_bound as int));
    }
}

/// Holding the same references is an equivalence: every list holds the same
/// references as itself, and the relation can be turned round and chained.
pub proof fn lemma_same_references_is_an_equivalence(
    a: Seq<ManifestItem>,
    b: Seq<ManifestItem>,
    c: Seq<ManifestItem>,
)
    ensures
        same_references(a, a),
        same_references(a, b) ==> same_references(b, a),
        same_references(a, b) && same_references(b, c) ==> same_references(a, c),
{
    if same_references(a, b) {
        assert forall|wanted: ManifestItem| #[trigger]
            occurrences(b, wanted) == occurrences(a, wanted) by {
            assert(occurrences(a, wanted) == occurrences(b, wanted));
        }
        if same_references(b, c) {
            assert forall|wanted: ManifestItem| #[trigger]
                occurrences(a, wanted) == occurrences(c, wanted) by {
                assert(occurrences(a, wanted) == occurrences(b, wanted));
                assert(occurrences(b, wanted) == occurrences(c, wanted));
            }
        }
    }
}

/// Adding two references in either order gives snapshots that hold the same
/// references.
pub proof fn lemma_order_of_adds_is_immaterial(
    before: Seq<ManifestItem>,
    a: ManifestItem,
    b: ManifestItem,
)
    ensures
        same_references(before.push(a).push(b), before.push(b).push(a)),
{
    assert forall|wanted: ManifestItem| #[trigger]
        occurrences(before.push(a).push(b), wanted) == occurrences(
            before.push(b).push(a),
            wanted,
        ) by {
        let like = |item: ManifestItem| same_item(item, wanted);
        let ab = before.push(a).push(b);
        let ba = before.push(b).push(a);
        assert(ab =~= before + seq![a, b]);
        assert(ba =~= before + seq![b, a]);
        Seq::filter_distributes_over_add(before, seq![a, b], like);
        Seq::filter_distributes_over_add(before, seq![b, a], like);
        let two = seq![a, b];
        let owt = seq![b, a];
        reveal_with_fuel(Seq::filter, 3);
        assert(two.drop_last() =~= seq![a]);
        assert(owt.drop_last() =~= seq![b]);
        assert(seq![a].drop_last() =~= Seq::<ManifestItem>::empty());
        assert(seq![b].drop_last() =~= Seq::<ManifestItem>::empty());
        assert(two.last() == b && owt.last() == a);
        assert(seq![a].last() == a && seq![b].last() == b);
        assert(two.filter(like).len() == owt.filter(like).len());
    }
}

/// Two writers that each add a reference to the same snapshot lose neither,
/// whichever of them comes first: both references are in the list afterwards,
/// every earlier reference is still there, and the two orders hold the same
/// references.
pub proof fn lemma_adds_in_either_order_keep_both(
    before: Seq<ManifestItem>,
    a: ManifestItem,
    b: ManifestItem,
)
    ensures
        before.push(a).push(b).contains(a),
        before.push(a).push(b).contains(b),
        before.push(b).push(a).contains(a),
        before.push(b).push(a).contains(b),
        forall|item: ManifestItem| #[trigger]
            before.contains(item) ==> before.push(a).push(b).contains(item) && before.push(
                b,
            ).push(a).contains(item),
        before.push(a).push(b).to_multiset() == before.push(b).push(a).to_multiset(),
{
    let ab = before.push(a).push(b);
    let ba = before.push(b).push(a);
    let n = before.len() as int;
    assert(ab[n] == a && ab[n + 1] == b);
    assert(ba[n] == b && ba[n + 1] == a);
    assert forall|item: ManifestItem| #[trigger] before.contains(item) implies ab.contains(item)
        && ba.contains(item) by {
        let i = choose|i: int| 0 <= i < before.len() && before[i] == item;
        assert(ab[i] == item);
        assert(ba[i] == item);
    }
    broadcast use vstd::seq_lib::group_to_multiset_ensures;
    assert(ab.to_multiset() =~= before.to_multiset().insert(a).insert(b));
    assert(ba.to_multiset() =~= before.to_multiset().insert(b).insert(a));
    assert(ab.to_multiset() =~= ba.to_multiset());
}

} // verus!
