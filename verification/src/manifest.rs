//! Data files and the manifests that list them.

use vstd::prelude::*;
use crate::timefilter::PartialTimeFilter;

verus! {

/// Why a file or a manifest was refused.
#[derive(Clone, Copy, Debug, PartialEq, Eq, Structural)]
pub enum CatalogError {
    /// The file's lower bound lies after its upper bound.
    InvalidFile,
    /// The manifest's lower bound lies after its upper bound.
    InvalidManifest,
}

/// One columnar data file, immutable once written.
#[derive(Debug)]
pub struct File {
    pub file_path: String,
    pub num_rows: u64,
    pub file_size: u64,
    pub ingestion_size: u64,
    /// Smallest timestamp of the partition column in the file.
    pub time_lower_bound: i64,
    /// Largest timestamp of the partition column in the file.
    pub time_upper_bound: i64,
}

impl Clone for File {
    fn clone(&self) -> (copy: Self)
        ensures
            copy == *self,
    {
        File {
            file_path: self.file_path.clone(),
            num_rows: self.num_rows,
            file_size: self.file_size,
            ingestion_size: self.ingestion_size,
            time_lower_bound: self.time_lower_bound,
            time_upper_bound: self.time_upper_bound,
        }
    }
}

impl File {
    /// A file can be left out for a filter when the pruning rule does not
    /// keep its range of timestamps.
    pub open spec fn prunable(self, filter: PartialTimeFilter) -> bool {
        !filter.touches(self.time_lower_bound as int, self.time_upper_bound as int)
    }

    /// Whether the file passes every filter of a list.
    pub open spec fn passes(self, filters: Seq<PartialTimeFilter>) -> bool {
        forall|k: int| 0 <= k < filters.len() ==> !self.prunable(#[trigger] filters[k])
    }

    /// Whether the file provably holds no row that satisfies `filter`.
    pub fn can_be_pruned(&self, filter: &PartialTimeFilter) -> (pruned: bool)
        ensures
            pruned == self.prunable(*filter),
    {
        !filter.keeps_range(self.time_lower_bound, self.time_upper_bound)
    }

    /// Whether no filter of `filters` prunes the file.
    pub fn passes_all(&self, filters: &[PartialTimeFilter]) -> (kept: bool)
        ensures
            kept == self.passes(filters@),
    {
        let mut k: usize = 0;
        while k < filters.len()
            invariant
                k <= filters.len(),
                forall|j: int| 0 <= j < k ==> !self.prunable(#[trigger] filters@[j]),
            decreases filters.len() - k,
        {
            if self.can_be_pruned(&filters[k]) {
                return false;
            }
            k += 1;
        }
        true
    }
}

/// A file with ordered bounds is pruned exactly when no instant between its
/// bounds satisfies the filter. So a file that lies fully outside the filter
/// is pruned, and one that lies inside it or straddles its limit never is.
pub proof fn lemma_pruned_iff_fully_outside(file: File, filter: PartialTimeFilter)
    requires
        file.time_lower_bound <= file.time_upper_bound,
    ensures
        file.prunable(filter) <==> forall|t: int|
            file.time_lower_bound <= t <= file.time_upper_bound ==> !#[trigger] filter.admits(t),
{
    crate::timefilter::lemma_touches_iff_some_instant_admitted(
        filter,
        file.time_lower_bound as int,
        file.time_upper_bound as int,
    );
}

/// The smaller of two timestamps.
pub open spec fn earlier(a: i64, b: i64) -> i64 {
    if a <= b {
        a
    } else {
        b
    }
}

/// The larger of two timestamps.
pub open spec fn later(a: i64, b: i64) -> i64 {
    if a >= b {
        a
    } else {
        b
    }
}

/// The files written together by one flush, with the span of time that they
/// cover. An empty manifest covers the empty span, from `i64::MAX` down to
/// `i64::MIN`.
#[derive(Debug)]
pub struct Manifest {
    pub manifest_path: String,
    pub files: Vec<File>,
    pub time_lower_bound: i64,
    pub time_upper_bound: i64,
}

impl Manifest {
    /// Every file has ordered bounds that lie within the manifest's.
    pub open spec fn wf(self) -> bool {
        forall|i: int|
            0 <= i < self.files@.len() ==> {
                &&& self.time_lower_bound <= (#[trigger] self.files@[i]).time_lower_bound
                &&& self.files@[i].time_lower_bound <= self.files@[i].time_upper_bound
                &&& self.files@[i].time_upper_bound <= self.time_upper_bound
            }
    }

    /// The bounds are no wider than the files need: some file begins at the
    /// lower bound and some file ends at the upper bound, and a manifest
    /// without files covers the empty span.
    pub open spec fn tight(self) -> bool {
        if self.files@.len() == 0 {
            self.time_lower_bound == i64::MAX && self.time_upper_bound == i64::MIN
        } else {
            &&& exists|i: int|
                0 <= i < self.files@.len() && (#[trigger] self.files@[i]).time_lower_bound
                    == self.time_lower_bound
            &&& exists|i: int|
                0 <= i < self.files@.len() && (#[trigger] self.files@[i]).time_upper_bound
                    == self.time_upper_bound
        }
    }

    /// A manifest at `manifest_path` that lists no file yet.
    pub fn new(manifest_path: String) -> (manifest: Manifest)
        ensures
            manifest.wf(),
            manifest.tight(),
            manifest.manifest_path == manifest_path,
            manifest.files@.len() == 0,
    {
        Manifest {
            manifest_path,
            files: Vec::new(),
            time_lower_bound: i64::MAX,
            time_upper_bound: i64::MIN,
        }
    }

    /// Adds a file and widens the manifest's bounds to cover it. A file whose
    /// lower bound lies after its upper bound is refused, and the manifest
    /// stays as it was.
    pub fn append(&mut self, file: File) -> (outcome: Result<(), CatalogError>)
        ensures
            file.time_lower_bound > file.time_upper_bound ==> outcome == Err::<(), CatalogError>(
                CatalogError::InvalidFile,
            ) && *final(self) == *old(self),
            file.time_lower_bound <= file.time_upper_bound ==> {
                &&& outcome.is_ok()
                &&& final(self).manifest_path == old(self).manifest_path
                &&& final(self).files@ == old(self).files@.push(file)
                &&& final(self).time_lower_bound == earlier(
                    old(self).time_lower_bound,
                    file.time_lower_bound,
                )
                &&& final(self).time_upper_bound == later(
                    old(self).time_upper_bound,
                    file.time_upper_bound,
                )
            },
            old(self).wf() ==> final(self).wf(),
            old(self).tight() ==> final(self).tight(),
    {
        if file.time_lower_bound > file.time_upper_bound {
            return Err(CatalogError::InvalidFile);
        }
        if file.time_lower_bound < self.time_lower_bound {
            self.time_lower_bound = file.time_lower_bound;
        }
        if file.time_upper_bound > self.time_upper_bound {
            self.time_upper_bound = file.time_upper_bound;
        }
        self.files.push(file);
        proof {
            let n = old(self).files@.len() as int;
            assert(self.files@[n] == file);
            if old(self).wf() {
                assert forall|i: int| 0 <= i < self.files@.len() implies {
                    &&& self.time_lower_bound <= (#[trigger] self.files@[i]).time_lower_bound
                    &&& self.files@[i].time_lower_bound <= self.files@[i].time_upper_bound
                    &&& self.files@[i].time_upper_bound <= self.time_upper_bound
                } by {
                    if i < n {
                        assert(self.files@[i] == old(self).files@[i]);
                    }
                }
            }
            if old(self).tight() {
                if self.time_lower_bound != file.time_lower_bound {
                    let w = choose|i: int|
                        0 <= i < n && (#[trigger] old(self).files@[i]).time_lower_bound == old(
                            self,
                        ).time_lower_bound;
                    assert(self.files@[w] == old(self).files@[w]);
                }
                if self.time_upper_bound != file.time_upper_bound {
                    let w = choose|i: int|
                        0 <= i < n && (#[trigger] old(self).files@[i]).time_upper_bound == old(
                            self,
                        ).time_upper_bound;
                    assert(self.files@[w] == old(self).files@[w]);
                }
            }
        }
        Ok(())
    }

    /// Whether every file of the manifest ends before `retain_from`, so that
    /// retention may delete the manifest as a whole. A manifest without files
    /// holds nothing to retain.
    pub open spec fn aged_out(self, retain_from: i64) -> bool {
        forall|i: int|
            0 <= i < self.files@.len() ==> (#[trigger] self.files@[i]).time_upper_bound
                < retain_from
    }

    /// Decides whether all files of the manifest have fallen out of the
    /// retention window that begins at `retain_from`.
    pub fn is_aged_out(&self, retain_from: i64) -> (aged: bool)
        ensures
            aged == self.aged_out(retain_from),
    {
        let mut i: usize = 0;
        while i < self.files.len()
            invariant
                i <= self.files.len(),
                forall|j: int|
                    0 <= j < i ==> (#[trigger] self.files@[j]).time_upper_bound < retain_from,
            decreases self.files.len() - i,
        {
            if self.files[i].time_upper_bound >= retain_from {
                return false;
            }
            i += 1;
        }
        true
    }

    /// Rewrites the manifest with only the files that pass every filter, in
    /// their order. The bounds are left as they were: they still cover every
    /// file that stays.
    pub fn retain_matching(&mut self, filters: &[PartialTimeFilter])
        ensures
            final(self).manifest_path == old(self).manifest_path,
            final(self).time_lower_bound == old(self).time_lower_bound,
            final(self).time_upper_bound == old(self).time_upper_bound,
            final(self).files@ == old(self).files@.filter(|f: File| f.passes(filters@)),
            old(self).wf() ==> final(self).wf(),
    {
        let kept = select_files(&self.files, filters);
        proof {
            if old(self).wf() {
                assert forall|i: int| 0 <= i < kept@.len() implies {
                    &&& self.time_lower_bound <= (#[trigger] kept@[i]).time_lower_bound
                    &&& kept@[i].time_lower_bound <= kept@[i].time_upper_bound
                    &&& kept@[i].time_upper_bound <= self.time_upper_bound
                } by {
                    assert(kept@.contains(kept@[i]));
                    old(self).files@.lemma_filter_contains_rev(
                        |f: File| f.passes(filters@),
                        kept@[i],
                    );
                    let k = choose|k: int|
                        0 <= k < old(self).files@.len() && old(self).files@[k] == kept@[i];
                    assert(old(self).files@[k] == kept@[i]);
                }
            }
        }
        self.files = kept;
    }
}

/// A manifest whose bounds cover its files and are no wider than they need
/// has aged out exactly when it has no file or its upper bound lies before
/// the retention window.
pub proof fn lemma_aged_out_by_upper_bound(manifest: Manifest, retain_from: i64)
    requires
        manifest.wf(),
        manifest.tight(),
    ensures
        manifest.aged_out(retain_from) <==> manifest.files@.len() == 0
            || manifest.time_upper_bound < retain_from,
{
    if manifest.files@.len() > 0 {
        let top = choose|i: int|
            0 <= i < manifest.files@.len() && (#[trigger] manifest.files@[i]).time_upper_bound
                == manifest.time_upper_bound;
        assert(manifest.files@[top].time_upper_bound == manifest.time_upper_bound);
    }
}

/// The files of a list that pass every filter, in their order.
pub fn select_files(files: &Vec<File>, filters: &[PartialTimeFilter]) -> (kept: Vec<File>)
    ensures
        kept@ == files@.filter(|f: File| f.passes(filters@)),
{
    let ghost keep = |f: File| f.passes(filters@);
    let mut kept: Vec<File> = Vec::new();
    let mut i: usize = 0;
    while i < files.len()
        invariant
            i <= files.len(),
            keep == (|f: File| f.passes(filters@)),
            kept@ == files@.subrange(0, i as int).filter(keep),
        decreases files.len() - i,
    {
        proof {
            crate::text::lemma_filter_prefix_step(files@, i as int, keep);
        }
        if files[i].passes_all(filters) {
            kept.push(files[i].clone());
        }
        i += 1;
    }
    proof {
        assert(files@.subrange(0, i as int) =~= files@);
    }
    kept
}

} // verus!
