use vstd::prelude::*;

use crate::errors::ScanError;
use crate::model::{result_views, Finding, FindingView, Scan, ScanResult, ScanResultView};
use crate::status::JobStatus;

verus! {

/// An in-memory store of scans and their results.
///
/// Every write is an attempt with a number, taken from a logical clock that
/// also stamps what the write stores. The attempts whose numbers were listed
/// when the store was made fail without changing anything, as a database
/// that refuses a write would. Reads do not fail.
pub struct ScanStore {
    scans: Vec<Scan>,
    results: Vec<ScanResult>,
    next_id: u128,
    tick: u64,
    failing: Vec<u64>,
}

pub struct StoreView {
    pub scans: Seq<Scan>,
    pub results: Seq<ScanResultView>,
    pub next_id: u128,
    pub tick: u64,
    pub failing: Seq<u64>,
}

pub open spec fn restamped(s: Scan, id: u128, status: JobStatus, at: u64) -> Scan {
    if s.id == id {
        Scan { status, updated_at: at, ..s }
    } else {
        s
    }
}

impl StoreView {
    pub open spec fn wf(self) -> bool {
        &&& forall|i: int| 0 <= i < self.scans.len() ==> #[trigger] self.scans[i].id < self.next_id
        &&& forall|i: int, j: int|
            0 <= i < j < self.scans.len() ==> #[trigger] self.scans[i].id < #[trigger] self.scans[j].id
        &&& forall|i: int|
            0 <= i < self.results.len() ==> #[trigger] self.results[i].id < self.next_id
        &&& forall|i: int|
            0 <= i < self.results.len() ==> #[trigger] self.results[i].found_at < self.tick
        &&& forall|i: int, j: int|
            0 <= i < j < self.results.len() ==> #[trigger] self.results[i].found_at
                < #[trigger] self.results[j].found_at
        &&& forall|i: int|
            0 <= i < self.results.len() ==> #[trigger] self.has_scan(self.results[i].scan_id)
    }

    /// Whether the next write attempt goes through.
    pub open spec fn attempt_ok(self) -> bool {
        &&& self.tick < u64::MAX
        &&& self.next_id < u128::MAX
        &&& !self.failing.contains(self.tick)
    }

    /// The clock after one more write attempt.
    pub open spec fn bumped(self) -> u64 {
        if self.tick < u64::MAX {
            (self.tick + 1) as u64
        } else {
            self.tick
        }
    }

    /// The store after an attempt to set the status of the scan `id`.
    pub open spec fn after_set_status(self, id: u128, status: JobStatus) -> StoreView {
        if self.attempt_ok() {
            StoreView {
                scans: self.scans.map_values(|s: Scan| restamped(s, id, status, self.tick)),
                tick: self.bumped(),
                ..self
            }
        } else {
            StoreView { tick: self.bumped(), ..self }
        }
    }

    /// Whether an attempt to store a result of the scan `id` goes through.
    pub open spec fn insert_ok(self, id: u128) -> bool {
        self.attempt_ok() && self.has_scan(id)
    }

    /// The store once `finding` was stored as a result of the scan `id`.
    pub open spec fn appended(self, id: u128, finding: FindingView) -> StoreView {
        StoreView {
            results: self.results.push(
                ScanResultView { id: self.next_id, scan_id: id, finding, found_at: self.tick },
            ),
            next_id: (self.next_id + 1) as u128,
            tick: self.bumped(),
            ..self
        }
    }

    /// The store after an attempt to store `finding` as a result of the scan `id`.
    pub open spec fn after_insert(self, id: u128, finding: FindingView) -> StoreView {
        if self.insert_ok(id) {
            self.appended(id, finding)
        } else {
            StoreView { tick: self.bumped(), ..self }
        }
    }

    pub open spec fn has_scan(self, id: u128) -> bool {
        exists|i: int| 0 <= i < self.scans.len() && self.scans[i].id == id
    }

    pub open spec fn scans_of(self, user_id: u128) -> Seq<Scan> {
        owned_by(self.scans, user_id)
    }

    pub open spec fn results_for(self, scan_id: u128) -> Seq<ScanResultView> {
        belonging_to(self.results, scan_id)
    }
}

pub open spec fn owned_by(s: Seq<Scan>, user_id: u128) -> Seq<Scan> {
    s.filter(|x: Scan| x.user_id == user_id)
}

pub open spec fn belonging_to(s: Seq<ScanResultView>, scan_id: u128) -> Seq<ScanResultView> {
    s.filter(|x: ScanResultView| x.scan_id == scan_id)
}

proof fn lemma_wf_keeps(a: StoreView, b: StoreView)
    requires
        a.wf(),
        b.scans == a.scans,
        b.results == a.results,
        b.next_id >= a.next_id,
        b.tick >= a.tick,
    ensures
        b.wf(),
{
    assert forall|i: int| 0 <= i < b.results.len() implies #[trigger] b.has_scan(
        b.results[i].scan_id,
    ) by {
        assert(a.has_scan(a.results[i].scan_id));
    }
}

impl View for ScanStore {
    type V = StoreView;

    closed spec fn view(&self) -> StoreView {
        StoreView {
            scans: self.scans@,
            results: result_views(self.results@),
            next_id: self.next_id,
            tick: self.tick,
            failing: self.failing@,
        }
    }
}

impl ScanStore {
    /// An empty store whose write attempts numbered in `failing` will fail.
    pub fn with_failing_writes(failing: Vec<u64>) -> (r: ScanStore)
        ensures
            r@.wf(),
            r@.scans.len() == 0,
            r@.results.len() == 0,
            r@.tick == 0,
            r@.next_id == 1,
            r@.failing == failing@,
    {
        ScanStore { scans: Vec::new(), results: Vec::new(), next_id: 1, tick: 0, failing }
    }

    /// An empty store in which every write goes through.
    pub fn new() -> (r: ScanStore)
        ensures
            r@.wf(),
            r@.scans.len() == 0,
            r@.results.len() == 0,
            r@.tick == 0,
            r@.next_id == 1,
            r@.failing.len() == 0,
    {
        ScanStore::with_failing_writes(Vec::new())
    }

    /// Number of the next write attempt.
    pub fn clock(&self) -> (r: u64)
        ensures
            r == self@.tick,
    {
        self.tick
    }

    fn is_failing(&self, n: u64) -> (r: bool)
        ensures
            r == self@.failing.contains(n),
    {
        let mut i: usize = 0;
        while i < self.failing.len()
            invariant
                i <= self.failing@.len(),
                forall|j: int| 0 <= j < i ==> self.failing@[j] != n,
            decreases self.failing@.len() - i,
        {
            if self.failing[i] == n {
                return true;
            }
            i = i + 1;
        }
        false
    }

    /// Takes the next attempt number; says whether the attempt goes through.
    fn attempt(&mut self) -> (ok: bool)
        requires
            old(self)@.wf(),
        ensures
            final(self)@.wf(),
            ok == old(self)@.attempt_ok(),
            final(self)@ == (StoreView { tick: old(self)@.bumped(), ..old(self)@ }),
    {
        if self.tick == u64::MAX {
            return false;
        }
        let refused = self.is_failing(self.tick) || self.next_id == u128::MAX;
        let ghost before = self@;
        self.tick = self.tick + 1;
        proof {
            lemma_wf_keeps(before, self@);
        }
        !refused
    }

    fn fresh_id(&mut self) -> (r: u128)
        requires
            old(self)@.wf(),
            old(self).next_id < u128::MAX,
        ensures
            final(self)@.wf(),
            r == old(self)@.next_id,
            final(self)@ == (StoreView { next_id: (old(self)@.next_id + 1) as u128, ..old(self)@ }),
    {
        let id = self.next_id;
        let ghost before = self@;
        self.next_id = id + 1;
        proof {
            lemma_wf_keeps(before, self@);
        }
        id
    }

    /// Records a new scan for `user_id`, pending, with a fresh identifier.
    pub fn create_scan(&mut self, user_id: u128) -> (r: Result<Scan, ScanError>)
        requires
            old(self)@.wf(),
        ensures
            final(self)@.wf(),
            final(self)@.tick == old(self)@.bumped(),
            final(self)@.failing == old(self)@.failing,
            final(self)@.results == old(self)@.results,
            r is Ok <==> old(self)@.attempt_ok(),
            r matches Ok(s) ==> {
                &&& s == (Scan {
                    id: old(self)@.next_id,
                    user_id,
                    status: JobStatus::Pending,
                    created_at: old(self)@.tick,
                    updated_at: old(self)@.tick,
                })
                &&& final(self)@.scans == old(self)@.scans.push(s)
                &&& final(self)@.has_scan(s.id)
                &&& final(self)@.next_id == old(self)@.next_id + 1
                &&& forall|i: int|
                    0 <= i < old(self)@.scans.len() ==> #[trigger] old(self)@.scans[i].id != s.id
                &&& forall|i: int|
                    0 <= i < old(self)@.results.len() ==> #[trigger] old(self)@.results[i].id
                        != s.id
            },
            r matches Err(e) ==> {
                &&& e == ScanError::StorageError
                &&& final(self)@.scans == old(self)@.scans
                &&& final(self)@.next_id == old(self)@.next_id
            },
    {
        let at = self.tick;
        if !self.attempt() {
            return Err(ScanError::StorageError);
        }
        let id = self.fresh_id();
        let scan = Scan { id, user_id, status: JobStatus::Pending, created_at: at, updated_at: at };
        let ghost before = self@;
        self.scans.push(scan);
        proof {
            assert forall|i: int| 0 <= i < self@.results.len() implies #[trigger] self@.has_scan(
                self@.results[i].scan_id,
            ) by {
                assert(before.has_scan(before.results[i].scan_id));
                let k = choose|k: int|
                    0 <= k < before.scans.len() && before.scans[k].id == before.results[i].scan_id;
                assert(self@.scans[k] == before.scans[k]);
            }
            assert(self@.scans[self@.scans.len() - 1].id == id);
        }
        Ok(scan)
    }

    fn index_of(&self, scan_id: u128) -> (r: Option<usize>)
        ensures
            r matches Some(k) ==> k < self@.scans.len() && self@.scans[k as int].id == scan_id,
            r is None ==> !self@.has_scan(scan_id),
    {
        let mut i: usize = 0;
        while i < self.scans.len()
            invariant
                i <= self.scans@.len(),
                forall|j: int| 0 <= j < i ==> self.scans@[j].id != scan_id,
            decreases self.scans@.len() - i,
        {
            if self.scans[i].id == scan_id {
                return Some(i);
            }
            i = i + 1;
        }
        None
    }

    /// Sets the status of the scan `scan_id`, stamping it with the attempt's
    /// number. A scan that does not exist is left alone.
    pub fn update_scan_status(&mut self, scan_id: u128, status: JobStatus) -> (r: Result<
        (),
        ScanError,
    >)
        requires
            old(self)@.wf(),
        ensures
            final(self)@.wf(),
            final(self)@.tick == old(self)@.bumped(),
            final(self)@.failing == old(self)@.failing,
            final(self)@.next_id == old(self)@.next_id,
            final(self)@.results == old(self)@.results,
            final(self)@ == old(self)@.after_set_status(scan_id, status),
            r is Ok <==> old(self)@.attempt_ok(),
            r is Ok ==> final(self)@.scans == old(self)@.scans.map_values(
                |s: Scan| restamped(s, scan_id, status, old(self)@.tick),
            ),
            r matches Err(e) ==> e == ScanError::StorageError && final(self)@.scans == old(
                self,
            )@.scans,
    {
        let at = self.tick;
        if !self.attempt() {
            return Err(ScanError::StorageError);
        }
        let ghost before = self@;
        match self.index_of(scan_id) {
            Some(k) => {
                let old_scan = self.scans[k];
                self.scans.set(k, Scan { status, updated_at: at, ..old_scan });
                proof {
                    assert forall|i: int| 0 <= i < before.scans.len() && i != k implies before.scans[i].id != scan_id by {
                        if i < k {
                            assert(before.scans[i].id < before.scans[k as int].id);
                        } else {
                            assert(before.scans[k as int].id < before.scans[i].id);
                        }
                    }
                }
            },
            None => {},
        }
        assert(self@.scans =~= before.scans.map_values(|s: Scan| restamped(s, scan_id, status, at)));
        proof {
            assert forall|i: int| 0 <= i < self@.results.len() implies #[trigger] self@.has_scan(
                self@.results[i].scan_id,
            ) by {
                assert(before.has_scan(before.results[i].scan_id));
                let k = choose|k: int|
                    0 <= k < before.scans.len() && before.scans[k].id == before.results[i].scan_id;
                assert(self@.scans[k].id == before.scans[k].id);
            }
        }
        Ok(())
    }

    /// Stores `finding` as a result of the scan `scan_id`, with a fresh
    /// identifier and the attempt's number as its discovery time. A result
    /// must belong to a scan that exists.
    pub fn create_scan_result(&mut self, scan_id: u128, finding: Finding) -> (r: Result<
        ScanResult,
        ScanError,
    >)
        requires
            old(self)@.wf(),
        ensures
            final(self)@.wf(),
            final(self)@.tick == old(self)@.bumped(),
            final(self)@.failing == old(self)@.failing,
            final(self)@.scans == old(self)@.scans,
            final(self)@ == old(self)@.after_insert(scan_id, finding@),
            r is Ok <==> old(self)@.insert_ok(scan_id),
            r matches Ok(x) ==> {
                &&& x@ == (ScanResultView {
                    id: old(self)@.next_id,
                    scan_id,
                    finding: finding@,
                    found_at: old(self)@.tick,
                })
                &&& final(self)@.results == old(self)@.results.push(x@)
                &&& final(self)@.next_id == old(self)@.next_id + 1
            },
            r matches Err(e) ==> {
                &&& e == ScanError::StorageError
                &&& final(self)@.results == old(self)@.results
                &&& final(self)@.next_id == old(self)@.next_id
            },
    {
        let at = self.tick;
        if !self.attempt() {
            return Err(ScanError::StorageError);
        }
        let found = self.index_of(scan_id);
        if found.is_none() {
            return Err(ScanError::StorageError);
        }
        let id = self.fresh_id();
        let stored = ScanResult {
            id,
            scan_id,
            finding_type: finding.finding_type,
            details: finding.details,
            risk_level: finding.risk_level,
            source_link: finding.source_link,
            found_at: at,
        };
        let copy = stored.copy();
        let ghost before = self@;
        self.results.push(stored);
        assert(self@.results =~= before.results.push(copy@));
        proof {
            assert(before.has_scan(scan_id)) by {
                let k = found.unwrap() as int;
                assert(before.scans[k].id == scan_id);
            }
            assert forall|i: int| 0 <= i < self@.results.len() implies #[trigger] self@.has_scan(
                self@.results[i].scan_id,
            ) by {
                if i < before.results.len() {
                    assert(self@.results[i] == before.results[i]);
                    assert(before.has_scan(before.results[i].scan_id));
                }
            }
        }
        Ok(copy)
    }

    /// The scans of `user_id`, in the order they were created.
    pub fn get_scans_by_user(&self, user_id: u128) -> (r: Vec<Scan>)
        ensures
            r@ == self@.scans_of(user_id),
    {
        let mut r: Vec<Scan> = Vec::new();
        let mut i: usize = 0;
        while i < self.scans.len()
            invariant
                i <= self.scans@.len(),
                r@ == owned_by(self.scans@.take(i as int), user_id),
            decreases self.scans@.len() - i,
        {
            let s = self.scans[i];
            assert(self.scans@.take(i + 1).drop_last() =~= self.scans@.take(i as int));
            assert(self.scans@.take(i + 1).last() == s);
            proof {
                reveal_with_fuel(Seq::filter, 1);
                let p = |x: Scan| x.user_id == user_id;
                assert(owned_by(self.scans@.take(i + 1), user_id) == (if p(s) {
                    owned_by(self.scans@.take(i as int), user_id).push(s)
                } else {
                    owned_by(self.scans@.take(i as int), user_id)
                }));
            }
            if s.user_id == user_id {
                r.push(s);
            }
            i = i + 1;
        }
        assert(self.scans@.take(i as int) =~= self.scans@);
        r
    }

    /// The results of the scan `scan_id`, in the order they were stored,
    /// which is also the order of their discovery times.
    pub fn get_scan_results_by_scan(&self, scan_id: u128) -> (r: Vec<ScanResult>)
        ensures
            result_views(r@) == self@.results_for(scan_id),
    {
        let ghost all = result_views(self.results@);
        let mut r: Vec<ScanResult> = Vec::new();
        let mut i: usize = 0;
        while i < self.results.len()
            invariant
                i <= self.results@.len(),
                all == result_views(self.results@),
                result_views(r@) == belonging_to(all.take(i as int), scan_id),
            decreases self.results@.len() - i,
        {
            assert(all.take(i + 1).drop_last() =~= all.take(i as int));
            assert(all.take(i + 1).last() == self.results@[i as int]@);
            proof {
                reveal_with_fuel(Seq::filter, 1);
                let x = self.results@[i as int]@;
                let p = |y: ScanResultView| y.scan_id == scan_id;
                assert(belonging_to(all.take(i + 1), scan_id) == (if p(x) {
                    belonging_to(all.take(i as int), scan_id).push(x)
                } else {
                    belonging_to(all.take(i as int), scan_id)
                }));
            }
            if self.results[i].scan_id == scan_id {
                let c = self.results[i].copy();
                let ghost before = r@;
                r.push(c);
                assert(result_views(r@) =~= result_views(before).push(c@));
            }
            i = i + 1;
        }
        assert(all.take(i as int) =~= all);
        r
    }

    /// The scan with identifier `scan_id`, if there is one.
    pub fn find_scan(&self, scan_id: u128) -> (r: Option<Scan>)
        ensures
            r is None <==> !self@.has_scan(scan_id),
            r matches Some(s) ==> exists|i: int|
                0 <= i < self@.scans.len() && self@.scans[i] == s && s.id == scan_id,
    {
        match self.index_of(scan_id) {
            Some(k) => Some(self.scans[k]),
            None => None,
        }
    }
}

} // verus!
