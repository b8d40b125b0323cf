use vstd::prelude::*;

use crate::errors::ScanError;
use crate::model::{result_views, Scan, ScanResult, ScanResultView};
use crate::store::{belonging_to, ScanStore, StoreView};

verus! {

/// A scan together with its results.
#[derive(Debug)]
pub struct FullScanResult {
    pub scan: Scan,
    pub results: Vec<ScanResult>,
}

pub struct FullScanResultView {
    pub scan: Scan,
    pub results: Seq<ScanResultView>,
}

impl View for FullScanResult {
    type V = FullScanResultView;

    open spec fn view(&self) -> FullScanResultView {
        FullScanResultView { scan: self.scan, results: result_views(self.results@) }
    }
}

pub open spec fn full_views(s: Seq<FullScanResult>) -> Seq<FullScanResultView> {
    s.map_values(|f: FullScanResult| f@)
}

/// Every scan of `user_id` in `v`, in creation order, each with its results.
pub open spec fn aggregate(v: StoreView, user_id: u128) -> Seq<FullScanResultView> {
    v.scans_of(user_id).map_values(
        |s: Scan| FullScanResultView { scan: s, results: v.results_for(s.id) },
    )
}

/// Discovery times strictly increase along `s`.
pub open spec fn found_in_order(s: Seq<ScanResultView>) -> bool {
    forall|i: int, j: int| 0 <= i < j < s.len() ==> #[trigger] s[i].found_at < #[trigger] s[j].found_at
}

proof fn lemma_filter_in_order(s: Seq<ScanResultView>, scan_id: u128)
    requires
        found_in_order(s),
    ensures
        found_in_order(belonging_to(s, scan_id)),
    decreases s.len(),
{
    reveal_with_fuel(Seq::filter, 1);
    if s.len() > 0 {
        let t = s.drop_last();
        assert(found_in_order(t));
        lemma_filter_in_order(t, scan_id);
        let ft = belonging_to(t, scan_id);
        assert forall|k: int| 0 <= k < ft.len() implies #[trigger] ft[k].found_at < s.last().found_at by {
            t.lemma_filter_contains_rev(|x: ScanResultView| x.scan_id == scan_id, ft[k]);
            assert(ft.contains(ft[k]));
            let m = choose|m: int| 0 <= m < t.len() && t[m] == ft[k];
            assert(s[m] == t[m]);
        }
    }
}

/// Appending results never changes nor reorders the results a scan already
/// had: they stay the first ones listed for it.
pub proof fn lemma_appended_results_keep_prefix(
    before: Seq<ScanResultView>,
    added: Seq<ScanResultView>,
    scan_id: u128,
)
    ensures
        belonging_to(before + added, scan_id).take(belonging_to(before, scan_id).len() as int)
            == belonging_to(before, scan_id),
{
    Seq::filter_distributes_over_add(before, added, |x: ScanResultView| x.scan_id == scan_id);
    assert(belonging_to(before + added, scan_id).take(belonging_to(before, scan_id).len() as int)
        =~= belonging_to(before, scan_id));
}

/// Reading twice a store that nothing wrote to in between gives the same
/// scans and results.
pub proof fn lemma_reread_identical(first: StoreView, second: StoreView, user_id: u128)
    requires
        first == second,
    ensures
        aggregate(first, user_id) == aggregate(second, user_id),
{
}

/// Whether discovery times never go down along `found_at`.
pub open spec fn times_ascending(found_at: Seq<i64>) -> bool {
    forall|i: int, j: int| 0 <= i < j < found_at.len() ==> #[trigger] found_at[i] <= #[trigger] found_at[j]
}

/// Checks that results read back come in ascending order of discovery.
pub fn in_discovery_order(found_at: &Vec<i64>) -> (r: bool)
    ensures
        r == times_ascending(found_at@),
{
    let mut i: usize = 1;
    if found_at.len() == 0 {
        return true;
    }
    while i < found_at.len()
        invariant
            1 <= i <= found_at@.len(),
            times_ascending(found_at@.take(i as int)),
        decreases found_at@.len() - i,
    {
        if found_at[i - 1] > found_at[i] {
            assert(!times_ascending(found_at@)) by {
                assert(found_at@[i - 1] > found_at@[i as int]);
            }
            return false;
        }
        let ghost next = found_at@.take(i + 1);
        assert forall|a: int, b: int| 0 <= a < b < i + 1 implies #[trigger] next[a]
            <= #[trigger] next[b] by {
            if b < i {
                assert(found_at@.take(i as int)[a] <= found_at@.take(i as int)[b]);
            } else if a < i - 1 {
                assert(found_at@.take(i as int)[a] <= found_at@.take(i as int)[i - 1]);
            }
        }
        i = i + 1;
    }
    assert(found_at@.take(i as int) =~= found_at@);
    true
}

/// Only a user may see their own results.
pub fn check_access(requester: u128, target: u128) -> (r: Result<(), ScanError>)
    ensures
        r is Ok <==> requester == target,
        r matches Err(e) ==> e == ScanError::AuthorizationError,
{
    if requester != target {
        Err(ScanError::AuthorizationError)
    } else {
        Ok(())
    }
}

/// The scans of `target` with their results, for `requester`. Results of a
/// scan come in ascending order of discovery.
pub fn collect_results(store: &ScanStore, requester: u128, target: u128) -> (r: Result<
    Vec<FullScanResult>,
    ScanError,
>)
    requires
        store@.wf(),
    ensures
        requester != target <==> r == Err::<Vec<FullScanResult>, ScanError>(
            ScanError::AuthorizationError,
        ),
        requester == target ==> r is Ok,
        r matches Ok(v) ==> full_views(v@) == aggregate(store@, target),
        r matches Ok(v) ==> forall|k: int|
            0 <= k < v@.len() ==> found_in_order(#[trigger] full_views(v@)[k].results),
{
    check_access(requester, target)?;
    let scans = store.get_scans_by_user(target);
    let ghost agg = aggregate(store@, target);
    let mut out: Vec<FullScanResult> = Vec::new();
    let mut i: usize = 0;
    while i < scans.len()
        invariant
            store@.wf(),
            scans@ == store@.scans_of(target),
            agg == aggregate(store@, target),
            i <= scans@.len(),
            full_views(out@) == agg.take(i as int),
        decreases scans@.len() - i,
    {
        let s = scans[i];
        let results = store.get_scan_results_by_scan(s.id);
        let ghost before = out@;
        out.push(FullScanResult { scan: s, results });
        assert(full_views(out@) =~= full_views(before).push(agg[i as int]));
        assert(agg.take(i + 1) =~= agg.take(i as int).push(agg[i as int]));
        i = i + 1;
    }
    assert(agg.take(i as int) =~= agg);
    proof {
        assert forall|k: int| 0 <= k < out@.len() implies found_in_order(
            #[trigger] full_views(out@)[k].results,
        ) by {
            assert(found_in_order(store@.results));
            lemma_filter_in_order(store@.results, agg[k].scan.id);
        }
    }
    Ok(out)
}

} // verus!
