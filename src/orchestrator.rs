use vstd::prelude::*;

use crate::execution::{Action, ActionView, ExecOutcome, Execution, ExecutionView, Step};
use crate::model::{FindingView, Scan, ScanResultView};
use crate::probe::findings_of;
use crate::status::JobStatus;
use crate::store::{ScanStore, StoreView};

verus! {

/// Every write attempted between `a` and `b` went through.
pub open spec fn clean_between(a: StoreView, b: StoreView) -> bool {
    &&& b.tick < u64::MAX
    &&& b.next_id < u128::MAX
    &&& forall|t: u64| a.tick <= t < b.tick ==> !a.failing.contains(t)
}

/// The next `n` write attempts on `s` are all to go through.
pub open spec fn writes_ok_ahead(s: StoreView, n: nat) -> bool {
    &&& s.tick + n < u64::MAX
    &&& s.next_id + n < u128::MAX
    &&& forall|t: u64| s.tick <= t < s.tick + n ==> !s.failing.contains(t)
}

/// The store after the runner carried out action `a` of the job `id`, which
/// exists in `s`, and whether it went through.
pub open spec fn perform(s: StoreView, id: u128, a: ActionView) -> (StoreView, bool) {
    match a {
        ActionView::SetStatus(st) => (s.after_set_status(id, st), s.attempt_ok()),
        ActionView::Sleep(_) => (s, true),
        ActionView::Insert(f) => if s.attempt_ok() {
            (s.appended(id, f), true)
        } else {
            (StoreView { tick: s.bumped(), ..s }, false)
        },
        ActionView::Stop => (s, true),
    }
}

/// The store and the execution once `e` has run to its end on `s`, one
/// action at a time, each action made once and told whether it went through.
pub open spec fn run_from(s: StoreView, e: ExecutionView) -> (StoreView, ExecutionView)
    decreases e.measure(),
{
    if !e.wf() || e.step is Finished {
        (s, e)
    } else {
        let (s1, ok) = perform(s, e.scan_id, e.action());
        run_from(s1, e.next(ok))
    }
}

/// The job `id` has status `status` in `v`.
pub open spec fn status_is(v: StoreView, id: u128, status: JobStatus) -> bool {
    forall|i: int| 0 <= i < v.scans.len() && #[trigger] v.scans[i].id == id ==> v.scans[i].status
        == status
}

/// The findings stored in `b` after those of `a`.
pub open spec fn added_findings(a: StoreView, b: StoreView) -> Seq<FindingView> {
    b.results.skip(a.results.len() as int).map_values(|r: ScanResultView| r.finding)
}

/// `b` differs from `a` only in the job `id` and in results of it appended.
pub open spec fn touches_only(a: StoreView, b: StoreView, id: u128) -> bool {
    &&& b.failing == a.failing
    &&& a.tick <= b.tick
    &&& a.next_id <= b.next_id
    &&& b.scans.len() == a.scans.len()
    &&& forall|i: int|
        0 <= i < a.scans.len() ==> {
            &&& (#[trigger] b.scans[i]).id == a.scans[i].id
            &&& b.scans[i].user_id == a.scans[i].user_id
            &&& b.scans[i].created_at == a.scans[i].created_at
            &&& a.scans[i].id != id ==> b.scans[i] == a.scans[i]
        }
    &&& a.results.len() <= b.results.len()
    &&& b.results.take(a.results.len() as int) == a.results
    &&& forall|i: int| a.results.len() <= i < b.results.len() ==> (#[trigger] b.results[i]).scan_id == id
}

/// What holds of a run of `e` on a store that was `s0` and is now `s`.
pub open spec fn run_state(s0: StoreView, s: StoreView, e: ExecutionView) -> bool {
    let id = e.scan_id;
    &&& touches_only(s0, s, id)
    &&& (e.step == Step::MarkInProgress ==> s == s0)
    &&& (e.step == Step::Finished(ExecOutcome::Aborted) ==> s.scans == s0.scans && s.results
        == s0.results)
    &&& (match e.step {
        Step::Wait(_) | Step::Record(_) | Step::MarkCompleted | Step::Finished(
            ExecOutcome::Stalled,
        ) => status_is(s, id, JobStatus::InProgress),
        Step::Finished(ExecOutcome::Completed) => status_is(s, id, JobStatus::Completed),
        _ => true,
    })
    &&& (clean_between(s0, s) && e.step != Step::MarkInProgress ==> {
        &&& e.step != Step::Finished(ExecOutcome::Aborted)
        &&& e.step != Step::Finished(ExecOutcome::Stalled)
        &&& e.dropped == 0
        &&& added_findings(s0, s) == findings_of(e.outcomes.take(e.progress() as int))
    })
}

proof fn lemma_clean_prefix(s0: StoreView, s: StoreView, s1: StoreView)
    requires
        clean_between(s0, s1),
        s0.tick <= s.tick,
        s1.tick == s.bumped(),
        s.next_id <= s1.next_id,
        s.failing == s0.failing,
    ensures
        clean_between(s0, s),
        s.attempt_ok(),
{
    assert(!s0.failing.contains(s.tick));
}

proof fn lemma_has_scan_kept(s0: StoreView, s: StoreView, id: u128)
    requires
        s0.has_scan(id),
        touches_only(s0, s, id),
    ensures
        s.has_scan(id),
{
    let k = choose|k: int| 0 <= k < s0.scans.len() && s0.scans[k].id == id;
    assert(s.scans[k].id == id);
}

/// Runs `exec` against `store` until it finishes, and says how it ended.
///
/// Only the job of the execution and the results appended for it change.
/// When every write on the way goes through, the job ends completed and the
/// findings of the probe outcomes have been stored, in order; in particular
/// a run whose probes found nothing completes with no result stored. When
/// the write that marks the job in progress fails, the run ends there and the
/// store keeps its scans and results: a pending job stays pending. In every
/// case the store and the execution end as `run_from` says: the writes are
/// made in order, each once, and a failed one is never retried.
pub fn run_scan(store: &mut ScanStore, exec: &mut Execution) -> (r: ExecOutcome)
    requires
        old(store)@.wf(),
        old(exec)@.wf(),
        old(exec)@.step == Step::MarkInProgress,
        old(exec)@.dropped == 0,
        old(store)@.has_scan(old(exec)@.scan_id),
    ensures
        final(store)@.wf(),
        final(exec)@.step == Step::Finished(r),
        final(exec)@.scan_id == old(exec)@.scan_id,
        final(exec)@.outcomes == old(exec)@.outcomes,
        (final(store)@, final(exec)@) == run_from(old(store)@, old(exec)@),
        touches_only(old(store)@, final(store)@, old(exec)@.scan_id),
        final(store)@.tick <= old(store)@.tick + old(exec)@.outcomes.len() + 2,
        final(store)@.next_id <= old(store)@.next_id + old(exec)@.outcomes.len(),
        writes_ok_ahead(old(store)@, old(exec)@.outcomes.len() + 2) ==> clean_between(
            old(store)@,
            final(store)@,
        ),
        writes_ok_ahead(old(store)@, old(exec)@.outcomes.len() + 2) ==> r == ExecOutcome::Completed
            && status_is(final(store)@, old(exec)@.scan_id, JobStatus::Completed) && added_findings(
            old(store)@,
            final(store)@,
        ) == findings_of(old(exec)@.outcomes),
        r == ExecOutcome::Aborted ==> final(store)@.scans == old(store)@.scans
            && final(store)@.results == old(store)@.results,
        r == ExecOutcome::Completed ==> status_is(
            final(store)@,
            old(exec)@.scan_id,
            JobStatus::Completed,
        ),
        r == ExecOutcome::Stalled ==> status_is(
            final(store)@,
            old(exec)@.scan_id,
            JobStatus::InProgress,
        ),
        !old(store)@.attempt_ok() ==> r == ExecOutcome::Aborted,
        clean_between(old(store)@, final(store)@) ==> r == ExecOutcome::Completed && added_findings(
            old(store)@,
            final(store)@,
        ) == findings_of(old(exec)@.outcomes),
        clean_between(old(store)@, final(store)@) && findings_of(old(exec)@.outcomes).len() == 0
            ==> r == ExecOutcome::Completed && final(store)@.results == old(store)@.results,
{
    let id = exec.scan_id();
    let ghost s0 = store@;
    let ghost outcomes = exec@.outcomes;
    let ghost e0 = exec@;
    assert(s0.results.take(s0.results.len() as int) =~= s0.results);
    while !exec.is_finished()
        invariant
            store@.wf(),
            exec@.wf(),
            exec@.scan_id == id,
            exec@.outcomes == outcomes,
            s0.has_scan(id),
            run_state(s0, store@, exec@),
            !s0.attempt_ok() ==> exec@.step == Step::MarkInProgress || exec@.step == Step::Finished(
                ExecOutcome::Aborted,
            ),
            run_from(store@, exec@) == run_from(s0, e0),
            store@.tick + exec@.writes_left() <= s0.tick + outcomes.len() + 2,
            store@.next_id + exec@.inserts_left() <= s0.next_id + outcomes.len(),
        decreases exec@.measure(),
    {
        let ghost s = store@;
        let ghost x = exec@;
        let action = exec.next_action();
        let ok = match action {
            Action::SetStatus(st) => store.update_scan_status(id, st).is_ok(),
            Action::Sleep(_) => true,
            Action::Insert(f) => store.create_scan_result(id, f).is_ok(),
            Action::Stop => true,
        };
        exec.advance(ok);
        proof {
            let s1 = store@;
            lemma_has_scan_kept(s0, s, id);
            assert(perform(s, id, x.action()) == (s1, ok));
            assert(run_from(s, x) == run_from(s1, exec@));
            let n = outcomes.len();
            if s1.tick != s.tick {
                if clean_between(s0, s1) {
                    lemma_clean_prefix(s0, s, s1);
                }
            }
            match x.step {
                Step::MarkInProgress => {
                    assert(outcomes.take(0) =~= Seq::<crate::probe::ProbeOutcomeView>::empty());
                    assert(s1.results.skip(s0.results.len() as int) =~= Seq::<ScanResultView>::empty());
                    assert(added_findings(s0, s1) =~= Seq::<FindingView>::empty());
                },
                Step::Wait(i) => {
                    outcomes.lemma_filter_map_take_succ(
                        |o: crate::probe::ProbeOutcomeView| o.finding,
                        i as int,
                    );
                },
                Step::Record(i) => {
                    outcomes.lemma_filter_map_take_succ(
                        |o: crate::probe::ProbeOutcomeView| o.finding,
                        i as int,
                    );
                    lemma_has_scan_kept(s0, s, id);
                    if ok {
                        let len0 = s0.results.len() as int;
                        assert(s1.results.take(len0) =~= s.results.take(len0));
                        assert(s1.results.skip(len0) =~= s.results.skip(len0).push(
                            s1.results.last(),
                        ));
                        assert(added_findings(s0, s1) =~= added_findings(s0, s).push(
                            s1.results.last().finding,
                        ));
                    }
                },
                _ => {},
            }
            let e = exec@;
            assert(touches_only(s0, s1, id));
            assert(e.step == Step::MarkInProgress ==> s1 == s0);
            assert(e.step == Step::Finished(ExecOutcome::Aborted) ==> s1.scans == s0.scans && s1.results == s0.results);
            assert(match e.step {
                Step::Wait(_) | Step::Record(_) | Step::MarkCompleted | Step::Finished(
                    ExecOutcome::Stalled,
                ) => status_is(s1, id, JobStatus::InProgress),
                Step::Finished(ExecOutcome::Completed) => status_is(s1, id, JobStatus::Completed),
                _ => true,
            });
            assert(clean_between(s0, s1) && e.step != Step::MarkInProgress ==> {
                &&& e.step != Step::Finished(ExecOutcome::Aborted)
                &&& e.step != Step::Finished(ExecOutcome::Stalled)
                &&& e.dropped == 0
            });
            assert(clean_between(s0, s1) && e.step != Step::MarkInProgress ==> 
                added_findings(s0, s1) == findings_of(e.outcomes.take(e.progress() as int)));
        }
    }
    proof {
        assert(run_from(store@, exec@) == (store@, exec@));
        if writes_ok_ahead(s0, outcomes.len() + 2) {
            assert forall|t: u64| s0.tick <= t < store@.tick implies !s0.failing.contains(t) by {}
        }
    }
    match exec.outcome() {
        Some(o) => {
            proof {
                assert(outcomes.take(outcomes.len() as int) =~= outcomes);
            }
            o
        },
        None => ExecOutcome::Aborted,
    }
}

} // verus!
