use shadow_scan::api::{
    bearer_token, get_scan_results, start_scan, started_response, user_id_from_subject, ScanRequest,
};
use shadow_scan::errors::{AppError, ScanError};
use shadow_scan::execution::{Action, ExecOutcome, Execution, Step};
use shadow_scan::model::Finding;
use shadow_scan::orchestrator::run_scan;
use shadow_scan::probe::{local_part_of, probe_outcomes, run_probe, ProbeOutcome, PROBE_COUNT};
use shadow_scan::results::{check_access, collect_results, in_discovery_order};
use shadow_scan::risk::RiskLevel;
use shadow_scan::status::JobStatus;
use shadow_scan::store::ScanStore;

const U1: u128 = 1;
const U2: u128 = 2;

fn detail<'a>(details: &'a [(String, String)], key: &str) -> &'a str {
    details.iter().find(|(k, _)| k == key).map(|(_, v)| v.as_str()).unwrap()
}

#[test]
fn create_job_is_pending_with_fresh_id() {
    let mut store = ScanStore::new();
    let a = store.create_scan(U1).unwrap();
    let b = store.create_scan(U1).unwrap();
    let c = store.create_scan(U2).unwrap();
    assert_eq!(a.status, JobStatus::Pending);
    assert_eq!(b.status, JobStatus::Pending);
    assert_eq!(c.status, JobStatus::Pending);
    assert_ne!(a.id, b.id);
    assert_ne!(a.id, c.id);
    assert_ne!(b.id, c.id);
    assert_eq!(a.user_id, U1);
    assert_eq!(c.user_id, U2);
}

#[test]
fn create_job_fails_when_write_refused() {
    let mut store = ScanStore::with_failing_writes(vec![0]);
    assert_eq!(store.create_scan(U1).unwrap_err(), ScanError::StorageError);
    assert!(store.get_scans_by_user(U1).is_empty());
    let next = store.create_scan(U1).unwrap();
    assert_eq!(next.status, JobStatus::Pending);
}

#[test]
fn scenario_alice_completes_with_two_findings() {
    let mut store = ScanStore::new();
    let scan = store.create_scan(U1).unwrap();
    let mut exec = Execution::for_target(scan.id, "alice@example.com");
    let outcome = run_scan(&mut store, &mut exec);
    assert_eq!(outcome, ExecOutcome::Completed);
    assert_eq!(store.find_scan(scan.id).unwrap().status, JobStatus::Completed);
    let results = store.get_scan_results_by_scan(scan.id);
    assert_eq!(results.len(), 2);
    assert_eq!(results[0].finding_type, "email_leak");
    assert_eq!(results[0].risk_level, RiskLevel::High);
    assert_eq!(results[0].source_link.as_deref(), Some("https://haveibeenpwned.com/"));
    assert_eq!(detail(&results[0].details, "leaked_email"), "alice@example.com");
    assert_eq!(detail(&results[0].details, "source"), "Simulated Breach DB");
    assert_eq!(results[1].finding_type, "social_media");
    assert_eq!(results[1].risk_level, RiskLevel::Low);
    assert_eq!(results[1].source_link, None);
    assert_eq!(detail(&results[1].details, "username"), "alice");
    assert_eq!(detail(&results[1].details, "platform"), "Twitter");
    assert!(results[0].found_at < results[1].found_at);
    assert_eq!(exec.dropped(), 0);
}

#[test]
fn scenario_in_progress_write_fails_leaves_job_pending() {
    // write 0 creates the job, write 1 marks it in progress
    let mut store = ScanStore::with_failing_writes(vec![1]);
    let scan = store.create_scan(U1).unwrap();
    let mut exec = Execution::for_target(scan.id, "alice@example.com");
    let outcome = run_scan(&mut store, &mut exec);
    assert_eq!(outcome, ExecOutcome::Aborted);
    assert_eq!(store.find_scan(scan.id).unwrap().status, JobStatus::Pending);
    assert!(store.get_scan_results_by_scan(scan.id).is_empty());
}

#[test]
fn failed_finding_write_does_not_stop_the_run() {
    // write 2 stores the first finding
    let mut store = ScanStore::with_failing_writes(vec![2]);
    let scan = store.create_scan(U1).unwrap();
    let mut exec = Execution::for_target(scan.id, "bob@example.org");
    assert_eq!(run_scan(&mut store, &mut exec), ExecOutcome::Completed);
    assert_eq!(exec.dropped(), 1);
    let results = store.get_scan_results_by_scan(scan.id);
    assert_eq!(results.len(), 1);
    assert_eq!(results[0].finding_type, "social_media");
    assert_eq!(detail(&results[0].details, "username"), "bob");
    assert_eq!(store.find_scan(scan.id).unwrap().status, JobStatus::Completed);
}

#[test]
fn failed_completion_write_stalls_in_progress() {
    // writes: 0 create, 1 in progress, 2 and 3 findings, 4 completed
    let mut store = ScanStore::with_failing_writes(vec![4]);
    let scan = store.create_scan(U1).unwrap();
    let mut exec = Execution::for_target(scan.id, "carol@example.net");
    assert_eq!(run_scan(&mut store, &mut exec), ExecOutcome::Stalled);
    assert_eq!(store.find_scan(scan.id).unwrap().status, JobStatus::InProgress);
    assert_eq!(store.get_scan_results_by_scan(scan.id).len(), 2);
}

#[test]
fn no_findings_completes_with_empty_list() {
    let mut store = ScanStore::new();
    let scan = store.create_scan(U1).unwrap();
    let outcomes = vec![
        ProbeOutcome { delay_secs: 1, finding: None },
        ProbeOutcome { delay_secs: 2, finding: None },
    ];
    let mut exec = Execution::new(scan.id, outcomes);
    assert_eq!(run_scan(&mut store, &mut exec), ExecOutcome::Completed);
    assert_eq!(store.find_scan(scan.id).unwrap().status, JobStatus::Completed);
    assert!(store.get_scan_results_by_scan(scan.id).is_empty());
    let all = collect_results(&store, U1, U1).unwrap();
    assert_eq!(all.len(), 1);
    assert!(all[0].results.is_empty());
}

#[test]
fn run_touches_only_its_own_job() {
    let mut store = ScanStore::new();
    let other = store.create_scan(U2).unwrap();
    let scan = store.create_scan(U1).unwrap();
    let mut exec = Execution::for_target(scan.id, "dave@example.com");
    run_scan(&mut store, &mut exec);
    assert_eq!(store.find_scan(other.id).unwrap(), other);
    assert!(store.get_scan_results_by_scan(other.id).is_empty());
}

#[test]
fn results_of_other_user_are_refused() {
    let mut store = ScanStore::new();
    assert_eq!(collect_results(&store, U1, U2).unwrap_err(), ScanError::AuthorizationError);
    let scan = store.create_scan(U2).unwrap();
    let mut exec = Execution::for_target(scan.id, "x@y.z");
    run_scan(&mut store, &mut exec);
    assert_eq!(collect_results(&store, U1, U2).unwrap_err(), ScanError::AuthorizationError);
    assert_eq!(check_access(U2, U1), Err(ScanError::AuthorizationError));
    assert_eq!(check_access(U1, U1), Ok(()));
}

#[test]
fn rereading_results_gives_same_contents() {
    let mut store = ScanStore::new();
    for target in ["a@b.c", "d@e.f"] {
        let scan = store.create_scan(U1).unwrap();
        let mut exec = Execution::for_target(scan.id, target);
        run_scan(&mut store, &mut exec);
    }
    let first = collect_results(&store, U1, U1).unwrap();
    let second = collect_results(&store, U1, U1).unwrap();
    assert_eq!(first.len(), 2);
    assert_eq!(first.len(), second.len());
    for (x, y) in first.iter().zip(second.iter()) {
        assert_eq!(x.scan, y.scan);
        assert_eq!(x.results.len(), y.results.len());
        for (p, q) in x.results.iter().zip(y.results.iter()) {
            assert_eq!(p.id, q.id);
            assert_eq!(p.found_at, q.found_at);
            assert_eq!(p.finding_type, q.finding_type);
            assert_eq!(p.details, q.details);
        }
        assert!(x.results.windows(2).all(|w| w[0].found_at < w[1].found_at));
    }
    assert!(first[0].scan.id < first[1].scan.id);
}

#[test]
fn execution_steps_in_order() {
    let mut exec = Execution::for_target(7, "eve@example.com");
    assert_eq!(exec.step(), Step::MarkInProgress);
    assert!(matches!(exec.next_action(), Action::SetStatus(JobStatus::InProgress)));
    exec.advance(true);
    assert!(matches!(exec.next_action(), Action::Sleep(10)));
    exec.advance(true);
    match exec.next_action() {
        Action::Insert(f) => assert_eq!(f.finding_type, "email_leak"),
        _ => panic!("expected an insert"),
    }
    exec.advance(true);
    assert!(matches!(exec.next_action(), Action::Sleep(5)));
    exec.advance(true);
    assert!(matches!(exec.next_action(), Action::Insert(_)));
    exec.advance(false);
    assert!(matches!(exec.next_action(), Action::SetStatus(JobStatus::Completed)));
    exec.advance(true);
    assert_eq!(exec.outcome(), Some(ExecOutcome::Completed));
    assert!(matches!(exec.next_action(), Action::Stop));
    assert_eq!(exec.dropped(), 1);
}

#[test]
fn execution_stops_when_first_write_fails() {
    let mut exec = Execution::for_target(7, "eve@example.com");
    exec.advance(false);
    assert!(exec.is_finished());
    assert_eq!(exec.outcome(), Some(ExecOutcome::Aborted));
}

#[test]
fn probes_yield_fixed_sequence() {
    let outcomes = probe_outcomes("frank@host");
    assert_eq!(outcomes.len(), PROBE_COUNT);
    assert_eq!(outcomes[0].delay_secs, 10);
    assert_eq!(outcomes[1].delay_secs, 5);
    let f: &Finding = outcomes[0].finding.as_ref().unwrap();
    assert_eq!(f.finding_type, "email_leak");
    let g = run_probe(1, "frank@host").finding.unwrap();
    assert_eq!(detail(&g.details, "username"), "frank");
}

#[test]
fn local_part_edges() {
    assert_eq!(local_part_of("alice@example.com"), "alice");
    assert_eq!(local_part_of("no-at-sign"), "no-at-sign");
    assert_eq!(local_part_of("@leading"), "");
    assert_eq!(local_part_of(""), "");
    assert_eq!(local_part_of("a@b@c"), "a");
}

#[test]
fn status_and_risk_names() {
    assert_eq!(JobStatus::InProgress.as_str(), "in_progress");
    assert_eq!(JobStatus::parse("completed"), Some(JobStatus::Completed));
    assert_eq!(JobStatus::parse("done"), None);
    assert!(JobStatus::Pending.can_transition_to(&JobStatus::InProgress));
    assert!(!JobStatus::Pending.can_transition_to(&JobStatus::Completed));
    assert!(!JobStatus::Completed.can_transition_to(&JobStatus::Failed));
    assert!(JobStatus::Failed.is_terminal());
    assert_eq!(RiskLevel::Critical.as_str(), "critical");
    assert_eq!(RiskLevel::parse("medium"), Some(RiskLevel::Medium));
    assert_eq!(RiskLevel::parse("severe"), None);
    assert!(RiskLevel::Low.is_below(&RiskLevel::Medium));
    assert!(!RiskLevel::Critical.is_below(&RiskLevel::High));
}

#[test]
fn app_errors_map_to_responses() {
    let e = AppError::from_scan_error(ScanError::AuthorizationError);
    assert_eq!(e.status_code(), 400);
    assert_eq!(e.message(), "You can only view your own scan results.");
    let s = AppError::from_scan_error(ScanError::StorageError);
    assert_eq!(s.status_code(), 500);
    assert_eq!(s.message(), "Internal Server Error");
}

#[test]
fn subject_must_be_a_uuid() {
    let id = user_id_from_subject("67e55044-10b1-426f-9247-bb680e5fe0c8").unwrap();
    assert_eq!(id, 0x67e5504410b1426f9247bb680e5fe0c8);
    assert!(matches!(user_id_from_subject("u1"), Err(AppError::InternalServerError)));
}

#[test]
fn start_and_read_through_the_api() {
    let subject = "67e55044-10b1-426f-9247-bb680e5fe0c8";
    let me = 0x67e5504410b1426f9247bb680e5fe0c8u128;
    let mut store = ScanStore::new();
    let request = ScanRequest { email_to_scan: "alice@example.com".to_string() };
    let (resp, mut exec) = start_scan(&mut store, subject, &request).unwrap();
    assert_eq!(resp.message, "Scan started successfully");
    assert_eq!(store.find_scan(resp.scan_id).unwrap().status, JobStatus::Pending);
    assert_eq!(run_scan(&mut store, &mut exec), ExecOutcome::Completed);
    let all = get_scan_results(&store, subject, me).unwrap();
    assert_eq!(all.len(), 1);
    assert_eq!(all[0].scan.id, resp.scan_id);
    assert_eq!(all[0].results.len(), 2);
    match get_scan_results(&store, subject, me + 1) {
        Err(AppError::BadRequest(m)) => assert_eq!(m, "You can only view your own scan results."),
        _ => panic!("expected a refusal"),
    }
    assert!(matches!(start_scan(&mut store, "u1", &request), Err(AppError::InternalServerError)));
}

#[test]
fn finding_needs_existing_job() {
    let mut store = ScanStore::new();
    let f = run_probe(0, "a@b").finding.unwrap();
    assert_eq!(store.create_scan_result(99, f).unwrap_err(), ScanError::StorageError);
}

#[test]
fn status_update_stamps_the_job() {
    let mut store = ScanStore::new();
    let scan = store.create_scan(U1).unwrap();
    let at = store.clock();
    store.update_scan_status(scan.id, JobStatus::Failed).unwrap();
    let now = store.find_scan(scan.id).unwrap();
    assert_eq!(now.status, JobStatus::Failed);
    assert_eq!(now.updated_at, at);
    assert_eq!(now.created_at, scan.created_at);
}

#[test]
fn bearer_header_yields_token() {
    assert_eq!(bearer_token("Bearer abc.def"), Some("abc.def".to_string()));
    assert_eq!(bearer_token("Bearer "), Some(String::new()));
    assert_eq!(bearer_token("Basic abc"), None);
    assert_eq!(bearer_token("Bearer"), None);
    assert_eq!(bearer_token("bearer abc"), None);
}

#[test]
fn earlier_results_survive_later_runs() {
    let mut store = ScanStore::new();
    let first = store.create_scan(U1).unwrap();
    let mut exec = Execution::for_target(first.id, "gina@example.com");
    run_scan(&mut store, &mut exec);
    let before = store.get_scan_results_by_scan(first.id);
    let second = store.create_scan(U1).unwrap();
    let mut exec = Execution::for_target(second.id, "hal@example.com");
    run_scan(&mut store, &mut exec);
    let after = store.get_scan_results_by_scan(first.id);
    assert_eq!(before.len(), after.len());
    for (p, q) in before.iter().zip(after.iter()) {
        assert_eq!(p.id, q.id);
        assert_eq!(p.found_at, q.found_at);
        assert_eq!(p.details, q.details);
    }
    let all = collect_results(&store, U1, U1).unwrap();
    assert_eq!(all.len(), 2);
    assert_eq!(all[1].scan.status, JobStatus::Completed);
}

#[test]
fn discovery_order_check() {
    assert!(in_discovery_order(&vec![]));
    assert!(in_discovery_order(&vec![5]));
    assert!(in_discovery_order(&vec![1, 1, 3, 7]));
    assert!(!in_discovery_order(&vec![1, 4, 2]));
    assert!(!in_discovery_order(&vec![9, 1]));
}

#[test]
fn started_response_text() {
    let r = started_response(42);
    assert_eq!(r.scan_id, 42);
    assert_eq!(r.message, "Scan started successfully");
}

#[test]
fn start_scan_refused_write_is_internal_error() {
    let subject = "67e55044-10b1-426f-9247-bb680e5fe0c8";
    let mut store = ScanStore::with_failing_writes(vec![0]);
    let request = ScanRequest { email_to_scan: "alice@example.com".to_string() };
    assert!(matches!(start_scan(&mut store, subject, &request), Err(AppError::InternalServerError)));
    assert!(store.get_scans_by_user(0x67e5504410b1426f9247bb680e5fe0c8).is_empty());
}

#[test]
fn stalled_run_keeps_every_finding() {
    let mut store = ScanStore::with_failing_writes(vec![4]);
    let scan = store.create_scan(U1).unwrap();
    let mut exec = Execution::for_target(scan.id, "ivy@example.com");
    assert_eq!(run_scan(&mut store, &mut exec), ExecOutcome::Stalled);
    let results = store.get_scan_results_by_scan(scan.id);
    assert_eq!(results[0].finding_type, "email_leak");
    assert_eq!(results[1].finding_type, "social_media");
    assert_eq!(store.clock(), 5);
}
