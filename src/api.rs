use vstd::prelude::*;

use crate::errors::{own_results_only_message, AppError, ScanError};
use crate::execution::{Execution, Step};
use crate::probe::{probe_spec, PROBE_COUNT};
use crate::results::{aggregate, collect_results, full_views, FullScanResult};
use crate::status::JobStatus;
use crate::store::ScanStore;
use crate::text::same_text;

verus! {

/// The user identifier that a text names, as `uuid::Uuid::parse_str` reads it.
pub uninterp spec fn uuid_value(s: Seq<char>) -> Option<u128>;

/// Relies on `uuid::Uuid::parse_str` to read a UUID in any of the textual
/// forms that crate accepts, and on `Uuid::as_u128` for its value. The result
/// depends on the text alone.
#[verifier::external_body]
fn parse_uuid(s: &str) -> (r: Option<u128>)
    ensures
        r == uuid_value(s@),
{
    uuid::Uuid::parse_str(s).ok().map(|u| u.as_u128())
}

/// Body of a request to start a scan.
#[derive(Debug)]
pub struct ScanRequest {
    pub email_to_scan: String,
}

/// Answer to a request to start a scan.
#[derive(Debug)]
pub struct ScanResponse {
    pub scan_id: u128,
    pub message: String,
}

/// What a bearer token asserts: the user (`sub`) and when it expires.
#[derive(Debug)]
pub struct Claims {
    pub sub: String,
    pub exp: usize,
}

#[derive(Debug)]
pub struct AuthResponse {
    pub token: String,
}

#[derive(Debug)]
pub struct RegisterRequest {
    pub username: String,
    pub email: String,
    pub password: String,
}

#[derive(Debug)]
pub struct LoginRequest {
    pub email: String,
    pub password: String,
}

/// The user named by an authenticated subject. A subject that is not a UUID
/// is an internal error: authentication only hands out UUIDs.
pub fn user_id_from_subject(sub: &str) -> (r: Result<u128, AppError>)
    ensures
        uuid_value(sub@) matches Some(u) ==> r matches Ok(v) && v == u,
        uuid_value(sub@) is None ==> r matches Err(AppError::InternalServerError),
{
    match parse_uuid(sub) {
        Some(u) => Ok(u),
        None => Err(AppError::InternalServerError),
    }
}

pub open spec fn bearer_prefix() -> Seq<char> {
    "Bearer "@
}

/// The token of an `Authorization` header value of the form `Bearer <token>`.
pub fn bearer_token(header: &str) -> (r: Option<String>)
    ensures
        r is Some <==> header@.len() >= bearer_prefix().len() && header@.take(
            bearer_prefix().len() as int,
        ) == bearer_prefix(),
        r matches Some(t) ==> t@ == header@.skip(bearer_prefix().len() as int),
{
    let prefix = "Bearer ";
    proof {
        reveal_strlit("Bearer ");
    }
    let n = header.unicode_len();
    if n < 7 {
        return None;
    }
    let head = header.substring_char(0, 7);
    if !same_text(head, prefix) {
        return None;
    }
    Some(String::from_str(header.substring_char(7, n)))
}

pub open spec fn started_message() -> Seq<char> {
    "Scan started successfully"@
}

/// The answer to a request that started the scan `scan_id`.
pub fn started_response(scan_id: u128) -> (r: ScanResponse)
    ensures
        r.scan_id == scan_id,
        r.message@ == started_message(),
{
    ScanResponse { scan_id, message: String::from_str("Scan started successfully") }
}

/// Starts a scan of `payload.email_to_scan` for the user `subject`: records
/// the job, pending, and hands back the answer for the caller together with
/// the execution to run in the background.
pub fn start_scan(store: &mut ScanStore, subject: &str, payload: &ScanRequest) -> (r: Result<
    (ScanResponse, Execution),
    AppError,
>)
    requires
        old(store)@.wf(),
    ensures
        final(store)@.wf(),
        uuid_value(subject@) is None ==> (r matches Err(AppError::InternalServerError)
            && final(store)@ == old(store)@),
        uuid_value(subject@) is Some ==> (r is Ok <==> old(store)@.attempt_ok()),
        uuid_value(subject@) is Some && !old(store)@.attempt_ok() ==> r matches Err(
            AppError::InternalServerError,
        ),
        r is Err ==> final(store)@.scans == old(store)@.scans && final(store)@.results == old(
            store,
        )@.results,
        r matches Ok((resp, exec)) ==> {
            &&& resp.scan_id == old(store)@.next_id
            &&& resp.message@ == started_message()
            &&& final(store)@.scans == old(store)@.scans.push(
                crate::model::Scan {
                    id: resp.scan_id,
                    user_id: uuid_value(subject@).unwrap(),
                    status: JobStatus::Pending,
                    created_at: old(store)@.tick,
                    updated_at: old(store)@.tick,
                },
            )
            &&& final(store)@.results == old(store)@.results
            &&& exec@.wf()
            &&& exec@.scan_id == resp.scan_id
            &&& exec@.step == Step::MarkInProgress
            &&& exec@.dropped == 0
            &&& exec@.outcomes.len() == PROBE_COUNT
            &&& forall|i: int|
                0 <= i < PROBE_COUNT ==> #[trigger] exec@.outcomes[i] == probe_spec(
                    i,
                    payload.email_to_scan@,
                )
            &&& final(store)@.has_scan(exec@.scan_id)
        },
{
    let user_id = user_id_from_subject(subject)?;
    let scan = match store.create_scan(user_id) {
        Ok(s) => s,
        Err(_) => {
            return Err(AppError::InternalServerError);
        },
    };
    let exec = Execution::for_target(scan.id, payload.email_to_scan.as_str());
    let resp = started_response(scan.id);
    assert(store@.scans[store@.scans.len() - 1].id == scan.id);
    Ok((resp, exec))
}

/// The results of `path_user_id`, asked for by the user `subject`.
pub fn get_scan_results(store: &ScanStore, subject: &str, path_user_id: u128) -> (r: Result<
    Vec<FullScanResult>,
    AppError,
>)
    requires
        store@.wf(),
    ensures
        uuid_value(subject@) is None ==> r matches Err(AppError::InternalServerError),
        uuid_value(subject@) matches Some(u) ==> {
            &&& u != path_user_id ==> (r matches Err(AppError::BadRequest(m)) && m@
                == own_results_only_message())
            &&& u == path_user_id ==> (r matches Ok(v) && full_views(v@) == aggregate(
                store@,
                path_user_id,
            ))
        },
{
    let user_id = user_id_from_subject(subject)?;
    match collect_results(store, user_id, path_user_id) {
        Ok(v) => Ok(v),
        Err(e) => Err(AppError::from_scan_error(e)),
    }
}

} // verus!
