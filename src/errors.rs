use vstd::prelude::*;

verus! {

/// Failures of the scan subsystem.
#[derive(Clone, Copy, Debug, PartialEq, Eq, Structural)]
pub enum ScanError {
    /// A read or write of the store did not go through.
    StorageError,
    /// A user asked for results that are not their own.
    AuthorizationError,
}

/// An error as the HTTP surface reports it.
#[derive(Debug)]
pub enum AppError {
    InternalServerError,
    BadRequest(String),
}

pub open spec fn own_results_only_message() -> Seq<char> {
    "You can only view your own scan results."@
}

impl AppError {
    /// The HTTP status code that the error is answered with.
    pub fn status_code(&self) -> (r: u16)
        ensures
            self is InternalServerError ==> r == 500,
            self is BadRequest ==> r == 400,
    {
        match self {
            AppError::InternalServerError => 500,
            AppError::BadRequest(_) => 400,
        }
    }

    /// The text of the error body.
    pub fn message(&self) -> (r: String)
        ensures
            self is InternalServerError ==> r@ == "Internal Server Error"@,
            self matches AppError::BadRequest(m) ==> r@ == m@,
    {
        match self {
            AppError::InternalServerError => String::from_str("Internal Server Error"),
            AppError::BadRequest(m) => m.clone(),
        }
    }

    /// How a failure of the scan subsystem is reported: a refused access as a
    /// bad request, anything else as an internal error.
    pub fn from_scan_error(e: ScanError) -> (r: AppError)
        ensures
            e is StorageError ==> r is InternalServerError,
            e is AuthorizationError ==> (r matches AppError::BadRequest(m)
                && m@ == own_results_only_message()),
    {
        match e {
            ScanError::StorageError => AppError::InternalServerError,
            ScanError::AuthorizationError => AppError::BadRequest(
                String::from_str("You can only view your own scan results."),
            ),
        }
    }
}

} // verus!
