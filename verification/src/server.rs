use vstd::prelude::*;

use crate::daemon::{claim_resolves, parse_token, AppProc, ProcessDaemonIntl};

verus! {

/// A JSON-bodied value as the control plane carries it; the transport
/// serializes it at the edge.
pub struct ApiJson<T>(pub T);

/// A caller authenticated as the interactive user.
#[derive(Debug, Clone, Copy, PartialEq, Eq, Structural)]
pub struct UserClaim {}

/// A caller authenticated as one live application instance, holding the
/// handle its token resolved to.
#[derive(Debug, Clone, Copy, PartialEq, Eq, Structural)]
pub struct ServiceClaim {
    pub app_proc: AppProc,
}

/// Who a request came from.
#[derive(Debug, Clone, Copy, PartialEq, Eq, Structural)]
pub enum AppClaim {
    User(UserClaim),
    Service(ServiceClaim),
}

/// An error of the control plane.
#[derive(Debug, Clone, PartialEq, Eq)]
pub enum ApiError {
    /// The request body was not the JSON the route expects; the body text
    /// is carried along.
    InvalidJsonError(String),
    /// Authentication or authorization failed.  Every such failure is
    /// reported alike, so that probing reveals nothing; the precise cause
    /// belongs in the server's own log.
    AuthorizationError,
}

impl ApiError {
    /// The status code a response carries for this error.
    pub fn status_code(&self) -> (r: u16)
        ensures
            r == match self {
                ApiError::InvalidJsonError(_) => 400u16,
                ApiError::AuthorizationError => 403u16,
            },
    {
        match self {
            ApiError::InvalidJsonError(_) => 400,
            ApiError::AuthorizationError => 403,
        }
    }
}

/// Resolve a bearer token against the registry: a missing token, a
/// malformed token, and a token whose slot no longer holds a live process
/// are all refused with the same authorization error.
pub fn resolve_claim(daemon: &ProcessDaemonIntl, bearer: Option<&String>) -> (r: Result<
    AppClaim,
    ApiError,
>)
    requires
        daemon.wf(),
    ensures
        match r {
            Ok(claim) => {
                &&& bearer is Some
                &&& claim_resolves(daemon.procs(), bearer.unwrap()@)
                &&& claim matches AppClaim::Service(_)
            },
            Err(e) => {
                &&& e == ApiError::AuthorizationError
                &&& match bearer {
                    Some(token) => !claim_resolves(daemon.procs(), token@),
                    None => true,
                }
            },
        },
{
    match bearer {
        None => Err(ApiError::AuthorizationError),
        Some(token) => match daemon.claim(token) {
            Some(app_proc) => Ok(AppClaim::Service(ServiceClaim { app_proc })),
            None => Err(ApiError::AuthorizationError),
        },
    }
}

/// Request body of the window-open route.
pub struct Request {
    pub title: String,
    pub url: String,
}

/// Response body of the window-open route: the slot of the created window.
#[derive(Debug, Clone, Copy, PartialEq, Eq, Structural)]
pub struct Response {
    pub id: u8,
}

} // verus!
