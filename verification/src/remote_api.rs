//! The client-side view of the remote service's API: its error taxonomy,
//! the retry policy for transient failures, and the device-flow poll
//! protocol.  Conflict and authentication failures are never retried;
//! transport failures, timeouts and server errors are, with bounded
//! exponential backoff plus jitter.

use vstd::prelude::*;

use crate::model::str_eq;

verus! {

/// OAuth credentials: the bearer token the remote service issued, treated
/// as opaque.
#[derive(Debug)]
pub struct Credentials {
    pub access_token: String,
}

impl Clone for Credentials {
    fn clone(&self) -> (res: Self)
        ensures
            res == *self,
    {
        Credentials { access_token: self.access_token.clone() }
    }
}

/// Body of `POST /oauth/device/init`.
#[derive(Debug)]
pub struct DeviceInitRequest {
    pub provider: String,
}

/// Answer of `POST /oauth/device/init`.
#[derive(Debug)]
pub struct DeviceInitResponse {
    pub verification_uri: String,
    pub verification_uri_complete: Option<String>,
    pub user_code: String,
    pub handoff_id: u128,
}

/// Body of `POST /oauth/device/poll`.
#[derive(Clone, Copy, PartialEq, Eq, Structural, Debug)]
pub struct DevicePollRequest {
    pub handoff_id: u128,
}

/// Raw answer of `POST /oauth/device/poll`.
#[derive(Debug)]
pub struct DevicePollResponse {
    pub status: String,
    pub access_token: Option<String>,
    pub error: Option<String>,
}

/// One provider identity attached to a profile.
#[derive(Debug)]
pub struct ProviderProfile {
    pub provider: String,
    pub username: Option<String>,
    pub display_name: Option<String>,
    pub email: Option<String>,
    pub avatar_url: Option<String>,
}

/// Answer of `GET /profile`.
#[derive(Debug)]
pub struct ProfileResponse {
    pub user_id: String,
    pub username: Option<String>,
    pub email: String,
    pub organization_id: String,
    pub providers: Vec<ProviderProfile>,
}

/// Errors of the remote API client.
#[derive(Debug)]
pub enum RemoteClientError {
    Transport(String),
    Timeout,
    Http { status: u16, body: String },
    Api(DeviceFlowErrorCode),
    Auth,
    Serde(String),
    Url(String),
}

impl RemoteClientError {
    /// Whether the error is transient and the call should be retried:
    /// transport failures, timeouts and server errors only — never
    /// authentication failures or client errors.
    pub fn should_retry(&self) -> (r: bool)
        ensures
            r == match self {
                RemoteClientError::Transport(_) => true,
                RemoteClientError::Timeout => true,
                RemoteClientError::Http { status, .. } => 500 <= *status <= 599,
                _ => false,
            },
    {
        match self {
            RemoteClientError::Transport(_) => true,
            RemoteClientError::Timeout => true,
            RemoteClientError::Http { status, .. } => 500 <= *status && *status <= 599,
            _ => false,
        }
    }
}

/// Error codes of the device authorization flow.
#[derive(Debug)]
pub enum DeviceFlowErrorCode {
    UnsupportedProvider,
    ProviderError,
    NotFound,
    Expired,
    AccessDenied,
    InternalError,
    UserFetchFailed,
    Other(String),
}

/// Mathematical value of a `DeviceFlowErrorCode`.
pub ghost enum DeviceFlowErrorCodeV {
    UnsupportedProvider,
    ProviderError,
    NotFound,
    Expired,
    AccessDenied,
    InternalError,
    UserFetchFailed,
    Other(Seq<char>),
}

impl View for DeviceFlowErrorCode {
    type V = DeviceFlowErrorCodeV;

    open spec fn view(&self) -> DeviceFlowErrorCodeV {
        match self {
            DeviceFlowErrorCode::UnsupportedProvider => DeviceFlowErrorCodeV::UnsupportedProvider,
            DeviceFlowErrorCode::ProviderError => DeviceFlowErrorCodeV::ProviderError,
            DeviceFlowErrorCode::NotFound => DeviceFlowErrorCodeV::NotFound,
            DeviceFlowErrorCode::Expired => DeviceFlowErrorCodeV::Expired,
            DeviceFlowErrorCode::AccessDenied => DeviceFlowErrorCodeV::AccessDenied,
            DeviceFlowErrorCode::InternalError => DeviceFlowErrorCodeV::InternalError,
            DeviceFlowErrorCode::UserFetchFailed => DeviceFlowErrorCodeV::UserFetchFailed,
            DeviceFlowErrorCode::Other(s) => DeviceFlowErrorCodeV::Other(s@),
        }
    }
}

/// The error code a raw device-flow error string denotes; an absent code
/// means an internal error.
pub open spec fn error_code_of(code: Option<Seq<char>>) -> DeviceFlowErrorCodeV {
    let c = match code {
        Some(s) => s,
        None => "internal_error"@,
    };
    if c == "unsupported_provider"@ {
        DeviceFlowErrorCodeV::UnsupportedProvider
    } else if c == "provider_error"@ {
        DeviceFlowErrorCodeV::ProviderError
    } else if c == "not_found"@ {
        DeviceFlowErrorCodeV::NotFound
    } else if c == "expired"@ || c == "expired_token"@ {
        DeviceFlowErrorCodeV::Expired
    } else if c == "access_denied"@ {
        DeviceFlowErrorCodeV::AccessDenied
    } else if c == "internal_error"@ {
        DeviceFlowErrorCodeV::InternalError
    } else if c == "user_fetch_failed"@ {
        DeviceFlowErrorCodeV::UserFetchFailed
    } else {
        DeviceFlowErrorCodeV::Other(c)
    }
}

/// Maps a raw device-flow error string to its code.
pub fn map_error_code(code: Option<&str>) -> (r: DeviceFlowErrorCode)
    ensures
        r@ == error_code_of(match code {
            Some(s) => Some(s@),
            None => None,
        }),
{
    let c: &str = match code {
        Some(s) => s,
        None => "internal_error",
    };
    proof {
        reveal_strlit("internal_error");
        reveal_strlit("unsupported_provider");
        reveal_strlit("provider_error");
        reveal_strlit("not_found");
        reveal_strlit("expired");
        reveal_strlit("expired_token");
        reveal_strlit("access_denied");
        reveal_strlit("user_fetch_failed");
    }
    if str_eq(c, "unsupported_provider") {
        DeviceFlowErrorCode::UnsupportedProvider
    } else if str_eq(c, "provider_error") {
        DeviceFlowErrorCode::ProviderError
    } else if str_eq(c, "not_found") {
        DeviceFlowErrorCode::NotFound
    } else if str_eq(c, "expired") || str_eq(c, "expired_token") {
        DeviceFlowErrorCode::Expired
    } else if str_eq(c, "access_denied") {
        DeviceFlowErrorCode::AccessDenied
    } else if str_eq(c, "internal_error") {
        DeviceFlowErrorCode::InternalError
    } else if str_eq(c, "user_fetch_failed") {
        DeviceFlowErrorCode::UserFetchFailed
    } else {
        DeviceFlowErrorCode::Other(c.to_owned())
    }
}

/// The device-flow poll, interpreted: keep polling, a token, or an error.
#[derive(Debug)]
pub enum DevicePollResult {
    Pending,
    Success { access_token: String },
    Error { code: DeviceFlowErrorCode },
}

/// Interprets a raw poll answer: `pending` keeps polling; `success` must
/// carry a token, else it is an internal error; anything else is the error
/// its code names.
pub fn classify_poll_response(raw: DevicePollResponse) -> (r: DevicePollResult)
    ensures
        raw.status@ == "pending"@ ==> r is Pending,
        raw.status@ == "success"@ && raw.access_token is Some ==> r == (DevicePollResult::Success {
            access_token: raw.access_token->0,
        }),
        raw.status@ == "success"@ && raw.access_token is None ==> (match r {
            DevicePollResult::Error { code } => code@ == DeviceFlowErrorCodeV::InternalError,
            _ => false,
        }),
        raw.status@ != "pending"@ && raw.status@ != "success"@ ==> (match r {
            DevicePollResult::Error { code } => code@ == error_code_of(
                crate::model::opt_str_view(raw.error),
            ),
            _ => false,
        }),
{
    proof {
        reveal_strlit("pending");
        reveal_strlit("success");
        assert("pending"@[0] == 'p' && "success"@[0] == 's');
        assert("pending"@ != "success"@);
    }
    let is_pending = str_eq(raw.status.as_str(), "pending");
    let is_success = str_eq(raw.status.as_str(), "success");
    if is_pending {
        DevicePollResult::Pending
    } else if is_success {
        match raw.access_token {
            Some(token) => DevicePollResult::Success { access_token: token },
            None => DevicePollResult::Error { code: DeviceFlowErrorCode::InternalError },
        }
    } else {
        let code = match &raw.error {
            Some(e) => map_error_code(Some(e.as_str())),
            None => map_error_code(None),
        };
        DevicePollResult::Error { code }
    }
}

/// Shortest delay between retries of a transient failure, in milliseconds.
pub const RETRY_MIN_DELAY_MS: u64 = 1000;

/// Longest delay between retries of a transient failure, in milliseconds.
pub const RETRY_MAX_DELAY_MS: u64 = 30000;

/// How many times a transient failure is retried before surfacing.
pub const RETRY_MAX_TIMES: u32 = 3;

/// The exponential base delay before the given retry, capped.
pub open spec fn retry_base_delay_ms(attempt: u32) -> int {
    if attempt >= 5 {
        RETRY_MAX_DELAY_MS as int
    } else if RETRY_MIN_DELAY_MS * pow2_small(attempt) <= RETRY_MAX_DELAY_MS {
        RETRY_MIN_DELAY_MS * pow2_small(attempt)
    } else {
        RETRY_MAX_DELAY_MS as int
    }
}

/// Two to a small power.
pub open spec fn pow2_small(n: u32) -> int
    decreases n,
{
    if n == 0 {
        1
    } else {
        2 * pow2_small((n - 1) as u32)
    }
}

/// The delay before the given retry, with fresh random jitter folded in:
/// at least the exponential base, less than twice it, whatever the draw.
pub fn next_retry_delay(attempt: u32) -> (r: u64)
    ensures
        retry_base_delay_ms(attempt) <= r < 2 * retry_base_delay_ms(attempt),
{
    let jitter = crate::crypto::random_u64();
    retry_delay_ms(attempt, jitter)
}

/// The delay before retry number `attempt`, with the caller's jitter
/// folded in: at least the exponential base, less than twice it.
pub fn retry_delay_ms(attempt: u32, jitter: u64) -> (r: u64)
    ensures
        retry_base_delay_ms(attempt) <= r < 2 * retry_base_delay_ms(attempt),
{
    let base: u64 = if attempt == 0 {
        1000
    } else if attempt == 1 {
        2000
    } else if attempt == 2 {
        4000
    } else if attempt == 3 {
        8000
    } else if attempt == 4 {
        16000
    } else {
        30000
    };
    proof {
        assert(pow2_small(0) == 1);
        assert(pow2_small(1) == 2);
        assert(pow2_small(2) == 4);
        assert(pow2_small(3) == 8);
        assert(pow2_small(4) == 16);
        assert(base == retry_base_delay_ms(attempt));
    }
    base + jitter % base
}

} // verus!