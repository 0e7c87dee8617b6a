//! Response envelope and error model for the admin surface.

use vstd::prelude::*;

verus! {

/// Uniform response wrapper used by every admin endpoint.
///
/// The `success` / `message` pair duplicates the `ok` / `error` pair for
/// backward compatibility with an older dashboard client.
pub struct Envelope<T> {
    pub ok: bool,
    pub data: Option<T>,
    pub error: Option<ErrorBody>,
    pub success: Option<bool>,
    pub message: Option<String>,
}

#[derive(Debug)]
pub struct ErrorBody {
    pub code: String,
    pub message: String,
}

impl<T> Envelope<T> {
    /// A successful envelope carrying `data` and nothing else.
    pub fn ok(data: T) -> (r: Self)
        ensures
            r.ok,
            r.data == Some(data),
            r.error is None,
            r.success is None,
            r.message is None,
    {
        Envelope { ok: true, data: Some(data), error: None, success: None, message: None }
    }

    /// A failure envelope: `error` holds the code and message, and the
    /// legacy `success: false` / `message` fields repeat the message.
    pub fn err(code: &str, message: &str) -> (r: Self)
        ensures
            !r.ok,
            r.data is None,
            r.error matches Some(e) && e.code@ == code@ && e.message@ == message@,
            r.success == Some(false),
            r.message matches Some(m) && m@ == message@,
    {
        Envelope {
            ok: false,
            data: None,
            error: Some(ErrorBody { code: code.to_owned(), message: message.to_owned() }),
            success: Some(false),
            message: Some(message.to_owned()),
        }
    }
}

/// Admin API error kinds, each mapped onto a stable code and HTTP status.
#[derive(Debug)]
pub enum AdminError {
    Unauthorized,
    BadRequest(String),
    NotFound(String),
    Internal(String),
}

impl AdminError {
    pub fn bad_request(message: &str) -> (r: Self)
        ensures
            r matches AdminError::BadRequest(m) && m@ == message@,
    {
        AdminError::BadRequest(message.to_owned())
    }

    pub fn not_found(message: &str) -> (r: Self)
        ensures
            r matches AdminError::NotFound(m) && m@ == message@,
    {
        AdminError::NotFound(message.to_owned())
    }

    pub fn internal(message: &str) -> (r: Self)
        ensures
            r matches AdminError::Internal(m) && m@ == message@,
    {
        AdminError::Internal(message.to_owned())
    }

    /// The stable error code placed in the response envelope.
    pub fn code(&self) -> (r: &'static str)
        ensures
            self matches AdminError::Unauthorized ==> r@ == "unauthorized"@,
            self matches AdminError::BadRequest(_) ==> r@ == "bad_request"@,
            self matches AdminError::NotFound(_) ==> r@ == "not_found"@,
            self matches AdminError::Internal(_) ==> r@ == "internal"@,
    {
        match self {
            AdminError::Unauthorized => "unauthorized",
            AdminError::BadRequest(_) => "bad_request",
            AdminError::NotFound(_) => "not_found",
            AdminError::Internal(_) => "internal",
        }
    }

    /// The HTTP status this error is surfaced with.
    pub fn status(&self) -> (r: u16)
        ensures
            r == self.spec_status(),
    {
        match self {
            AdminError::Unauthorized => 401,
            AdminError::BadRequest(_) => 400,
            AdminError::NotFound(_) => 404,
            AdminError::Internal(_) => 500,
        }
    }

    pub open spec fn spec_status(&self) -> u16 {
        match self {
            AdminError::Unauthorized => 401,
            AdminError::BadRequest(_) => 400,
            AdminError::NotFound(_) => 404,
            AdminError::Internal(_) => 500,
        }
    }

    /// The human-readable message, as it appears in the envelope.
    pub fn message(&self) -> (r: String)
        ensures
            self matches AdminError::Unauthorized ==> r@ == "Unauthorized"@,
            self matches AdminError::BadRequest(m) ==> r@ == m@,
            self matches AdminError::NotFound(m) ==> r@ == m@,
            self matches AdminError::Internal(m) ==> r@ == m@,
    {
        match self {
            AdminError::Unauthorized => "Unauthorized".to_owned(),
            AdminError::BadRequest(m) => m.clone(),
            AdminError::NotFound(m) => m.clone(),
            AdminError::Internal(m) => m.clone(),
        }
    }
}

/// One account as shown on the admin dashboard.
pub struct AccountDto {
    pub id: String,
    pub email: String,
    pub name: Option<String>,
    pub is_active: bool,
    pub quota: Option<QuotaDto>,
    pub created_at: i64,
    pub last_used: i64,
}

/// Remaining quota for one account.
pub struct QuotaDto {
    pub models: Vec<ModelQuotaDto>,
    pub is_forbidden: bool,
    pub last_updated: i64,
}

pub struct ModelQuotaDto {
    pub name: String,
    pub percentage: i32,
    pub reset_time: String,
}

/// Proxy configuration as shown to the dashboard (the API key is withheld).
pub struct ProxyConfigDto {
    pub enabled: bool,
    pub port: u16,
    pub allow_lan_access: bool,
    pub request_timeout: u64,
    pub upstream_proxy: UpstreamProxyDto,
    pub anthropic_mapping: Vec<(String, String)>,
    pub openai_mapping: Vec<(String, String)>,
    pub custom_mapping: Vec<(String, String)>,
}

pub struct UpstreamProxyDto {
    pub enabled: bool,
    pub url: String,
}

/// Service status shown on the dashboard.
pub struct StatusDto {
    pub running: bool,
    pub version: String,
    pub uptime_seconds: u64,
    pub active_accounts: usize,
    pub pinned_account_id: Option<String>,
}

} // verus!
