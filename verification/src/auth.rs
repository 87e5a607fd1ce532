//! The authenticated-identity contract the core consumes: an opaque
//! capability established once per session, and the server-level
//! authentication setup derived from configuration. Decoding JWT keys and
//! validating tokens is an external collaborator's business; the core only
//! carries the results.

use vstd::prelude::*;

verus! {

/// What an authorized client may do. The core does not interpret this; it
/// is the capability the engine uses to authorize a program.
#[derive(Clone, Copy, PartialEq, Eq, Structural, Debug)]
pub enum Permission {
    FullAccess,
    ReadOnly,
}

/// The identity established once per session from a JWT or HTTP-basic
/// handshake, carried into every program execution.
#[derive(Clone, Copy, PartialEq, Eq, Structural, Debug)]
pub enum Authenticated {
    Anonymous,
    Authorized(Permission),
}

/// Why establishing an identity failed.
#[derive(Clone, Copy, PartialEq, Eq, Structural, Debug)]
pub enum AuthError {
    JwtMissing,
    JwtInvalid,
    JwtExpired,
    BasicRejected,
}

/// The stable wire code of an authentication failure.
pub open spec fn spec_auth_code(e: AuthError) -> Seq<char> {
    match e {
        AuthError::JwtMissing => "AUTH_JWT_MISSING"@,
        AuthError::JwtInvalid => "AUTH_JWT_INVALID"@,
        AuthError::JwtExpired => "AUTH_JWT_EXPIRED"@,
        AuthError::BasicRejected => "AUTH_BASIC_REJECTED"@,
    }
}

impl AuthError {
    /// The stable wire code for this failure.
    pub fn code(&self) -> (r: &'static str)
        ensures
            r@ == spec_auth_code(*self),
    {
        match self {
            AuthError::JwtMissing => "AUTH_JWT_MISSING",
            AuthError::JwtInvalid => "AUTH_JWT_INVALID",
            AuthError::JwtExpired => "AUTH_JWT_EXPIRED",
            AuthError::BasicRejected => "AUTH_BASIC_REJECTED",
        }
    }
}

/// Server-level authentication setup: an optional legacy HTTP-basic
/// parameter and an optional JWT decoding key (kept as the text it was
/// configured with). When neither is present, authentication is disabled.
pub struct Auth {
    pub http_basic: Option<String>,
    pub jwt_key: Option<String>,
    pub disabled: bool,
}

impl Default for Auth {
    /// No credentials configured and authentication not yet disabled; the
    /// final `disabled` flag is computed by `get_auth`.
    fn default() -> (r: Auth)
        ensures
            r.http_basic is None,
            r.jwt_key is None,
            !r.disabled,
    {
        Auth { http_basic: None, jwt_key: None, disabled: false }
    }
}

/// The argument is `basic:` followed by the base64 parameter.
pub open spec fn is_basic_auth_arg(s: Seq<char>) -> bool {
    crate::json::has_prefix(s, "basic:"@)
}

/// Parse a legacy HTTP basic authentication argument of the form
/// `basic:$PARAM`; anything else is rejected.
pub fn parse_http_basic_auth_arg(arg: &str) -> (r: Result<Option<String>, AuthError>)
    ensures
        match r {
            Ok(p) => {
                &&& is_basic_auth_arg(arg@)
                &&& p matches Some(param) && param@ == arg@.subrange(6, arg@.len() as int)
            },
            Err(e) => !is_basic_auth_arg(arg@) && e matches AuthError::BasicRejected,
        },
{
    proof {
        reveal_strlit("basic:");
    }
    match crate::json::strip_text_prefix(arg, "basic:") {
        Some(param) => Ok(Some(param)),
        None => Err(AuthError::BasicRejected),
    }
}

} // verus!
