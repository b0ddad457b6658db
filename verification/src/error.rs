//! The closed error taxonomy shown to clients, and the classifier that
//! maps persistence-store failures onto it.

use vstd::prelude::*;
use vstd::string::StringExecFns;

use crate::hcaptcha::HcaptchaError;

verus! {

/// A persistence-store failure, reduced to the facts the classifier
/// reads: the failure category and, for structured database failures,
/// the vendor error code.
#[derive(Debug)]
pub enum StoreError {
    /// A point lookup matched no row.
    RowNotFound,
    /// A structured failure from the database engine, with its vendor
    /// error code when one was reported.
    Database { code: Option<String> },
    /// Any other persistence failure.
    Other,
}

/// The closed set of error kinds that may cross the service boundary.
#[derive(Debug)]
pub enum ApiError {
    InvalidRequest,
    NotFound,
    Duplicate,
    PermissionDenied,
    ChallengeFailure(HcaptchaError),
}

/// The vendor code PostgreSQL reports for a uniqueness-constraint
/// violation.
pub open spec fn unique_violation_code() -> Seq<char> {
    "23505"@
}

/// How a store failure is classified: a missed point lookup is
/// `NotFound`; a database failure with the uniqueness-violation code is
/// `Duplicate`; every other failure is `InvalidRequest`.
pub open spec fn spec_classify(e: StoreError) -> ApiError {
    match e {
        StoreError::RowNotFound => ApiError::NotFound,
        StoreError::Database { code } => match code {
            Some(c) => if c@ == unique_violation_code() {
                ApiError::Duplicate
            } else {
                ApiError::InvalidRequest
            },
            None => ApiError::InvalidRequest,
        },
        StoreError::Other => ApiError::InvalidRequest,
    }
}

impl From<StoreError> for ApiError {
    /// Classify a persistence failure into the client-facing taxonomy.
    fn from(e: StoreError) -> (r: ApiError) {
        match e {
            StoreError::RowNotFound => ApiError::NotFound,
            StoreError::Database { code } => match code {
                Some(c) => {
                    let unique = String::from_str("23505");
                    if c == unique {
                        ApiError::Duplicate
                    } else {
                        ApiError::InvalidRequest
                    }
                },
                None => ApiError::InvalidRequest,
            },
            StoreError::Other => ApiError::InvalidRequest,
        }
    }
}

impl vstd::std_specs::convert::FromSpecImpl<StoreError> for ApiError {
    open spec fn obeys_from_spec() -> bool {
        true
    }

    open spec fn from_spec(e: StoreError) -> ApiError {
        spec_classify(e)
    }
}

/// The HTTP status carried by each error kind.
pub open spec fn spec_status(e: ApiError) -> u16 {
    match e {
        ApiError::NotFound => 404,
        ApiError::Duplicate => 409,
        ApiError::PermissionDenied => 403,
        ApiError::ChallengeFailure(_) => 403,
        ApiError::InvalidRequest => 400,
    }
}

/// The fixed client-facing message of each error kind.
pub open spec fn spec_message(e: ApiError) -> Seq<char> {
    match e {
        ApiError::InvalidRequest => "invalid request"@,
        ApiError::NotFound => "request resource not found"@,
        ApiError::Duplicate => "try to create already exists resource"@,
        ApiError::PermissionDenied => "permission is not sufficient to execute request"@,
        ApiError::ChallengeFailure(inner) => match inner {
            HcaptchaError::Missing => "captcha challenge failed, missing hCaptcha challenge response header"@,
            HcaptchaError::InsufficientInformation => "captcha challenge failed, insufficient information to verify hCaptcha challenge"@,
            HcaptchaError::Invalid(_) => "captcha challenge failed, invalid hCaptcha challenge response header"@,
        },
    }
}

/// The body of an error response: a one-field JSON object carrying the
/// message. No message holds a character that would need escaping.
pub open spec fn spec_body(e: ApiError) -> Seq<char> {
    "{\"err\":\""@ + spec_message(e) + "\"}"@
}

impl ApiError {
    /// The HTTP status of the response this error turns into.
    pub fn status_code(&self) -> (r: u16)
        ensures
            r == spec_status(*self),
    {
        match *self {
            ApiError::NotFound => 404,
            ApiError::Duplicate => 409,
            ApiError::PermissionDenied => 403,
            ApiError::ChallengeFailure(_) => 403,
            ApiError::InvalidRequest => 400,
        }
    }

    /// The fixed client-facing message; storage-engine and verification
    /// diagnostics never appear in it.
    pub fn message(&self) -> (r: &'static str)
        ensures
            r@ == spec_message(*self),
    {
        match self {
            ApiError::InvalidRequest => "invalid request",
            ApiError::NotFound => "request resource not found",
            ApiError::Duplicate => "try to create already exists resource",
            ApiError::PermissionDenied => "permission is not sufficient to execute request",
            ApiError::ChallengeFailure(inner) => match inner {
                HcaptchaError::Missing => "captcha challenge failed, missing hCaptcha challenge response header",
                HcaptchaError::InsufficientInformation => "captcha challenge failed, insufficient information to verify hCaptcha challenge",
                HcaptchaError::Invalid(_) => "captcha challenge failed, invalid hCaptcha challenge response header",
            },
        }
    }

    /// The JSON body of the error response.
    pub fn error_body(&self) -> (r: String)
        ensures
            r@ == spec_body(*self),
    {
        let msg = self.message();
        String::from_str("{\"err\":\"").concat(msg).concat("\"}")
    }
}

} // verus!
