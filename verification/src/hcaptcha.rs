//! The challenge verifier that gates public writes: it reads the
//! challenge header and the proxy-resolved client address, builds the
//! payload for the external human-verification service, and folds the
//! service's verdict into an admit-or-deny result. The network call
//! itself happens outside this crate; everything decided before and
//! after it is verified here.

use vstd::prelude::*;
use vstd::string::StringExecFns;
use vstd::string::StringSliceAdditionalSpecFns;

use crate::config::HCaptcha;
use crate::ip::IpAddress;
use crate::ip::resolve_client_ip;
use crate::ip::spec_resolve_client_ip;

verus! {

/// Why a challenge verification did not admit the request.
#[derive(Debug)]
pub enum HcaptchaError {
    /// The challenge response header was absent.
    Missing,
    /// The client address could not be resolved or parsed.
    InsufficientInformation,
    /// The external verification service rejected the response; the
    /// payload is a server-side diagnostic, never shown to clients.
    Invalid(String),
}

/// The capability witnessing a passed (or bypassed) challenge; the
/// submission handler takes one as proof that verification ran first.
pub struct Hcaptcha {
    _private: (),
}

/// The payload of one verification call: built per request from the
/// token, the configured credentials and the resolved client address,
/// and discarded once the call returns.
pub struct VerificationRequest {
    pub challenge_token: String,
    pub secret: String,
    pub site_key: String,
    pub client_ip: IpAddress,
}

/// What the verifier does before any network traffic.
pub enum ChallengeDecision {
    /// Bypass mode (local or test execution) admits without a call.
    Admit(Hcaptcha),
    /// The request is denied before the service is ever contacted.
    Deny(HcaptchaError),
    /// The payload to put to the external service.
    CallService(VerificationRequest),
}

impl Hcaptcha {
    /// Build the verification payload. No challenge header fails with
    /// `Missing`; an absent or unparseable client address fails with
    /// `InsufficientInformation`; otherwise the payload carries the
    /// token, the configured secret and site key, and the resolved
    /// address.
    pub fn create_request(
        token_header: Option<&str>,
        realip: Option<&str>,
        config: &HCaptcha,
    ) -> (r: Result<VerificationRequest, HcaptchaError>)
        ensures
            match r {
                Ok(v) => token_header is Some && realip is Some && v.challenge_token@
                    == token_header->Some_0@ && v.secret@ == config.secret@ && v.site_key@
                    == config.site_key@ && spec_resolve_client_ip(realip->Some_0.spec_bytes())
                    == Some(v.client_ip),
                Err(e) => match e {
                    HcaptchaError::Missing => token_header is None,
                    HcaptchaError::InsufficientInformation => token_header is Some && (
                    realip is None || spec_resolve_client_ip(realip->Some_0.spec_bytes()) is None),
                    HcaptchaError::Invalid(_) => false,
                },
            },
    {
        let token = match token_header {
            Some(t) => t,
            None => {
                return Err(HcaptchaError::Missing);
            },
        };
        let ip_str = match realip {
            Some(s) => s,
            None => {
                return Err(HcaptchaError::InsufficientInformation);
            },
        };
        let ip = match resolve_client_ip(ip_str.as_bytes()) {
            Some(ip) => ip,
            None => {
                return Err(HcaptchaError::InsufficientInformation);
            },
        };
        Ok(
            VerificationRequest {
                challenge_token: String::from_str(token),
                secret: config.secret.clone(),
                site_key: config.site_key.clone(),
                client_ip: ip,
            },
        )
    }

    /// The verifier's pre-call decision: bypass admits outright;
    /// otherwise a payload is built and either denied or handed out for
    /// the one external call.
    pub fn decide(
        bypass: bool,
        token_header: Option<&str>,
        realip: Option<&str>,
        config: &HCaptcha,
    ) -> (r: ChallengeDecision)
        ensures
            bypass ==> r is Admit,
            !bypass ==> match r {
                ChallengeDecision::Admit(_) => false,
                ChallengeDecision::Deny(e) => match e {
                    HcaptchaError::Missing => token_header is None,
                    HcaptchaError::InsufficientInformation => token_header is Some && (
                    realip is None || spec_resolve_client_ip(realip->Some_0.spec_bytes()) is None),
                    HcaptchaError::Invalid(_) => false,
                },
                ChallengeDecision::CallService(v) => token_header is Some && realip is Some
                    && v.challenge_token@ == token_header->Some_0@ && v.secret@ == config.secret@
                    && v.site_key@ == config.site_key@ && spec_resolve_client_ip(
                    realip->Some_0.spec_bytes(),
                ) == Some(v.client_ip),
            },
    {
        if bypass {
            ChallengeDecision::Admit(Hcaptcha { _private: () })
        } else {
            match Self::create_request(token_header, realip, config) {
                Ok(v) => ChallengeDecision::CallService(v),
                Err(e) => ChallengeDecision::Deny(e),
            }
        }
    }

    /// Fold the external service's verdict into the verifier's result:
    /// success yields the capability, any failure or transport error is
    /// `Invalid` carrying the diagnostic.
    pub fn settle(outcome: Result<(), String>) -> (r: Result<Hcaptcha, HcaptchaError>)
        ensures
            outcome is Ok <==> r is Ok,
            outcome matches Err(e) ==> r == Err::<Hcaptcha, HcaptchaError>(
                HcaptchaError::Invalid(e),
            ),
    {
        match outcome {
            Ok(_) => Ok(Hcaptcha { _private: () }),
            Err(e) => Err(HcaptchaError::Invalid(e)),
        }
    }
}

} // verus!
