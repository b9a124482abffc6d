//! The refresh-client logic: everything about an upstream token refresh
//! that computes or decides.
//!
//! A refresh is planned here (pre-validation of the refresh token, protocol
//! selection, endpoint and header text), carried over the network by the
//! embedding program, and its parsed response is applied to the credential
//! snapshot here. Upstream HTTP status codes map to error kinds by the
//! fixed table in [`classify_refresh_status`].

use vstd::prelude::*;
use vstd::string::{StrSliceExecFns, StringExecFns};

use crate::clock::{format_rfc3339_epoch, renderable_epoch, rfc3339_epoch};
use crate::credentials::{CredModel, KiroCredentials};
use crate::machine_id::{generate_from_credentials, spec_generate_from_credentials};

verus! {

/// Why a refresh or usage call failed, or could not even be attempted.
#[derive(Clone, Copy, Debug, PartialEq, Eq, Structural)]
pub enum RefreshErrorKind {
    /// The refresh token is absent, too short, or holds a `...` marker: it
    /// was truncated before it reached the pool, and no request is sent.
    TruncatedCredential,
    /// The OIDC protocol needs a client id and the credential has none.
    MissingClientId,
    /// The OIDC protocol needs a client secret and the credential has none.
    MissingClientSecret,
    /// No device fingerprint can be derived for the credential.
    MissingMachineId,
    /// Upstream answered 401: the credential is expired or invalid.
    CredentialExpiredOrInvalid,
    /// Upstream answered 403.
    PermissionDenied,
    /// Upstream answered 429.
    RateLimited,
    /// Upstream answered with a server error (500-599).
    UpstreamUnavailable,
    /// Upstream answered with any other non-success status.
    RefreshFailed,
    /// The request never completed: connection or timeout trouble.
    NetworkError,
}

/// The message each refresh error kind renders as.
pub open spec fn spec_refresh_error_message(k: RefreshErrorKind) -> Seq<char> {
    match k {
        RefreshErrorKind::TruncatedCredential => "refresh token is missing or truncated"@,
        RefreshErrorKind::MissingClientId => "the idc protocol needs a clientId"@,
        RefreshErrorKind::MissingClientSecret => "the idc protocol needs a clientSecret"@,
        RefreshErrorKind::MissingMachineId => "no machine id could be derived"@,
        RefreshErrorKind::CredentialExpiredOrInvalid => "credential expired or invalid, re-authentication needed"@,
        RefreshErrorKind::PermissionDenied => "permission denied"@,
        RefreshErrorKind::RateLimited => "rate limited by upstream"@,
        RefreshErrorKind::UpstreamUnavailable => "upstream service temporarily unavailable"@,
        RefreshErrorKind::RefreshFailed => "token refresh failed"@,
        RefreshErrorKind::NetworkError => "network error or timeout"@,
    }
}

impl RefreshErrorKind {
    /// The error as a message string.
    pub fn message(self) -> (r: String)
        ensures
            r@ == spec_refresh_error_message(self),
    {
        match self {
            RefreshErrorKind::TruncatedCredential => String::from_str(
                "refresh token is missing or truncated",
            ),
            RefreshErrorKind::MissingClientId => String::from_str(
                "the idc protocol needs a clientId",
            ),
            RefreshErrorKind::MissingClientSecret => String::from_str(
                "the idc protocol needs a clientSecret",
            ),
            RefreshErrorKind::MissingMachineId => String::from_str(
                "no machine id could be derived",
            ),
            RefreshErrorKind::CredentialExpiredOrInvalid => String::from_str(
                "credential expired or invalid, re-authentication needed",
            ),
            RefreshErrorKind::PermissionDenied => String::from_str("permission denied"),
            RefreshErrorKind::RateLimited => String::from_str("rate limited by upstream"),
            RefreshErrorKind::UpstreamUnavailable => String::from_str(
                "upstream service temporarily unavailable",
            ),
            RefreshErrorKind::RefreshFailed => String::from_str("token refresh failed"),
            RefreshErrorKind::NetworkError => String::from_str("network error or timeout"),
        }
    }
}

/// The characters `...` stand at position `i`.
pub open spec fn triple_dot_at(s: Seq<char>, i: int) -> bool {
    &&& 0 <= i
    &&& i + 3 <= s.len()
    &&& s[i] == '.'
    &&& s[i + 1] == '.'
    &&& s[i + 2] == '.'
}

/// The string holds a `...` truncation marker somewhere.
pub open spec fn has_triple_dot(s: Seq<char>) -> bool {
    exists|i: int| triple_dot_at(s, i)
}

/// A refresh token that may be sent upstream: at least 100 characters and
/// no `...` marker anywhere (in particular not at the end).
pub open spec fn refresh_token_usable(t: Seq<char>) -> bool {
    t.len() >= 100 && !has_triple_dot(t)
}

/// The credential carries a usable refresh token.
pub open spec fn spec_refresh_token_valid(c: CredModel) -> bool {
    c.refresh_token is Some && refresh_token_usable(c.refresh_token.unwrap())
}

fn find_triple_dot(s: &str) -> (r: bool)
    ensures
        r == has_triple_dot(s@),
{
    let n = s.unicode_len();
    if n < 3 {
        proof {
            assert forall|k: int| !triple_dot_at(s@, k) by {}
        }
        return false;
    }
    let mut i: usize = 0;
    while i <= n - 3
        invariant
            s@.len() == n,
            n >= 3,
            i <= n - 3 + 1,
            forall|k: int| 0 <= k < i ==> !triple_dot_at(s@, k),
        decreases n - i,
    {
        if s.get_char(i) == '.' && s.get_char(i + 1) == '.' && s.get_char(i + 2) == '.' {
            proof {
                assert(triple_dot_at(s@, i as int));
            }
            return true;
        }
        i += 1;
    }
    proof {
        assert forall|k: int| !triple_dot_at(s@, k) by {
            if triple_dot_at(s@, k) {
                assert(0 <= k < i);
            }
        }
    }
    false
}

/// Pre-validation applied before any network traffic: the refresh token
/// must be present, at least 100 characters long, and free of the `...`
/// truncation marker. A failing credential is reported truncated and no
/// request is ever built for it.
pub fn validate_refresh_token(credentials: &KiroCredentials) -> (r: Result<(), RefreshErrorKind>)
    ensures
        r is Ok <==> spec_refresh_token_valid(credentials@),
        r matches Err(e) ==> e == RefreshErrorKind::TruncatedCredential,
{
    match &credentials.refresh_token {
        None => Err(RefreshErrorKind::TruncatedCredential),
        Some(t) => {
            if t.as_str().unicode_len() < 100 {
                Err(RefreshErrorKind::TruncatedCredential)
            } else if find_triple_dot(t.as_str()) {
                Err(RefreshErrorKind::TruncatedCredential)
            } else {
                Ok(())
            }
        },
    }
}

/// The error kind an upstream HTTP status maps to: 401 means the
/// credential is expired or invalid, 403 permission denied, 429 rate
/// limited, 500-599 upstream unavailable, anything else a plain refresh
/// failure.
pub open spec fn spec_classify_status(status: u16) -> RefreshErrorKind {
    if status == 401 {
        RefreshErrorKind::CredentialExpiredOrInvalid
    } else if status == 403 {
        RefreshErrorKind::PermissionDenied
    } else if status == 429 {
        RefreshErrorKind::RateLimited
    } else if 500 <= status && status <= 599 {
        RefreshErrorKind::UpstreamUnavailable
    } else {
        RefreshErrorKind::RefreshFailed
    }
}

/// Maps a non-success upstream HTTP status to its error kind.
pub fn classify_refresh_status(status: u16) -> (r: RefreshErrorKind)
    ensures
        r == spec_classify_status(status),
{
    if status == 401 {
        RefreshErrorKind::CredentialExpiredOrInvalid
    } else if status == 403 {
        RefreshErrorKind::PermissionDenied
    } else if status == 429 {
        RefreshErrorKind::RateLimited
    } else if 500 <= status && status <= 599 {
        RefreshErrorKind::UpstreamUnavailable
    } else {
        RefreshErrorKind::RefreshFailed
    }
}

/// The fields of a successful refresh response, as parsed by the embedding
/// program: a fresh access token, optional replacements for the refresh
/// token and profile ARN, and an optional time-to-expiry in seconds.
pub struct RefreshSuccess {
    /// The new access token; the upstream always returns one on success.
    pub access_token: String,
    /// A replacement refresh token, when the upstream rotates it.
    pub refresh_token: Option<String>,
    /// A replacement profile ARN, when the upstream returns one.
    pub profile_arn: Option<String>,
    /// Seconds until the new token expires, when the upstream says.
    pub expires_in: Option<i64>,
}

/// Applies a successful refresh response to a credential snapshot: the
/// access token is replaced, the refresh token and profile ARN only when
/// the response carries replacements, `expires_at` becomes `now +
/// expires_in` rendered as RFC 3339 when a time-to-expiry was returned,
/// and every other field is preserved.
pub fn apply_refresh_response(
    credentials: &KiroCredentials,
    response: &RefreshSuccess,
    now: i64,
) -> (r: KiroCredentials)
    ensures
        r@.access_token == Some(response.access_token@),
        r@.refresh_token == (match response.refresh_token {
            Some(t) => Some(t@),
            None => credentials@.refresh_token,
        }),
        r@.profile_arn == (match response.profile_arn {
            Some(a) => Some(a@),
            None => credentials@.profile_arn,
        }),
        response.expires_in is None ==> r@.expires_at == credentials@.expires_at,
        response.expires_in matches Some(secs) ==> match r@.expires_at {
            Some(s) => rfc3339_epoch(s) matches Some(t) && t as int == now as int + secs as int,
            None => !renderable_epoch_sum(now, secs),
        },
        r@.id == credentials@.id,
        r@.auth_method == credentials@.auth_method,
        r@.client_id == credentials@.client_id,
        r@.client_secret == credentials@.client_secret,
        r@.machine_id == credentials@.machine_id,
        r@.priority == credentials@.priority,
        r@.disabled == credentials@.disabled,
        r@.failure_count == credentials@.failure_count,
        r@.disabled_at == credentials@.disabled_at,
        r@.subscription_title == credentials@.subscription_title,
        r@.current_usage == credentials@.current_usage,
        r@.usage_limit == credentials@.usage_limit,
        r@.next_reset_at == credentials@.next_reset_at,
        r@.balance_updated_at == credentials@.balance_updated_at,
{
    let mut c = credentials.clone();
    c.access_token = Some(response.access_token.clone());
    match &response.refresh_token {
        Some(t) => {
            c.refresh_token = Some(t.clone());
        },
        None => {},
    }
    match &response.profile_arn {
        Some(a) => {
            c.profile_arn = Some(a.clone());
        },
        None => {},
    }
    match response.expires_in {
        Some(secs) => {
            let sum = (now as i128) + (secs as i128);
            if 0 <= sum && sum <= 253_402_300_799 {
                let t = sum as i64;
                proof {
                    assert(renderable_epoch(t));
                }
                c.expires_at = format_rfc3339_epoch(t);
            } else {
                c.expires_at = None;
            }
        },
        None => {},
    }
    c
}

/// The instant `now + secs` lies in the range the clock renders.
pub open spec fn renderable_epoch_sum(now: i64, secs: i64) -> bool {
    0 <= now as int + secs as int <= 253_402_300_799
}

/// Which refresh protocol a credential uses.
#[derive(Clone, Copy, Debug, PartialEq, Eq, Structural)]
pub enum AuthProtocol {
    /// The social-OAuth refresh endpoint.
    Social,
    /// The AWS SSO OIDC refresh endpoint, for `idc` and `builder-id`.
    Oidc,
}

/// `c` equals `t` up to lowering of ASCII uppercase letters in `c`.
pub open spec fn char_matches_lower(c: char, t: char) -> bool {
    c == t || (65 <= c as u32 <= 90 && c as u32 + 32 == t as u32)
}

/// `s` equals the (lowercase) `t` ignoring ASCII case.
pub open spec fn matches_ignoring_ascii_case(s: Seq<char>, t: Seq<char>) -> bool {
    s.len() == t.len() && forall|i: int| 0 <= i < s.len() ==> char_matches_lower(s[i], t[i])
}

/// The protocol an `auth_method` field selects: `idc` and `builder-id`
/// (ASCII case aside) use the OIDC endpoint, anything else - including an
/// absent method - the social endpoint.
pub open spec fn spec_refresh_protocol(auth_method: Option<Seq<char>>) -> AuthProtocol {
    match auth_method {
        None => AuthProtocol::Social,
        Some(m) => if matches_ignoring_ascii_case(m, "idc"@) || matches_ignoring_ascii_case(
            m,
            "builder-id"@,
        ) {
            AuthProtocol::Oidc
        } else {
            AuthProtocol::Social
        },
    }
}

fn str_matches_ignoring_ascii_case(s: &str, t: &str) -> (r: bool)
    ensures
        r == matches_ignoring_ascii_case(s@, t@),
{
    let n = s.unicode_len();
    if n != t.unicode_len() {
        return false;
    }
    let mut i: usize = 0;
    while i < n
        invariant
            s@.len() == n,
            t@.len() == n,
            i <= n,
            forall|k: int| 0 <= k < i ==> char_matches_lower(s@[k], t@[k]),
        decreases n - i,
    {
        let a = s.get_char(i);
        let b = t.get_char(i);
        let au = a as u32;
        let bu = b as u32;
        let ok = a == b || (65 <= au && au <= 90 && au + 32 == bu);
        if !ok {
            proof {
                assert(!char_matches_lower(s@[i as int], t@[i as int]));
            }
            return false;
        }
        i += 1;
    }
    true
}

/// Selects the refresh protocol for a credential's `auth_method`.
pub fn select_refresh_protocol(auth_method: &Option<String>) -> (r: AuthProtocol)
    ensures
        r == spec_refresh_protocol(auth_method.deep_view()),
{
    match auth_method {
        None => AuthProtocol::Social,
        Some(m) => {
            if str_matches_ignoring_ascii_case(m.as_str(), "idc")
                || str_matches_ignoring_ascii_case(m.as_str(), "builder-id") {
                AuthProtocol::Oidc
            } else {
                AuthProtocol::Social
            }
        },
    }
}

/// The `x-amz-user-agent` header the OIDC refresh endpoint expects.
pub const IDC_AMZ_USER_AGENT: &'static str =
    "aws-sdk-js/3.738.0 ua/2.1 os/other lang/js md/browser#unknown_unknown api/sso-oidc#3.738.0 m/E KiroIDE";

/// The percent-encoding of a string, as a query-parameter value. This
/// names the result of `urlencoding::encode`; it depends on the
/// characters alone. On ASCII input the encoding is stated exactly by
/// [`spec_percent_encode_ascii`]; on other input (where it works on the
/// UTF-8 bytes) only the name speaks.
pub uninterp spec fn url_encoded(s: Seq<char>) -> Seq<char>;

/// Every character is ASCII.
pub open spec fn all_ascii(s: Seq<char>) -> bool {
    forall|i: int| #![auto] 0 <= i < s.len() ==> (s[i] as u32) < 128
}

/// An ASCII character percent-encoding passes through unchanged: the
/// alphanumerics and `-`, `.`, `_`, `~`.
pub open spec fn url_unreserved_char(c: char) -> bool {
    (48 <= c as u32 <= 57) || (65 <= c as u32 <= 90) || (97 <= c as u32 <= 122) || c == '-'
        || c == '.' || c == '_' || c == '~'
}

/// The uppercase hex character for a value below 16.
pub open spec fn upper_hex_char(n: u32) -> char {
    if n == 0 {
        '0'
    } else if n == 1 {
        '1'
    } else if n == 2 {
        '2'
    } else if n == 3 {
        '3'
    } else if n == 4 {
        '4'
    } else if n == 5 {
        '5'
    } else if n == 6 {
        '6'
    } else if n == 7 {
        '7'
    } else if n == 8 {
        '8'
    } else if n == 9 {
        '9'
    } else if n == 10 {
        'A'
    } else if n == 11 {
        'B'
    } else if n == 12 {
        'C'
    } else if n == 13 {
        'D'
    } else if n == 14 {
        'E'
    } else {
        'F'
    }
}

/// Percent-encoding of an ASCII string: unreserved characters pass
/// through, every other one becomes `%` and two uppercase hex digits.
pub open spec fn spec_percent_encode_ascii(s: Seq<char>) -> Seq<char>
    decreases s.len(),
{
    if s.len() == 0 {
        Seq::empty()
    } else {
        spec_percent_encode_ascii(s.drop_last()) + (if url_unreserved_char(s.last()) {
            seq![s.last()]
        } else {
            seq![
                '%',
                upper_hex_char((s.last() as u32) / 16),
                upper_hex_char((s.last() as u32) % 16),
            ]
        })
    }
}

/// Relies on `urlencoding::encode`: percent-encodes a string for use in a
/// URL query. It encodes the UTF-8 bytes, every byte except the
/// unreserved set becoming `%` and two uppercase hex digits, so on ASCII
/// input (bytes and characters coincide) the result is stated exactly.
#[verifier::external_body]
fn url_encode(s: &str) -> (r: String)
    ensures
        r@ == url_encoded(s@),
        all_ascii(s@) ==> r@ == spec_percent_encode_ascii(s@),
{
    urlencoding::encode(s).into_owned()
}

/// The social refresh endpoint for a region.
pub open spec fn spec_social_refresh_url(region: Seq<char>) -> Seq<char> {
    "https://prod."@ + region + ".auth.desktop.kiro.dev/refreshToken"@
}

/// The social refresh endpoint's host for a region.
pub open spec fn spec_social_refresh_host(region: Seq<char>) -> Seq<char> {
    "prod."@ + region + ".auth.desktop.kiro.dev"@
}

/// The OIDC token endpoint for a region.
pub open spec fn spec_oidc_refresh_url(region: Seq<char>) -> Seq<char> {
    "https://oidc."@ + region + ".amazonaws.com/token"@
}

/// The OIDC token endpoint's host for a region.
pub open spec fn spec_oidc_refresh_host(region: Seq<char>) -> Seq<char> {
    "oidc."@ + region + ".amazonaws.com"@
}

/// The usage-limits endpoint's host for a region.
pub open spec fn spec_usage_host(region: Seq<char>) -> Seq<char> {
    "q."@ + region + ".amazonaws.com"@
}

/// The `User-Agent` the upstream expects: client version and fingerprint.
pub open spec fn spec_kiro_user_agent(version: Seq<char>, fingerprint: Seq<char>) -> Seq<char> {
    "KiroIDE-"@ + version + "-"@ + fingerprint
}

/// The usage-limits URL: fixed origin and resource-type parameters, plus
/// the percent-encoded profile ARN when the credential has one.
pub open spec fn spec_usage_url(region: Seq<char>, profile_arn: Option<Seq<char>>) -> Seq<char> {
    let base = "https://"@ + spec_usage_host(region)
        + "/getUsageLimits?origin=AI_EDITOR&resourceType=AGENTIC_REQUEST"@;
    match profile_arn {
        Some(a) => base + "&profileArn="@ + url_encoded(a),
        None => base,
    }
}

/// The `User-Agent` for the usage-limits call.
pub open spec fn spec_usage_user_agent(version: Seq<char>, fingerprint: Seq<char>) -> Seq<char> {
    "aws-sdk-js/1.0.0 ua/2.1 os/darwin#24.6.0 lang/js md/nodejs#22.21.1 api/codewhispererruntime#1.0.0 m/N,E KiroIDE-"@
        + version + "-"@ + fingerprint
}

/// The `x-amz-user-agent` for the usage-limits call.
pub open spec fn spec_usage_amz_user_agent(version: Seq<char>, fingerprint: Seq<char>) -> Seq<
    char,
> {
    "aws-sdk-js/1.0.0 KiroIDE-"@ + version + "-"@ + fingerprint
}

/// The body of a planned refresh request.
pub enum RefreshRequestBody {
    /// The social endpoint takes the refresh token alone.
    Social {
        /// The credential's refresh token.
        refresh_token: String,
    },
    /// The OIDC endpoint takes the client pair and the grant type too.
    Oidc {
        /// The credential's OIDC client id.
        client_id: String,
        /// The credential's OIDC client secret.
        client_secret: String,
        /// The credential's refresh token.
        refresh_token: String,
        /// Always `refresh_token`.
        grant_type: String,
    },
}

/// A refresh request ready to send: where, as whom, and with what body.
pub struct RefreshPlan {
    /// The endpoint URL.
    pub url: String,
    /// The `host` header value.
    pub host: String,
    /// The `User-Agent` to send; the OIDC endpoint uses fixed headers
    /// instead, so a plan for it carries none.
    pub user_agent: Option<String>,
    /// The JSON body's fields.
    pub body: RefreshRequestBody,
}

/// Plans a refresh request for a credential. The refresh token is
/// validated before anything else, so a truncated credential yields an
/// error and no request to send; an OIDC credential missing its client
/// pair is rejected too. A valid social credential always has a
/// fingerprint, since its usable refresh token can seed one.
pub fn plan_refresh_request(credentials: &KiroCredentials, region: &str, kiro_version: &str) -> (r:
    Result<RefreshPlan, RefreshErrorKind>)
    ensures
        !spec_refresh_token_valid(credentials@) ==> r == Result::<
            RefreshPlan,
            RefreshErrorKind,
        >::Err(RefreshErrorKind::TruncatedCredential),
        spec_refresh_token_valid(credentials@) ==> {
            let proto = spec_refresh_protocol(credentials@.auth_method);
            &&& (proto == AuthProtocol::Social ==> (r matches Ok(p) && {
                &&& p.url@ == spec_social_refresh_url(region@)
                &&& p.host@ == spec_social_refresh_host(region@)
                &&& p.user_agent matches Some(ua) && ua@ == spec_kiro_user_agent(
                    kiro_version@,
                    spec_generate_from_credentials(credentials@).unwrap(),
                )
                &&& p.body matches RefreshRequestBody::Social { refresh_token } && refresh_token@
                    == credentials@.refresh_token.unwrap()
            }))
            &&& (proto == AuthProtocol::Oidc ==> {
                if credentials@.client_id is None {
                    r == Result::<RefreshPlan, RefreshErrorKind>::Err(
                        RefreshErrorKind::MissingClientId,
                    )
                } else if credentials@.client_secret is None {
                    r == Result::<RefreshPlan, RefreshErrorKind>::Err(
                        RefreshErrorKind::MissingClientSecret,
                    )
                } else {
                    (r matches Ok(p) && {
                        &&& p.url@ == spec_oidc_refresh_url(region@)
                        &&& p.host@ == spec_oidc_refresh_host(region@)
                        &&& p.user_agent is None
                        &&& p.body matches RefreshRequestBody::Oidc {
                            client_id,
                            client_secret,
                            refresh_token,
                            grant_type,
                        } && client_id@ == credentials@.client_id.unwrap() && client_secret@
                            == credentials@.client_secret.unwrap() && refresh_token@
                            == credentials@.refresh_token.unwrap() && grant_type@
                            == "refresh_token"@
                    })
                }
            })
        },
{
    match validate_refresh_token(credentials) {
        Err(e) => {
            return Err(e);
        },
        Ok(()) => {},
    }
    let token = match &credentials.refresh_token {
        Some(t) => t.clone(),
        None => {
            proof {
                assert(false);
            }
            String::new()
        },
    };
    match select_refresh_protocol(&credentials.auth_method) {
        AuthProtocol::Social => {
            let fingerprint = match generate_from_credentials(credentials) {
                Some(m) => m,
                None => {
                    proof {
                        assert(credentials@.refresh_token.unwrap().len() >= 100);
                        assert(false);
                    }
                    String::new()
                },
            };
            let url = String::from_str("https://prod.").concat(region).concat(
                ".auth.desktop.kiro.dev/refreshToken",
            );
            let host = String::from_str("prod.").concat(region).concat(".auth.desktop.kiro.dev");
            let ua = String::from_str("KiroIDE-").concat(kiro_version).concat("-").concat(
                fingerprint.as_str(),
            );
            Ok(
                RefreshPlan {
                    url,
                    host,
                    user_agent: Some(ua),
                    body: RefreshRequestBody::Social { refresh_token: token },
                },
            )
        },
        AuthProtocol::Oidc => {
            let client_id = match &credentials.client_id {
                Some(c) => c.clone(),
                None => {
                    return Err(RefreshErrorKind::MissingClientId);
                },
            };
            let client_secret = match &credentials.client_secret {
                Some(c) => c.clone(),
                None => {
                    return Err(RefreshErrorKind::MissingClientSecret);
                },
            };
            let url = String::from_str("https://oidc.").concat(region).concat(
                ".amazonaws.com/token",
            );
            let host = String::from_str("oidc.").concat(region).concat(".amazonaws.com");
            Ok(
                RefreshPlan {
                    url,
                    host,
                    user_agent: None,
                    body: RefreshRequestBody::Oidc {
                        client_id,
                        client_secret,
                        refresh_token: token,
                        grant_type: String::from_str("refresh_token"),
                    },
                },
            )
        },
    }
}

/// A usage-limits request ready to send.
pub struct UsagePlan {
    /// The endpoint URL, profile ARN included when the credential has one.
    pub url: String,
    /// The `host` header value.
    pub host: String,
    /// The `User-Agent` to send.
    pub user_agent: String,
    /// The `x-amz-user-agent` to send.
    pub amz_user_agent: String,
}

/// Plans a usage-limits request for a credential. The request carries the
/// credential's fingerprint in both user-agent headers, so a credential
/// that yields none is rejected; the caller adds the bearer token.
pub fn plan_usage_request(credentials: &KiroCredentials, region: &str, kiro_version: &str) -> (r:
    Result<UsagePlan, RefreshErrorKind>)
    ensures
        r is Ok <==> spec_generate_from_credentials(credentials@) is Some,
        r matches Err(e) ==> e == RefreshErrorKind::MissingMachineId,
        r matches Ok(p) ==> {
            let fingerprint = spec_generate_from_credentials(credentials@).unwrap();
            &&& p.url@ == spec_usage_url(region@, credentials@.profile_arn)
            &&& p.host@ == spec_usage_host(region@)
            &&& p.user_agent@ == spec_usage_user_agent(kiro_version@, fingerprint)
            &&& p.amz_user_agent@ == spec_usage_amz_user_agent(kiro_version@, fingerprint)
        },
{
    let fingerprint = match generate_from_credentials(credentials) {
        Some(m) => m,
        None => {
            return Err(RefreshErrorKind::MissingMachineId);
        },
    };
    let host = String::from_str("q.").concat(region).concat(".amazonaws.com");
    let mut url = String::from_str("https://").concat(host.as_str()).concat(
        "/getUsageLimits?origin=AI_EDITOR&resourceType=AGENTIC_REQUEST",
    );
    match &credentials.profile_arn {
        Some(arn) => {
            let encoded = url_encode(arn.as_str());
            url = url.concat("&profileArn=").concat(encoded.as_str());
        },
        None => {},
    }
    let user_agent = String::from_str(
        "aws-sdk-js/1.0.0 ua/2.1 os/darwin#24.6.0 lang/js md/nodejs#22.21.1 api/codewhispererruntime#1.0.0 m/N,E KiroIDE-",
    ).concat(kiro_version).concat("-").concat(fingerprint.as_str());
    let amz_user_agent = String::from_str("aws-sdk-js/1.0.0 KiroIDE-").concat(kiro_version).concat(
        "-",
    ).concat(fingerprint.as_str());
    Ok(UsagePlan { url, host, user_agent, amz_user_agent })
}

} // verus!
