//! The credential record: the persistent entity the pool manages.
//!
//! A credential holds an opaque refresh token, a cached access token with its
//! expiry instant, protocol selection data, and health bookkeeping (priority,
//! disabled flag, consecutive-failure counter). Instants that only the store
//! reads (`disabled_at`, `balance_updated_at`, `next_reset_at`) are held as
//! Unix epoch seconds; `expires_at` is kept as the RFC 3339 text the refresh
//! protocol carries.

use vstd::prelude::*;

verus! {

/// Mathematical model of a credential record: every text field is seen as a
/// sequence of characters.
pub ghost struct CredModel {
    pub id: Option<u64>,
    pub access_token: Option<Seq<char>>,
    pub refresh_token: Option<Seq<char>>,
    pub profile_arn: Option<Seq<char>>,
    pub expires_at: Option<Seq<char>>,
    pub auth_method: Option<Seq<char>>,
    pub client_id: Option<Seq<char>>,
    pub client_secret: Option<Seq<char>>,
    pub machine_id: Option<Seq<char>>,
    pub priority: u32,
    pub disabled: bool,
    pub failure_count: u32,
    pub disabled_at: Option<i64>,
    pub subscription_title: Option<Seq<char>>,
    pub current_usage: u64,
    pub usage_limit: u64,
    pub next_reset_at: Option<i64>,
    pub balance_updated_at: Option<i64>,
}

/// An upstream OAuth credential together with its health bookkeeping.
pub struct KiroCredentials {
    /// Store-assigned identifier; `None` until the record is inserted.
    pub id: Option<u64>,
    /// Cached upstream access token, refreshed on demand.
    pub access_token: Option<String>,
    /// Opaque long-lived refresh token.
    pub refresh_token: Option<String>,
    /// Optional upstream resource identifier.
    pub profile_arn: Option<String>,
    /// Expiry instant of `access_token`, RFC 3339 with offset.
    pub expires_at: Option<String>,
    /// Refresh protocol selector: `social`, `idc` or `builder-id`; default `social`.
    pub auth_method: Option<String>,
    /// OIDC client id, required by the `idc` and `builder-id` protocols.
    pub client_id: Option<String>,
    /// OIDC client secret, required by the `idc` and `builder-id` protocols.
    pub client_secret: Option<String>,
    /// Device fingerprint override, UUID-v4 shaped when valid.
    pub machine_id: Option<String>,
    /// Lower value means higher priority; default 0.
    pub priority: u32,
    /// Whether the credential is excluded from selection.
    pub disabled: bool,
    /// Consecutive reported API-call failures since the last reset.
    pub failure_count: u32,
    /// Instant the credential was last disabled (epoch seconds); absent while enabled.
    pub disabled_at: Option<i64>,
    /// Last observed subscription title, informational.
    pub subscription_title: Option<String>,
    /// Last observed usage, informational.
    pub current_usage: u64,
    /// Last observed usage limit, informational.
    pub usage_limit: u64,
    /// Next usage reset instant (epoch seconds), informational.
    pub next_reset_at: Option<i64>,
    /// Instant the balance fields were last written (epoch seconds).
    pub balance_updated_at: Option<i64>,
}

impl View for KiroCredentials {
    type V = CredModel;

    open spec fn view(&self) -> CredModel {
        CredModel {
            id: self.id,
            access_token: self.access_token.deep_view(),
            refresh_token: self.refresh_token.deep_view(),
            profile_arn: self.profile_arn.deep_view(),
            expires_at: self.expires_at.deep_view(),
            auth_method: self.auth_method.deep_view(),
            client_id: self.client_id.deep_view(),
            client_secret: self.client_secret.deep_view(),
            machine_id: self.machine_id.deep_view(),
            priority: self.priority,
            disabled: self.disabled,
            failure_count: self.failure_count,
            disabled_at: self.disabled_at,
            subscription_title: self.subscription_title.deep_view(),
            current_usage: self.current_usage,
            usage_limit: self.usage_limit,
            next_reset_at: self.next_reset_at,
            balance_updated_at: self.balance_updated_at,
        }
    }
}

impl DeepView for KiroCredentials {
    type V = CredModel;

    open spec fn deep_view(&self) -> CredModel {
        self.view()
    }
}

/// Clones an optional string; the clone equals the original.
pub(crate) fn clone_opt_string(o: &Option<String>) -> (r: Option<String>)
    ensures
        r == *o,
{
    match o {
        Some(s) => Some(s.clone()),
        None => None,
    }
}

impl Clone for KiroCredentials {
    fn clone(&self) -> (r: Self)
        ensures
            r == *self,
            r@ == self@,
    {
        KiroCredentials {
            id: self.id,
            access_token: clone_opt_string(&self.access_token),
            refresh_token: clone_opt_string(&self.refresh_token),
            profile_arn: clone_opt_string(&self.profile_arn),
            expires_at: clone_opt_string(&self.expires_at),
            auth_method: clone_opt_string(&self.auth_method),
            client_id: clone_opt_string(&self.client_id),
            client_secret: clone_opt_string(&self.client_secret),
            machine_id: clone_opt_string(&self.machine_id),
            priority: self.priority,
            disabled: self.disabled,
            failure_count: self.failure_count,
            disabled_at: self.disabled_at,
            subscription_title: clone_opt_string(&self.subscription_title),
            current_usage: self.current_usage,
            usage_limit: self.usage_limit,
            next_reset_at: self.next_reset_at,
            balance_updated_at: self.balance_updated_at,
        }
    }
}

/// The model of an empty credential: every optional field absent, every
/// counter zero, enabled.
pub open spec fn empty_cred_model() -> CredModel {
    CredModel {
        id: None,
        access_token: None,
        refresh_token: None,
        profile_arn: None,
        expires_at: None,
        auth_method: None,
        client_id: None,
        client_secret: None,
        machine_id: None,
        priority: 0,
        disabled: false,
        failure_count: 0,
        disabled_at: None,
        subscription_title: None,
        current_usage: 0,
        usage_limit: 0,
        next_reset_at: None,
        balance_updated_at: None,
    }
}

impl Default for KiroCredentials {
    fn default() -> (r: Self)
        ensures
            r@ == empty_cred_model(),
    {
        KiroCredentials {
            id: None,
            access_token: None,
            refresh_token: None,
            profile_arn: None,
            expires_at: None,
            auth_method: None,
            client_id: None,
            client_secret: None,
            machine_id: None,
            priority: 0,
            disabled: false,
            failure_count: 0,
            disabled_at: None,
            subscription_title: None,
            current_usage: 0,
            usage_limit: 0,
            next_reset_at: None,
            balance_updated_at: None,
        }
    }
}

/// A record's disabled flag and disabled-at stamp agree: disabled exactly
/// when the stamp is present.
pub open spec fn flag_consistent(c: CredModel) -> bool {
    c.disabled <==> c.disabled_at is Some
}

/// Reports whether a counter is zero; used when rendering a credential,
/// where a zero priority is omitted.
pub fn is_zero(value: &u32) -> (r: bool)
    ensures
        r == (*value == 0),
{
    *value == 0
}

} // verus!
