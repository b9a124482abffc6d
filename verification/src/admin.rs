//! The admin service: a thin adapter from admin operations to the pool
//! manager, with input validation and error classification.

use vstd::prelude::*;
use vstd::string::StringExecFns;

use crate::credentials::{CredModel, KiroCredentials};
use crate::db::{
    count_enabled, cred_with_id, has_id, index_of_id, reset_enable_model, set_disabled_model,
    with_id_model,
};
use crate::machine_id::{is_valid_machine_id, is_valid_machine_id_chars};
use crate::refresh::RefreshErrorKind;
use crate::text::{spec_u64_digits, u64_to_string};
use crate::token_manager::{
    exists_enabled_excluding, is_best_enabled_excluding, MultiTokenManager, PoolError,
};

verus! {

/// Why an admin operation failed.
#[derive(Debug)]
pub enum AdminServiceError {
    /// The operation referenced an id no record carries.
    NotFound {
        /// The id that was looked up.
        id: u64,
    },
    /// The request's inputs were rejected before touching the pool.
    InvalidRequest(String),
    /// An upstream call failed on the way.
    UpstreamError(String),
    /// Anything else: local validation deeper down, or the store itself.
    InternalError(String),
}

/// The wire shape of an admin error: a message and a stable kind tag.
pub struct AdminErrorResponse {
    /// Human-readable message.
    pub error: String,
    /// One of `not_found`, `invalid_request`, `api_error`,
    /// `internal_error`.
    pub kind: String,
}

impl AdminServiceError {
    /// The HTTP status the error renders as.
    pub fn status_code(&self) -> (r: u16)
        ensures
            self matches AdminServiceError::NotFound { .. } ==> r == 404,
            self matches AdminServiceError::InvalidRequest(_) ==> r == 400,
            self matches AdminServiceError::UpstreamError(_) ==> r == 502,
            self matches AdminServiceError::InternalError(_) ==> r == 500,
    {
        match self {
            AdminServiceError::NotFound { .. } => 404,
            AdminServiceError::InvalidRequest(_) => 400,
            AdminServiceError::UpstreamError(_) => 502,
            AdminServiceError::InternalError(_) => 500,
        }
    }

    /// The error as a message string.
    pub fn message(self) -> (r: String)
        ensures
            self matches AdminServiceError::NotFound { id } ==> r@ == "credential not found: "@
                + spec_u64_digits(id),
            self matches AdminServiceError::InvalidRequest(m) ==> r@ == "invalid request: "@
                + m@,
            self matches AdminServiceError::UpstreamError(m) ==> r@ == "upstream error: "@ + m@,
            self matches AdminServiceError::InternalError(m) ==> r@ == "internal error: "@ + m@,
    {
        match self {
            AdminServiceError::NotFound { id } => {
                let digits = u64_to_string(id);
                String::from_str("credential not found: ").concat(digits.as_str())
            },
            AdminServiceError::InvalidRequest(m) => String::from_str("invalid request: ").concat(
                m.as_str(),
            ),
            AdminServiceError::UpstreamError(m) => String::from_str("upstream error: ").concat(
                m.as_str(),
            ),
            AdminServiceError::InternalError(m) => String::from_str("internal error: ").concat(
                m.as_str(),
            ),
        }
    }

    /// Renders the error as a wire response: the message, and the kind tag
    /// `not_found`, `invalid_request`, `api_error` or `internal_error`.
    pub fn into_response(self) -> (r: AdminErrorResponse)
        ensures
            self matches AdminServiceError::NotFound { id } ==> r.kind@ == "not_found"@
                && r.error@ == "credential not found: "@ + spec_u64_digits(id),
            self matches AdminServiceError::InvalidRequest(m) ==> r.kind@ == "invalid_request"@
                && r.error@ == m@,
            self matches AdminServiceError::UpstreamError(m) ==> r.kind@ == "api_error"@
                && r.error@ == m@,
            self matches AdminServiceError::InternalError(m) ==> r.kind@ == "internal_error"@
                && r.error@ == m@,
    {
        match self {
            AdminServiceError::NotFound { id } => {
                let digits = u64_to_string(id);
                AdminErrorResponse {
                    error: String::from_str("credential not found: ").concat(digits.as_str()),
                    kind: String::from_str("not_found"),
                }
            },
            AdminServiceError::InvalidRequest(m) => AdminErrorResponse {
                error: m,
                kind: String::from_str("invalid_request"),
            },
            AdminServiceError::UpstreamError(m) => AdminErrorResponse {
                error: m,
                kind: String::from_str("api_error"),
            },
            AdminServiceError::InternalError(m) => AdminErrorResponse {
                error: m,
                kind: String::from_str("internal_error"),
            },
        }
    }
}

/// The record an admin add request builds: enabled, zero failures, no
/// token yet.
pub open spec fn spec_new_admin_credential(
    refresh_token: Seq<char>,
    auth_method: Option<Seq<char>>,
    client_id: Option<Seq<char>>,
    client_secret: Option<Seq<char>>,
    machine_id: Option<Seq<char>>,
    priority: u32,
) -> CredModel {
    CredModel {
        id: None,
        access_token: None,
        refresh_token: Some(refresh_token),
        profile_arn: None,
        expires_at: None,
        auth_method,
        client_id,
        client_secret,
        machine_id,
        priority,
        disabled: false,
        failure_count: 0,
        disabled_at: None,
        subscription_title: None,
        current_usage: 0,
        usage_limit: 0,
        next_reset_at: None,
        balance_updated_at: None,
    }
}

/// What went wrong on the way to a balance read: either the pool could
/// not produce a token, or the upstream call failed.
pub enum BalanceError {
    /// The pool's own refusal.
    Pool(PoolError),
    /// The refresh or usage call's failure.
    Upstream(RefreshErrorKind),
}

/// The error kinds that point at the upstream service rather than at
/// this process.
pub open spec fn spec_is_upstream_kind(k: RefreshErrorKind) -> bool {
    ||| k == RefreshErrorKind::CredentialExpiredOrInvalid
    ||| k == RefreshErrorKind::PermissionDenied
    ||| k == RefreshErrorKind::RateLimited
    ||| k == RefreshErrorKind::UpstreamUnavailable
    ||| k == RefreshErrorKind::RefreshFailed
    ||| k == RefreshErrorKind::NetworkError
}

/// Classifies a balance-flow failure for the admin surface: an unknown id
/// is not-found, an upstream failure is an upstream error, and everything
/// else (local validation, a truncated token, a missing access token) is
/// internal.
pub fn classify_balance_error(e: BalanceError, id: u64) -> (r: AdminServiceError)
    ensures
        e matches BalanceError::Pool(p) ==> ({
            &&& (p matches PoolError::CredentialNotFound { .. } ==> (r matches
                AdminServiceError::NotFound { id: rid } && rid == id))
            &&& (!(p matches PoolError::CredentialNotFound { .. }) ==> (r matches
                AdminServiceError::InternalError(m) && m@
                == crate::token_manager::spec_pool_error_message(p)))
        }),
        e matches BalanceError::Upstream(k) ==> ({
            &&& (spec_is_upstream_kind(k) ==> (r matches AdminServiceError::UpstreamError(m)
                && m@ == crate::refresh::spec_refresh_error_message(k)))
            &&& (!spec_is_upstream_kind(k) ==> (r matches AdminServiceError::InternalError(m)
                && m@ == crate::refresh::spec_refresh_error_message(k)))
        }),
{
    match e {
        BalanceError::Pool(p) => {
            match p {
                PoolError::CredentialNotFound { .. } => AdminServiceError::NotFound { id },
                _ => AdminServiceError::InternalError(p.message()),
            }
        },
        BalanceError::Upstream(k) => {
            match k {
                RefreshErrorKind::CredentialExpiredOrInvalid
                | RefreshErrorKind::PermissionDenied
                | RefreshErrorKind::RateLimited
                | RefreshErrorKind::UpstreamUnavailable
                | RefreshErrorKind::RefreshFailed
                | RefreshErrorKind::NetworkError => AdminServiceError::UpstreamError(k.message()),
                _ => AdminServiceError::InternalError(k.message()),
            }
        },
    }
}

/// The admin service: owns the pool manager and maps admin requests to
/// its operations. The manager is public so the serving path shares it.
pub struct AdminService {
    /// The pool manager the admin surface operates on.
    pub manager: MultiTokenManager,
}

impl AdminService {
    /// Wraps a pool manager.
    pub fn new(manager: MultiTokenManager) -> (r: Self)
        ensures
            r.manager == manager,
    {
        AdminService { manager }
    }

    /// Enables or disables a credential; an unknown id is reported not
    /// found and changes nothing. Disabling the current credential also
    /// switches the pool to the next enabled one; enabling clears the
    /// failure count atomically.
    pub fn set_disabled(&mut self, id: u64, disabled: bool, now: i64) -> (r: Result<
        (),
        AdminServiceError,
    >)
        requires
            old(self).manager.wf(),
        ensures
            final(self).manager.wf(),
            final(self).manager.spec_next_id() == old(self).manager.spec_next_id(),
            r is Ok <==> has_id(old(self).manager@, id),
            !has_id(old(self).manager@, id) ==> (r matches Err(e) && e matches
                AdminServiceError::NotFound { id: rid } && rid == id && final(self).manager@
                == old(self).manager@ && final(self).manager.spec_current() == old(self).manager.spec_current()),
            has_id(old(self).manager@, id) && !disabled ==> final(self).manager@ == old(self).manager@.update(
                index_of_id(old(self).manager@, id),
                reset_enable_model(cred_with_id(old(self).manager@, id)),
            ) && final(self).manager.spec_current() == old(self).manager.spec_current(),
            has_id(old(self).manager@, id) && disabled ==> ({
                let s2 = old(self).manager@.update(
                    index_of_id(old(self).manager@, id),
                    set_disabled_model(cred_with_id(old(self).manager@, id), true, now),
                );
                &&& final(self).manager@ == s2
                &&& (id != old(self).manager.spec_current() ==> final(self).manager.spec_current()
                    == old(self).manager.spec_current())
                &&& (id == old(self).manager.spec_current() ==> {
                    &&& (exists_enabled_excluding(s2, id) ==> is_best_enabled_excluding(
                        s2,
                        final(self).manager.spec_current(),
                        id,
                    ))
                    &&& (!exists_enabled_excluding(s2, id) ==> final(self).manager.spec_current() == old(self).manager.spec_current())
                })
            }),
    {
        let current = self.manager.current_credential_id();
        if !self.manager.set_disabled(id, disabled, now) {
            return Err(AdminServiceError::NotFound { id });
        }
        if disabled && id == current {
            let _ = self.manager.switch_to_next();
        }
        Ok(())
    }

    /// Updates a credential's priority; the pool re-selects the current
    /// credential under the new order at once. An unknown id is reported
    /// not found and changes nothing.
    pub fn set_priority(&mut self, id: u64, priority: u32) -> (r: Result<(), AdminServiceError>)
        requires
            old(self).manager.wf(),
        ensures
            final(self).manager.wf(),
            final(self).manager.spec_next_id() == old(self).manager.spec_next_id(),
            r is Ok <==> has_id(old(self).manager@, id),
            !has_id(old(self).manager@, id) ==> (r matches Err(e) && e matches
                AdminServiceError::NotFound { id: rid } && rid == id && final(self).manager@
                == old(self).manager@ && final(self).manager.spec_current() == old(self).manager.spec_current()),
            has_id(old(self).manager@, id) ==> {
                &&& final(self).manager@ == old(self).manager@.update(
                    index_of_id(old(self).manager@, id),
                    crate::db::with_priority_model(
                        cred_with_id(old(self).manager@, id),
                        priority,
                    ),
                )
                &&& (count_enabled(final(self).manager@) > 0
                    ==> crate::token_manager::is_best_enabled_id(
                    final(self).manager@,
                    final(self).manager.spec_current(),
                ))
            },
    {
        if self.manager.database().get_credential(id).is_none() {
            return Err(AdminServiceError::NotFound { id });
        }
        let _ = self.manager.set_priority(id, priority);
        Ok(())
    }

    /// Resets a credential's failure count and enables it. An unknown id
    /// is reported not found and changes nothing.
    pub fn reset_and_enable(&mut self, id: u64) -> (r: Result<(), AdminServiceError>)
        requires
            old(self).manager.wf(),
        ensures
            final(self).manager.wf(),
            final(self).manager.spec_next_id() == old(self).manager.spec_next_id(),
            r is Ok <==> has_id(old(self).manager@, id),
            final(self).manager.spec_current() == old(self).manager.spec_current(),
            !has_id(old(self).manager@, id) ==> (r matches Err(e) && e matches
                AdminServiceError::NotFound { id: rid } && rid == id && final(self).manager@
                == old(self).manager@),
            has_id(old(self).manager@, id) ==> final(self).manager@ == old(self).manager@.update(
                index_of_id(old(self).manager@, id),
                reset_enable_model(cred_with_id(old(self).manager@, id)),
            ),
    {
        if !self.manager.reset_and_enable(id) {
            return Err(AdminServiceError::NotFound { id });
        }
        Ok(())
    }

    /// Adds a credential: a configured machine id must have the UUID-v4
    /// form, and a client id may not repeat one already in the pool; the
    /// new record starts enabled with zero failures. Returns the assigned
    /// id.
    pub fn add_credential(
        &mut self,
        refresh_token: String,
        auth_method: Option<String>,
        client_id: Option<String>,
        client_secret: Option<String>,
        machine_id: Option<String>,
        priority: Option<u32>,
    ) -> (r: Result<u64, AdminServiceError>)
        requires
            old(self).manager.wf(),
        ensures
            final(self).manager.wf(),
            ({
                let mid_ok = machine_id is None || is_valid_machine_id_chars(
                    machine_id.unwrap()@,
                );
                let dup = client_id matches Some(cid) && (exists|i: int|
                    0 <= i < old(self).manager@.len() && (#[trigger] old(self).manager@[i]).client_id == Some(cid@));
                let built = spec_new_admin_credential(
                    refresh_token@,
                    auth_method.deep_view(),
                    client_id.deep_view(),
                    client_secret.deep_view(),
                    machine_id.deep_view(),
                    (match priority {
                        Some(p) => p,
                        None => 0u32,
                    }),
                );
                &&& (!mid_ok ==> (r matches Err(e) && e matches
                    AdminServiceError::InvalidRequest(m) && m@
                    == "machineId must be a valid UUID v4 (36 characters)"@ && final(self).manager@ == old(self).manager@))
                &&& (mid_ok && dup ==> (r matches Err(e) && e matches
                    AdminServiceError::InvalidRequest(m) && m@ == "account already exists"@
                    && final(self).manager@ == old(self).manager@))
                &&& (mid_ok && !dup ==> {
                    &&& (r is Ok <==> !old(self).manager.id_space_exhausted())
                    &&& (r matches Ok(id) ==> {
                        &&& id == old(self).manager.spec_next_id()
                        &&& final(self).manager.spec_next_id() == id + 1
                        &&& final(self).manager@ == old(self).manager@.push(
                            with_id_model(built, id),
                        )
                        &&& !has_id(old(self).manager@, id)
                        &&& (old(self).manager@.len() == 0 ==> final(self).manager.spec_current() == id)
                    })
                    &&& (r matches Err(e) ==> e matches AdminServiceError::InternalError(_)
                        && final(self).manager@ == old(self).manager@ && final(self).manager.spec_next_id() == old(self).manager.spec_next_id())
                })
            }),
    {
        match &machine_id {
            Some(mid) => {
                if !is_valid_machine_id(mid.as_str()) {
                    return Err(
                        AdminServiceError::InvalidRequest(
                            String::from_str(
                                "machineId must be a valid UUID v4 (36 characters)",
                            ),
                        ),
                    );
                }
            },
            None => {},
        }
        match &client_id {
            Some(cid) => {
                if self.manager.database().client_id_exists(cid.as_str()) {
                    return Err(
                        AdminServiceError::InvalidRequest(
                            String::from_str("account already exists"),
                        ),
                    );
                }
            },
            None => {},
        }
        let cred = KiroCredentials {
            id: None,
            access_token: None,
            refresh_token: Some(refresh_token),
            profile_arn: None,
            expires_at: None,
            auth_method,
            client_id,
            client_secret,
            machine_id,
            priority: match priority {
                Some(p) => p,
                None => 0,
            },
            disabled: false,
            failure_count: 0,
            disabled_at: None,
            subscription_title: None,
            current_usage: 0,
            usage_limit: 0,
            next_reset_at: None,
            balance_updated_at: None,
        };
        match self.manager.add_credential(cred) {
            Ok(id) => Ok(id),
            Err(_) => Err(
                AdminServiceError::InternalError(
                    String::from_str("credential id space exhausted"),
                ),
            ),
        }
    }

    /// Deletes a credential; an unknown id is reported not found. When
    /// the deleted credential was current, the pool re-selects.
    pub fn delete_credential(&mut self, id: u64) -> (r: Result<(), AdminServiceError>)
        requires
            old(self).manager.wf(),
        ensures
            final(self).manager.wf(),
            final(self).manager.spec_next_id() == old(self).manager.spec_next_id(),
            !has_id(old(self).manager@, id) ==> (r matches Err(e) && e matches
                AdminServiceError::NotFound { id: rid } && rid == id && final(self).manager@
                == old(self).manager@),
            has_id(old(self).manager@, id) ==> r is Ok && final(self).manager@ == old(self).manager@.remove(index_of_id(old(self).manager@, id)),
    {
        if self.manager.delete_credential(id) {
            Ok(())
        } else {
            Err(AdminServiceError::NotFound { id })
        }
    }
}

} // verus!
