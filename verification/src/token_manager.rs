//! Token expiry predicates and the multi-credential pool manager.

use vstd::prelude::*;
use vstd::string::StringExecFns;

use crate::clock::{parse_rfc3339_epoch, rfc3339_epoch};
use crate::credentials::{empty_cred_model, flag_consistent, CredModel, KiroCredentials};
use crate::db::{
    bumped_count, count_enabled, cred_with_id, has_id, index_of_id, key_lt, recover_all_model,
    reset_enable_model, set_disabled_model, with_failure_count_model, with_id_model,
    with_priority_model, Database, StoreError,
};
use crate::refresh::{apply_refresh_response, RefreshSuccess};

verus! {

/// Whether the credential's token expires within `within_seconds` of `now`,
/// or `None` when `expires_at` is absent or unparseable.
pub open spec fn spec_expiring_within(c: CredModel, now: int, within_seconds: int) -> Option<
    bool,
> {
    match c.expires_at {
        Option::None => Option::None,
        Option::Some(s) => match rfc3339_epoch(s) {
            Option::None => Option::None,
            Option::Some(t) => Option::Some(t <= now + within_seconds),
        },
    }
}

/// Expired: the token's expiry lies at or before five minutes from `now`;
/// an absent or unreadable expiry counts as expired.
pub open spec fn spec_is_expired(c: CredModel, now: int) -> bool {
    match spec_expiring_within(c, now, 300) {
        Option::Some(b) => b,
        Option::None => true,
    }
}

/// Expiring soon: the expiry lies at or before ten minutes from `now`; an
/// absent or unreadable expiry counts as *not* expiring soon (it already
/// counts as expired).
pub open spec fn spec_expiring_soon(c: CredModel, now: int) -> bool {
    match spec_expiring_within(c, now, 600) {
        Option::Some(b) => b,
        Option::None => false,
    }
}

/// A token needs a refresh when it is expired or expiring soon.
pub open spec fn spec_needs_refresh(c: CredModel, now: int) -> bool {
    spec_is_expired(c, now) || spec_expiring_soon(c, now)
}

/// Checks whether the token expires within `minutes` minutes of `now`;
/// `None` when `expires_at` is absent or does not parse.
pub fn is_token_expiring_within(credentials: &KiroCredentials, now: i64, minutes: i64) -> (r:
    Option<bool>)
    ensures
        r == spec_expiring_within(credentials@, now as int, minutes as int * 60),
{
    match &credentials.expires_at {
        Option::None => Option::None,
        Option::Some(s) => match parse_rfc3339_epoch(s.as_str()) {
            Option::None => Option::None,
            Option::Some(t) => Option::Some(
                t as i128 <= now as i128 + minutes as i128 * 60,
            ),
        },
    }
}

/// Whether the token counts as expired at `now` (five-minute margin; the
/// boundary is inclusive; an absent expiry counts as expired).
pub fn is_token_expired(credentials: &KiroCredentials, now: i64) -> (r: bool)
    ensures
        r == spec_is_expired(credentials@, now as int),
{
    match is_token_expiring_within(credentials, now, 5) {
        Option::Some(b) => b,
        Option::None => true,
    }
}

/// Whether the token expires within ten minutes of `now`; an absent expiry
/// yields false here, not true: absence already counts as expired.
pub fn is_token_expiring_soon(credentials: &KiroCredentials, now: i64) -> (r: bool)
    ensures
        r == spec_expiring_soon(credentials@, now as int),
{
    match is_token_expiring_within(credentials, now, 10) {
        Option::Some(b) => b,
        Option::None => false,
    }
}

/// An absent `expires_at` counts as expired but not as expiring soon: a
/// never-refreshed credential is refreshed on first use, through the
/// expired path alone.
pub proof fn lemma_absent_expiry_is_expired(c: CredModel, now: int)
    requires
        c.expires_at is None,
    ensures
        spec_is_expired(c, now),
        !spec_expiring_soon(c, now),
{
}

/// A credential is disabled after this many consecutive reported API-call
/// failures.
pub const MAX_FAILURES_PER_CREDENTIAL: u32 = 3;

/// An automatically disabled credential becomes eligible for recovery
/// after this many seconds.
pub const DISABLED_COOLDOWN_SECONDS: i64 = 300;

/// Every record that has reached the failure threshold is disabled.
pub open spec fn counts_capped(s: Seq<CredModel>) -> bool {
    forall|i: int|
        0 <= i < s.len() ==> ((#[trigger] s[i]).failure_count >= MAX_FAILURES_PER_CREDENTIAL
            ==> s[i].disabled)
}

/// Every enabled record either needs a refresh at `now` or carries an
/// access token: none is fresh by its stamp yet tokenless. Under this
/// coverage an acquire round cannot burn attempts without asking for a
/// refresh, so it must end in a context or a refresh request.
pub open spec fn tokens_where_fresh(s: Seq<CredModel>, now: int) -> bool {
    forall|i: int|
        0 <= i < s.len() && !(#[trigger] s[i]).disabled ==> (spec_needs_refresh(s[i], now)
            || s[i].access_token is Some)
}

/// The id names an enabled record that no enabled record precedes in
/// selection order.
pub open spec fn is_best_enabled_id(s: Seq<CredModel>, id: u64) -> bool {
    &&& has_id(s, id)
    &&& !cred_with_id(s, id).disabled
    &&& forall|j: int|
        0 <= j < s.len() && !(#[trigger] s[j]).disabled ==> !key_lt(s[j], cred_with_id(s, id))
}

/// Some enabled record carries an id other than `ex`.
pub open spec fn exists_enabled_excluding(s: Seq<CredModel>, ex: u64) -> bool {
    exists|j: int| 0 <= j < s.len() && !(#[trigger] s[j]).disabled && s[j].id != Some(ex)
}

/// The id names an enabled record, other than `ex`, that no enabled record
/// other than `ex` precedes in selection order.
pub open spec fn is_best_enabled_excluding(s: Seq<CredModel>, id: u64, ex: u64) -> bool {
    &&& has_id(s, id)
    &&& !cred_with_id(s, id).disabled
    &&& id != ex
    &&& forall|j: int|
        0 <= j < s.len() && !(#[trigger] s[j]).disabled && s[j].id != Some(ex) ==> !key_lt(
            s[j],
            cred_with_id(s, id),
        )
}

/// What a caller needs for one upstream call: the credential's id (for the
/// later success or failure report), a snapshot of the credential, and the
/// access token, all taken together so they agree.
pub struct CallContext {
    /// The credential's id.
    pub id: u64,
    /// The credential snapshot the token belongs to.
    pub credentials: KiroCredentials,
    /// The access token to present upstream.
    pub token: String,
}

/// Why the pool could not hand out a context.
#[derive(Clone, Copy, Debug, PartialEq, Eq, Structural)]
pub enum PoolError {
    /// Every credential was tried in this round and none yielded a token,
    /// or the pool is empty.
    NoUsableCredential {
        /// Enabled credentials at the time of failure.
        available: usize,
        /// Credentials in the pool when the round began.
        total: usize,
    },
    /// The pool holds credentials but every one is disabled.
    AllDisabled {
        /// Enabled credentials at the time of failure (zero).
        available: usize,
        /// Credentials in the pool when the round began.
        total: usize,
    },
    /// No record carries the id.
    CredentialNotFound {
        /// The id that was looked up.
        id: u64,
    },
    /// The record's token is fresh enough yet there is no access token.
    MissingAccessToken {
        /// The credential's id.
        id: u64,
    },
    /// A refresh succeeded but the returned token is already inside the
    /// expired window.
    StillExpiredAfterRefresh {
        /// The credential's id.
        id: u64,
    },
}

/// The message each pool error renders as.
pub open spec fn spec_pool_error_message(e: PoolError) -> Seq<char> {
    match e {
        PoolError::NoUsableCredential { available, total } => {
            "no credential could produce a valid token (available: "@ + crate::text::spec_u64_digits(
                available as u64,
            ) + "/"@ + crate::text::spec_u64_digits(total as u64) + ")"@
        },
        PoolError::AllDisabled { available, total } => {
            "all credentials are disabled ("@ + crate::text::spec_u64_digits(available as u64)
                + "/"@ + crate::text::spec_u64_digits(total as u64) + ")"@
        },
        PoolError::CredentialNotFound { id } => "credential not found: "@
            + crate::text::spec_u64_digits(id),
        PoolError::MissingAccessToken { id } => "no access token available: "@
            + crate::text::spec_u64_digits(id),
        PoolError::StillExpiredAfterRefresh { id } => "token still invalid or expired after refresh: "@
            + crate::text::spec_u64_digits(id),
    }
}

impl PoolError {
    /// The error as a message string.
    pub fn message(self) -> (r: String)
        ensures
            r@ == spec_pool_error_message(self),
    {
        match self {
            PoolError::NoUsableCredential { available, total } => {
                let a = crate::text::u64_to_string(available as u64);
                let t = crate::text::u64_to_string(total as u64);
                String::from_str(
                    "no credential could produce a valid token (available: ",
                ).concat(a.as_str()).concat("/").concat(t.as_str()).concat(")")
            },
            PoolError::AllDisabled { available, total } => {
                let a = crate::text::u64_to_string(available as u64);
                let t = crate::text::u64_to_string(total as u64);
                String::from_str("all credentials are disabled (").concat(
                    a.as_str(),
                ).concat("/").concat(t.as_str()).concat(")")
            },
            PoolError::CredentialNotFound { id } => {
                let d = crate::text::u64_to_string(id);
                String::from_str("credential not found: ").concat(d.as_str())
            },
            PoolError::MissingAccessToken { id } => {
                let d = crate::text::u64_to_string(id);
                String::from_str("no access token available: ").concat(
                    d.as_str(),
                )
            },
            PoolError::StillExpiredAfterRefresh { id } => {
                let d = crate::text::u64_to_string(id);
                String::from_str(
                    "token still invalid or expired after refresh: ",
                ).concat(d.as_str())
            },
        }
    }
}

/// The double-checked step of getting a token for one credential.
pub enum EnsureStep {
    /// The token is fresh: use this context.
    Ready(CallContext),
    /// The credential needs an upstream refresh; the snapshot to refresh.
    Refresh(KiroCredentials),
    /// The credential cannot yield a token without a refresh result.
    Failed(PoolError),
}

/// One acquire round's progress: how many candidates were tried, out of
/// how many the pool held when the round began.
pub struct AcquireRound {
    /// Candidates tried and failed so far.
    pub tried: usize,
    /// The bound on attempts for this round.
    pub total: usize,
}

/// What an acquire step asks of the caller.
pub enum AcquireStep {
    /// Done: use this context.
    Ready(CallContext),
    /// Refresh this credential upstream, then report the outcome through
    /// [`MultiTokenManager::ensure_token_finish`] or
    /// [`MultiTokenManager::acquire_failed`].
    Refresh {
        /// The selected credential's id.
        id: u64,
        /// The snapshot to refresh.
        credentials: KiroCredentials,
    },
    /// The round is over without a context.
    Failed(PoolError),
}

/// The multi-credential pool manager: the store plus the in-memory pointer
/// to the credential currently preferred for serving. The pointer is 0
/// when nothing is selected; it always names an existing record or 0, and
/// every record that reached the failure threshold is disabled.
pub struct MultiTokenManager {
    db: Database,
    current_id: u64,
}

impl View for MultiTokenManager {
    type V = Seq<CredModel>;

    closed spec fn view(&self) -> Seq<CredModel> {
        self.db@
    }
}

impl MultiTokenManager {
    /// The in-memory current-credential pointer (0 when none).
    pub closed spec fn spec_current(&self) -> u64 {
        self.current_id
    }

    /// The id the next successful insertion will assign; it only moves
    /// forward, so an id is never reused, not even after a delete.
    pub closed spec fn spec_next_id(&self) -> u64 {
        self.db.spec_next_id()
    }

    /// Whether the id counter has run out.
    pub open spec fn id_space_exhausted(&self) -> bool {
        self.spec_next_id() == u64::MAX
    }

    /// Well-formedness: the store is well formed, the current pointer
    /// names an existing record or is 0, and failure counts at the
    /// threshold imply disabled.
    pub closed spec fn wf(&self) -> bool {
        &&& self.db.inv()
        &&& (self.current_id == 0 || has_id(self.db@, self.current_id))
        &&& counts_capped(self.db@)
    }

    /// What well-formedness gives about the pool, for callers.
    pub proof fn lemma_wf_facts(&self)
        requires
            self.wf(),
        ensures
            self.spec_current() == 0 || has_id(self@, self.spec_current()),
            counts_capped(self@),
            crate::db::ids_assigned(self@),
            crate::db::ids_distinct(self@),
            forall|i: int| 0 <= i < self@.len() ==> flag_consistent(#[trigger] self@[i]),
    {
        self.db.lemma_inv_facts();
    }

    /// In a well-formed pool, a record with three or more consecutive
    /// failures is disabled.
    pub proof fn lemma_failure_threshold_disables(&self, i: int)
        requires
            self.wf(),
            0 <= i < self@.len(),
            self@[i].failure_count >= MAX_FAILURES_PER_CREDENTIAL,
        ensures
            self@[i].disabled,
    {
    }

    /// Builds a manager over a store, selecting the highest-priority
    /// enabled credential as current, or none when the pool is empty or
    /// fully disabled.
    pub fn new(db: Database) -> (r: Self)
        requires
            db.inv(),
            counts_capped(db@),
        ensures
            r.wf(),
            r@ == db@,
            r.spec_next_id() == db.spec_next_id(),
            count_enabled(db@) == 0 ==> r.spec_current() == 0,
            count_enabled(db@) > 0 ==> is_best_enabled_id(db@, r.spec_current()),
    {
        let initial: u64 = match db.get_highest_priority_available() {
            Some(c) => {
                proof {
                    db.lemma_inv_facts();
                    let i = choose|i: int|
                        {
                            &&& 0 <= i < db@.len()
                            &&& db@[i] == c@
                            &&& !db@[i].disabled
                            &&& forall|j: int|
                                0 <= j < db@.len() && !(#[trigger] db@[j]).disabled ==> !key_lt(
                                    db@[j],
                                    db@[i],
                                )
                        };
                    assert(db@[i].id is Some);
                    Database::lemma_id_at(db@, db@[i].id.unwrap(), i);
                }
                c.id.unwrap()
            },
            None => 0,
        };
        MultiTokenManager { db, current_id: initial }
    }

    /// The store, read-only.
    pub fn database(&self) -> (r: &Database)
        requires
            self.wf(),
        ensures
            r@ == self@,
            r.inv(),
    {
        &self.db
    }

    /// How many credentials the pool holds.
    pub fn total_count(&self) -> (r: usize)
        ensures
            r == self@.len(),
    {
        self.db.count_credentials()
    }

    /// How many credentials are enabled.
    pub fn available_count(&self) -> (r: usize)
        ensures
            r == count_enabled(self@),
    {
        self.db.count_available()
    }

    /// The current credential's id, 0 when none is selected.
    pub fn current_credential_id(&self) -> (r: u64)
        ensures
            r == self.spec_current(),
    {
        self.current_id
    }

    /// A snapshot of the current credential, or an empty record when none
    /// is selected or the selection no longer exists.
    pub fn credentials(&self) -> (r: KiroCredentials)
        requires
            self.wf(),
        ensures
            has_id(self@, self.spec_current()) ==> r@ == cred_with_id(self@, self.spec_current()),
            !has_id(self@, self.spec_current()) ==> r@ == empty_cred_model(),
    {
        match self.db.get_credential(self.current_id) {
            Some(c) => c,
            None => KiroCredentials::default(),
        }
    }

    /// Resets the credential's consecutive-failure count after a caller
    /// reports a successful API call. Best-effort: an unknown id changes
    /// nothing.
    pub fn report_success(&mut self, id: u64)
        requires
            old(self).wf(),
        ensures
            final(self).wf(),
            final(self).spec_next_id() == old(self).spec_next_id(),
            final(self).spec_current() == old(self).spec_current(),
            has_id(old(self)@, id) ==> final(self)@ == old(self)@.update(
                index_of_id(old(self)@, id),
                with_failure_count_model(cred_with_id(old(self)@, id), 0),
            ),
            !has_id(old(self)@, id) ==> final(self)@ == old(self)@,
    {
        proof {
            old(self).lemma_wf_facts();
        }
        let _ = self.db.reset_failure_count(id);
        proof {
            if has_id(old(self)@, id) {
                let idx = index_of_id(old(self)@, id);
                let c = with_failure_count_model(cred_with_id(old(self)@, id), 0);
                lemma_update_keeps_caps(old(self)@, idx, c);
                lemma_update_keeps_current(old(self)@, idx, c, old(self).spec_current());
            }
        }
    }

    /// Records a caller-reported API-call failure: the credential's
    /// consecutive-failure count goes up by one; at the threshold the
    /// credential is disabled (stamped with `now`) and the pool switches
    /// to the highest-priority enabled credential, if any. Returns whether
    /// any credential is still enabled. Token-refresh failures are never
    /// reported here; only API-call outcomes count.
    pub fn report_failure(&mut self, id: u64, now: i64) -> (r: bool)
        requires
            old(self).wf(),
        ensures
            final(self).wf(),
            final(self).spec_next_id() == old(self).spec_next_id(),
            r == (count_enabled(final(self)@) > 0),
            !has_id(old(self)@, id) ==> final(self)@ == old(self)@ && final(self).spec_current()
                == old(self).spec_current(),
            has_id(old(self)@, id) ==> ({
                let idx = index_of_id(old(self)@, id);
                let c = cred_with_id(old(self)@, id);
                let n = bumped_count(c.failure_count);
                &&& (n < MAX_FAILURES_PER_CREDENTIAL ==> final(self)@ == old(self)@.update(
                    idx,
                    with_failure_count_model(c, n),
                ) && final(self).spec_current() == old(self).spec_current())
                &&& (n >= MAX_FAILURES_PER_CREDENTIAL ==> final(self)@ == old(self)@.update(
                    idx,
                    set_disabled_model(with_failure_count_model(c, n), true, now),
                ) && (count_enabled(final(self)@) > 0 ==> is_best_enabled_id(
                    final(self)@,
                    final(self).spec_current(),
                )) && (count_enabled(final(self)@) == 0 ==> final(self).spec_current() == old(self).spec_current()))
            }),
    {
        proof {
            old(self).lemma_wf_facts();
        }
        let n = match self.db.increment_failure_count(id) {
            Some(n) => n,
            None => {
                let available = self.db.count_available();
                return available > 0;
            },
        };
        proof {
            let idx = index_of_id(old(self)@, id);
            let c = with_failure_count_model(
                cred_with_id(old(self)@, id),
                bumped_count(cred_with_id(old(self)@, id).failure_count),
            );
            lemma_update_keeps_current(old(self)@, idx, c, old(self).spec_current());
            if n < MAX_FAILURES_PER_CREDENTIAL {
                lemma_update_keeps_caps(old(self)@, idx, c);
            }
        }
        if n >= MAX_FAILURES_PER_CREDENTIAL {
            let ghost mid = self@;
            proof {
                self.db.lemma_inv_facts();
            }
            let _ = self.db.set_disabled(id, true, now);
            proof {
                let idx0 = index_of_id(old(self)@, id);
                let bumped = with_failure_count_model(
                    cred_with_id(old(self)@, id),
                    bumped_count(cred_with_id(old(self)@, id).failure_count),
                );
                Database::lemma_id_at(mid, id, idx0);
                assert(self@ =~= old(self)@.update(
                    idx0,
                    set_disabled_model(bumped, true, now),
                ));
                lemma_update_keeps_caps(
                    old(self)@,
                    idx0,
                    set_disabled_model(bumped, true, now),
                );
                lemma_update_keeps_current(
                    old(self)@,
                    idx0,
                    set_disabled_model(bumped, true, now),
                    old(self).spec_current(),
                );
            }
            match self.db.get_highest_priority_available() {
                Some(next) => {
                    proof {
                        self.db.lemma_inv_facts();
                        let i = choose|i: int|
                            {
                                &&& 0 <= i < self@.len()
                                &&& self@[i] == next@
                                &&& !self@[i].disabled
                                &&& forall|j: int|
                                    0 <= j < self@.len() && !(#[trigger] self@[j]).disabled
                                        ==> !key_lt(self@[j], self@[i])
                            };
                        assert(self@[i].id is Some);
                        Database::lemma_id_at(self@, self@[i].id.unwrap(), i);
                    }
                    self.current_id = next.id.unwrap();
                },
                None => {
                    proof {
                        crate::db::lemma_count_where_zero(self@, crate::db::enabled_pred());
                    }
                    return false;
                },
            }
        }
        let available = self.db.count_available();
        available > 0
    }

    /// Re-selects the highest-priority enabled credential as current; with
    /// none enabled the pointer stays. Unlike a switch it does not exclude
    /// the current credential, so a priority change takes effect at once.
    fn select_highest_priority(&mut self)
        requires
            old(self).wf(),
        ensures
            final(self).wf(),
            final(self).spec_next_id() == old(self).spec_next_id(),
            final(self)@ == old(self)@,
            count_enabled(old(self)@) > 0 ==> is_best_enabled_id(
                final(self)@,
                final(self).spec_current(),
            ),
            count_enabled(old(self)@) == 0 ==> final(self).spec_current() == old(self).spec_current(),
    {
        match self.db.get_highest_priority_available() {
            Some(best) => {
                proof {
                    self.db.lemma_inv_facts();
                    let i = choose|i: int|
                        {
                            &&& 0 <= i < self@.len()
                            &&& self@[i] == best@
                            &&& !self@[i].disabled
                            &&& forall|j: int|
                                0 <= j < self@.len() && !(#[trigger] self@[j]).disabled
                                    ==> !key_lt(self@[j], self@[i])
                        };
                    assert(self@[i].id is Some);
                    Database::lemma_id_at(self@, self@[i].id.unwrap(), i);
                }
                self.current_id = best.id.unwrap();
            },
            None => {
                proof {
                    crate::db::lemma_count_where_zero(self@, crate::db::enabled_pred());
                }
            },
        }
    }

    /// Moves the current pointer to the highest-priority enabled
    /// credential other than the current one, when there is one.
    fn switch_to_next_by_priority(&mut self)
        requires
            old(self).wf(),
        ensures
            final(self).wf(),
            final(self).spec_next_id() == old(self).spec_next_id(),
            final(self)@ == old(self)@,
            exists_enabled_excluding(old(self)@, old(self).spec_current())
                ==> is_best_enabled_excluding(
                final(self)@,
                final(self).spec_current(),
                old(self).spec_current(),
            ),
            !exists_enabled_excluding(old(self)@, old(self).spec_current()) ==> final(self).spec_current() == old(self).spec_current(),
    {
        let cur = self.current_id;
        match self.db.get_next_available(cur) {
            Some(next) => {
                proof {
                    self.db.lemma_inv_facts();
                    let i = choose|i: int|
                        {
                            &&& 0 <= i < self@.len()
                            &&& self@[i] == next@
                            &&& !self@[i].disabled
                            &&& self@[i].id != Some(cur)
                            &&& forall|j: int|
                                0 <= j < self@.len() && !(#[trigger] self@[j]).disabled
                                    && self@[j].id != Some(cur) ==> !key_lt(self@[j], self@[i])
                        };
                    assert(self@[i].id is Some);
                    Database::lemma_id_at(self@, self@[i].id.unwrap(), i);
                }
                self.current_id = next.id.unwrap();
            },
            None => {},
        }
    }

    /// Switches to the highest-priority enabled credential other than the
    /// current one. Reports true when a switch happened; with nowhere to
    /// switch, reports whether the current credential itself is usable.
    pub fn switch_to_next(&mut self) -> (r: bool)
        requires
            old(self).wf(),
        ensures
            final(self).wf(),
            final(self).spec_next_id() == old(self).spec_next_id(),
            final(self)@ == old(self)@,
            exists_enabled_excluding(old(self)@, old(self).spec_current()) ==> r
                && is_best_enabled_excluding(
                final(self)@,
                final(self).spec_current(),
                old(self).spec_current(),
            ),
            !exists_enabled_excluding(old(self)@, old(self).spec_current()) ==> final(self).spec_current() == old(self).spec_current() && r == (has_id(
                old(self)@,
                old(self).spec_current(),
            ) && !cred_with_id(old(self)@, old(self).spec_current()).disabled),
    {
        let cur = self.current_id;
        match self.db.get_next_available(cur) {
            Some(next) => {
                proof {
                    self.db.lemma_inv_facts();
                    let i = choose|i: int|
                        {
                            &&& 0 <= i < self@.len()
                            &&& self@[i] == next@
                            &&& !self@[i].disabled
                            &&& self@[i].id != Some(cur)
                            &&& forall|j: int|
                                0 <= j < self@.len() && !(#[trigger] self@[j]).disabled
                                    && self@[j].id != Some(cur) ==> !key_lt(self@[j], self@[i])
                        };
                    assert(self@[i].id is Some);
                    Database::lemma_id_at(self@, self@[i].id.unwrap(), i);
                }
                self.current_id = next.id.unwrap();
                true
            },
            None => {
                match self.db.get_credential(cur) {
                    Some(c) => !c.disabled,
                    None => false,
                }
            },
        }
    }

    /// Sets or clears a credential's disabled flag. Enabling goes through
    /// the atomic reset-and-enable, so the failure count is cleared with
    /// it; disabling stamps the instant. Reports whether a record changed.
    /// The current pointer is not touched; after disabling the current
    /// credential the caller decides whether to switch.
    pub fn set_disabled(&mut self, id: u64, disabled: bool, now: i64) -> (r: bool)
        requires
            old(self).wf(),
        ensures
            final(self).wf(),
            final(self).spec_next_id() == old(self).spec_next_id(),
            final(self).spec_current() == old(self).spec_current(),
            r == has_id(old(self)@, id),
            r && disabled ==> final(self)@ == old(self)@.update(
                index_of_id(old(self)@, id),
                set_disabled_model(cred_with_id(old(self)@, id), true, now),
            ),
            r && !disabled ==> final(self)@ == old(self)@.update(
                index_of_id(old(self)@, id),
                reset_enable_model(cred_with_id(old(self)@, id)),
            ),
            !r ==> final(self)@ == old(self)@,
    {
        proof {
            old(self).lemma_wf_facts();
        }
        let r = if disabled {
            self.db.set_disabled(id, true, now)
        } else {
            self.db.reset_and_enable(id)
        };
        proof {
            if has_id(old(self)@, id) {
                let idx = index_of_id(old(self)@, id);
                let c = if disabled {
                    set_disabled_model(cred_with_id(old(self)@, id), true, now)
                } else {
                    reset_enable_model(cred_with_id(old(self)@, id))
                };
                lemma_update_keeps_caps(old(self)@, idx, c);
                lemma_update_keeps_current(old(self)@, idx, c, old(self).spec_current());
            }
        }
        r
    }

    /// Sets a credential's priority and immediately re-selects the current
    /// credential under the new order. Reports whether a record changed.
    pub fn set_priority(&mut self, id: u64, priority: u32) -> (r: bool)
        requires
            old(self).wf(),
        ensures
            final(self).wf(),
            final(self).spec_next_id() == old(self).spec_next_id(),
            r == has_id(old(self)@, id),
            r ==> final(self)@ == old(self)@.update(
                index_of_id(old(self)@, id),
                with_priority_model(cred_with_id(old(self)@, id), priority),
            ),
            !r ==> final(self)@ == old(self)@,
            count_enabled(final(self)@) > 0 ==> is_best_enabled_id(
                final(self)@,
                final(self).spec_current(),
            ),
            count_enabled(final(self)@) == 0 ==> final(self).spec_current() == old(self).spec_current(),
    {
        proof {
            old(self).lemma_wf_facts();
        }
        let r = self.db.set_priority(id, priority);
        proof {
            if has_id(old(self)@, id) {
                let idx = index_of_id(old(self)@, id);
                let c = with_priority_model(cred_with_id(old(self)@, id), priority);
                lemma_update_keeps_caps(old(self)@, idx, c);
                lemma_update_keeps_current(old(self)@, idx, c, old(self).spec_current());
            }
        }
        self.select_highest_priority();
        r
    }

    /// Atomically resets the credential's failure count and enables it.
    /// Reports whether a record changed.
    pub fn reset_and_enable(&mut self, id: u64) -> (r: bool)
        requires
            old(self).wf(),
        ensures
            final(self).wf(),
            final(self).spec_next_id() == old(self).spec_next_id(),
            final(self).spec_current() == old(self).spec_current(),
            r == has_id(old(self)@, id),
            r ==> final(self)@ == old(self)@.update(
                index_of_id(old(self)@, id),
                reset_enable_model(cred_with_id(old(self)@, id)),
            ),
            !r ==> final(self)@ == old(self)@,
    {
        proof {
            old(self).lemma_wf_facts();
        }
        let r = self.db.reset_and_enable(id);
        proof {
            if has_id(old(self)@, id) {
                let idx = index_of_id(old(self)@, id);
                let c = reset_enable_model(cred_with_id(old(self)@, id));
                lemma_update_keeps_caps(old(self)@, idx, c);
                lemma_update_keeps_current(old(self)@, idx, c, old(self).spec_current());
            }
        }
        r
    }

    /// Writes a fresh balance snapshot into a record, stamping it with
    /// `now`. Reports whether a record changed.
    pub fn update_balance(
        &mut self,
        id: u64,
        subscription_title: Option<&str>,
        current_usage: u64,
        usage_limit: u64,
        next_reset_at: Option<i64>,
        now: i64,
    ) -> (r: bool)
        requires
            old(self).wf(),
        ensures
            final(self).wf(),
            final(self).spec_next_id() == old(self).spec_next_id(),
            final(self).spec_current() == old(self).spec_current(),
            r == has_id(old(self)@, id),
            r ==> final(self)@ == old(self)@.update(
                index_of_id(old(self)@, id),
                crate::db::with_balance_model(
                    cred_with_id(old(self)@, id),
                    subscription_title.deep_view(),
                    current_usage,
                    usage_limit,
                    next_reset_at,
                    now,
                ),
            ),
            !r ==> final(self)@ == old(self)@,
    {
        proof {
            old(self).lemma_wf_facts();
        }
        let r = self.db.update_balance(
            id,
            subscription_title,
            current_usage,
            usage_limit,
            next_reset_at,
            now,
        );
        proof {
            if has_id(old(self)@, id) {
                let idx = index_of_id(old(self)@, id);
                let c = crate::db::with_balance_model(
                    cred_with_id(old(self)@, id),
                    subscription_title.deep_view(),
                    current_usage,
                    usage_limit,
                    next_reset_at,
                    now,
                );
                lemma_update_keeps_caps(old(self)@, idx, c);
                lemma_update_keeps_current(old(self)@, idx, c, old(self).spec_current());
            }
        }
        r
    }

    /// Inserts a new credential; the first credential in an empty pool
    /// becomes current. Returns the assigned id.
    pub fn add_credential(&mut self, cred: KiroCredentials) -> (r: Result<u64, StoreError>)
        requires
            old(self).wf(),
            flag_consistent(cred@),
            cred@.failure_count >= MAX_FAILURES_PER_CREDENTIAL ==> cred@.disabled,
        ensures
            final(self).wf(),
            r is Ok <==> !old(self).id_space_exhausted(),
            r matches Ok(id) ==> {
                &&& id == old(self).spec_next_id()
                &&& final(self).spec_next_id() == id + 1
                &&& final(self)@ == old(self)@.push(with_id_model(cred@, id))
                &&& !has_id(old(self)@, id)
                &&& (old(self)@.len() == 0 ==> final(self).spec_current() == id)
                &&& (old(self)@.len() > 0 ==> final(self).spec_current() == old(self).spec_current())
            },
            r is Err ==> final(self)@ == old(self)@ && final(self).spec_current() == old(self).spec_current()
                && final(self).spec_next_id() == old(self).spec_next_id(),
    {
        proof {
            old(self).lemma_wf_facts();
        }
        let id = match self.db.insert_credential(&cred) {
            Ok(id) => id,
            Err(e) => {
                return Err(e);
            },
        };
        proof {
            let s = old(self)@.push(with_id_model(cred@, id));
            assert forall|k: int|
                0 <= k < s.len() && (#[trigger] s[k]).failure_count
                    >= MAX_FAILURES_PER_CREDENTIAL implies s[k].disabled by {
                if k < old(self)@.len() {
                    assert(s[k] == old(self)@[k]);
                }
            }
            if old(self).spec_current() != 0 {
                let j = choose|j: int|
                    0 <= j < old(self)@.len() && old(self)@[j].id == Some(
                        old(self).spec_current(),
                    );
                assert(s[j].id == Some(old(self).spec_current()));
                assert(has_id(s, old(self).spec_current()));
            }
        }
        if self.db.count_credentials() == 1 {
            proof {
                assert(self@[0].id == Some(id));
                assert(has_id(self@, id));
            }
            self.current_id = id;
        }
        Ok(id)
    }

    /// Deletes a credential. When the deleted one was current, the pool
    /// re-selects the highest-priority enabled credential, or clears the
    /// selection when none is enabled. Reports whether a record was
    /// removed.
    pub fn delete_credential(&mut self, id: u64) -> (r: bool)
        requires
            old(self).wf(),
        ensures
            final(self).wf(),
            final(self).spec_next_id() == old(self).spec_next_id(),
            r == has_id(old(self)@, id),
            !r ==> final(self)@ == old(self)@ && final(self).spec_current() == old(self).spec_current(),
            r ==> final(self)@ == old(self)@.remove(index_of_id(old(self)@, id)) && {
                &&& (old(self).spec_current() != id ==> final(self).spec_current() == old(self).spec_current())
                &&& (old(self).spec_current() == id ==> (count_enabled(final(self)@) > 0
                    ==> is_best_enabled_id(final(self)@, final(self).spec_current())) && (
                count_enabled(final(self)@) == 0 ==> final(self).spec_current() == 0))
            },
    {
        proof {
            old(self).lemma_wf_facts();
        }
        let cur = self.current_id;
        let deleted = self.db.delete_credential(id);
        if !deleted {
            return false;
        }
        proof {
            let idx = index_of_id(old(self)@, id);
            old(self)@.remove_ensures(idx);
            if cur != 0 && cur != id {
                let j = choose|j: int|
                    0 <= j < old(self)@.len() && old(self)@[j].id == Some(cur);
                assert(old(self)@[idx].id == Some(id));
                if j < idx {
                    assert(self@[j] == old(self)@[j]);
                    assert(has_id(self@, cur));
                } else {
                    assert(j != idx);
                    assert(self@[j - 1] == old(self)@[j]);
                    assert(has_id(self@, cur));
                }
            }
            assert forall|k: int|
                0 <= k < self@.len() && (#[trigger] self@[k]).failure_count
                    >= MAX_FAILURES_PER_CREDENTIAL implies self@[k].disabled by {
                if k < idx {
                    assert(self@[k] == old(self)@[k]);
                } else {
                    assert(self@[k] == old(self)@[k + 1]);
                }
            }
        }
        if cur == id {
            match self.db.get_highest_priority_available() {
                Some(best) => {
                    proof {
                        self.db.lemma_inv_facts();
                        let i = choose|i: int|
                            {
                                &&& 0 <= i < self@.len()
                                &&& self@[i] == best@
                                &&& !self@[i].disabled
                                &&& forall|j: int|
                                    0 <= j < self@.len() && !(#[trigger] self@[j]).disabled
                                        ==> !key_lt(self@[j], self@[i])
                            };
                        assert(self@[i].id is Some);
                        Database::lemma_id_at(self@, self@[i].id.unwrap(), i);
                    }
                    self.current_id = best.id.unwrap();
                },
                None => {
                    self.current_id = 0;
                },
            }
        }
        true
    }
}

impl MultiTokenManager {
    /// The double-check read: looks the credential up afresh and decides,
    /// at `now`, whether its token can be used as it stands or an upstream
    /// refresh is needed. The embedding program calls this under its
    /// refresh lock before refreshing, so a refresh another caller already
    /// persisted is reused instead of repeated.
    pub fn ensure_token_check(&self, id: u64, now: i64) -> (r: EnsureStep)
        requires
            self.wf(),
        ensures
            !has_id(self@, id) ==> (r matches EnsureStep::Failed(e) && e
                == (PoolError::CredentialNotFound { id })),
            has_id(self@, id) ==> ({
                let c = cred_with_id(self@, id);
                &&& (spec_needs_refresh(c, now as int) ==> (r matches EnsureStep::Refresh(cred)
                    && cred@ == c))
                &&& ((!spec_needs_refresh(c, now as int) && c.access_token is Some) ==> (
                r matches EnsureStep::Ready(ctx) && ctx.id == id && ctx.credentials@ == c
                    && ctx.token@ == c.access_token.unwrap()))
                &&& ((!spec_needs_refresh(c, now as int) && c.access_token is None) ==> (
                r matches EnsureStep::Failed(e) && e == (PoolError::MissingAccessToken { id })))
            }),
    {
        let cred = match self.db.get_credential(id) {
            Some(c) => c,
            None => {
                return EnsureStep::Failed(PoolError::CredentialNotFound { id });
            },
        };
        if is_token_expired(&cred, now) || is_token_expiring_soon(&cred, now) {
            return EnsureStep::Refresh(cred);
        }
        let token = match &cred.access_token {
            Some(t) => t.clone(),
            None => {
                return EnsureStep::Failed(PoolError::MissingAccessToken { id });
            },
        };
        EnsureStep::Ready(CallContext { id, credentials: cred, token })
    }

    /// Applies a successful upstream refresh to the credential as the
    /// store now holds it, rejects a token that is already expired again,
    /// persists the rest, and builds the context. Success is owed whenever
    /// the response carries a time-to-expiry comfortably past the expired
    /// window (or none at all while the stored expiry is still fresh).
    pub fn ensure_token_finish(&mut self, id: u64, response: RefreshSuccess, now: i64) -> (r:
        Result<CallContext, PoolError>)
        requires
            old(self).wf(),
        ensures
            final(self).wf(),
            final(self).spec_next_id() == old(self).spec_next_id(),
            final(self).spec_current() == old(self).spec_current(),
            !has_id(old(self)@, id) ==> r == Result::<CallContext, PoolError>::Err(
                PoolError::CredentialNotFound { id },
            ) && final(self)@ == old(self)@,
            has_id(old(self)@, id) ==> ({
                let idx = index_of_id(old(self)@, id);
                let c = cred_with_id(old(self)@, id);
                &&& (r matches Err(e) ==> (e == (PoolError::StillExpiredAfterRefresh { id })
                    && final(self)@ == old(self)@))
                &&& (r matches Ok(ctx) ==> ({
                    let a = final(self)@[idx];
                    &&& final(self)@ == old(self)@.update(idx, a)
                    &&& a.access_token == Some(response.access_token@)
                    &&& !spec_is_expired(a, now as int)
                    &&& a.refresh_token == (match response.refresh_token {
                        Some(t) => Some(t@),
                        None => c.refresh_token,
                    })
                    &&& a.profile_arn == (match response.profile_arn {
                        Some(p) => Some(p@),
                        None => c.profile_arn,
                    })
                    &&& (response.expires_in is None ==> a.expires_at == c.expires_at)
                    &&& (response.expires_in matches Some(secs) ==> match a.expires_at {
                        Some(s) => rfc3339_epoch(s) matches Some(t) && t as int == now as int
                            + secs as int,
                        None => !crate::refresh::renderable_epoch_sum(now, secs),
                    })
                    &&& a.id == c.id
                    &&& a.auth_method == c.auth_method
                    &&& a.client_id == c.client_id
                    &&& a.client_secret == c.client_secret
                    &&& a.machine_id == c.machine_id
                    &&& a.priority == c.priority
                    &&& a.disabled == c.disabled
                    &&& a.failure_count == c.failure_count
                    &&& a.disabled_at == c.disabled_at
                    &&& ctx.id == id
                    &&& ctx.credentials@ == a
                    &&& ctx.token@ == response.access_token@
                }))
                &&& ((response.expires_in matches Some(secs)
                    && crate::refresh::renderable_epoch_sum(now, secs) && secs > 300) ==> r
                    is Ok)
                &&& ((response.expires_in is None && !spec_is_expired(c, now as int)) ==> r
                    is Ok)
            }),
    {
        proof {
            old(self).lemma_wf_facts();
        }
        let current = match self.db.get_credential(id) {
            Some(c) => c,
            None => {
                return Err(PoolError::CredentialNotFound { id });
            },
        };
        let new_creds = apply_refresh_response(&current, &response, now);
        if is_token_expired(&new_creds, now) {
            return Err(PoolError::StillExpiredAfterRefresh { id });
        }
        proof {
            assert(cred_with_id(old(self)@, id).id == Some(id)) by {
                let i = index_of_id(old(self)@, id);
            }
        }
        let _ = self.db.update_credential(&new_creds);
        proof {
            let idx = index_of_id(old(self)@, id);
            lemma_update_keeps_caps(old(self)@, idx, new_creds@);
            lemma_update_keeps_current(old(self)@, idx, new_creds@, old(self).spec_current());
        }
        let token = match &new_creds.access_token {
            Some(t) => t.clone(),
            None => {
                proof {
                    assert(false);
                }
                String::new()
            },
        };
        Ok(CallContext { id, credentials: new_creds, token })
    }

    /// One acquire round's attempt loop: selects a credential (falling
    /// back to the highest-priority enabled one when the current selection
    /// is gone or disabled) and decides what the token needs, advancing
    /// through candidates as attempts fail, at most `total` in the round.
    fn acquire_attempt(&mut self, round: &mut AcquireRound, now: i64) -> (r: AcquireStep)
        requires
            old(self).wf(),
            old(round).tried <= old(round).total,
            old(round).total == old(self)@.len(),
        ensures
            final(self).wf(),
            final(self).spec_next_id() == old(self).spec_next_id(),
            final(self)@ == old(self)@,
            final(round).total == old(round).total,
            old(round).tried <= final(round).tried <= final(round).total,
            old(self)@.len() == 0 ==> (r matches AcquireStep::Failed(e) && e matches
                PoolError::NoUsableCredential { available, total } && total == old(round).total
                && available == count_enabled(old(self)@)),
            (count_enabled(old(self)@) == 0 && old(round).tried < old(round).total) ==> (
            r matches AcquireStep::Failed(e) && e matches PoolError::AllDisabled {
                available,
                total,
            } && total == old(round).total && available == 0),
            r matches AcquireStep::Failed(e) ==> (e matches PoolError::NoUsableCredential { .. }
                || e matches PoolError::AllDisabled { .. }),
            r matches AcquireStep::Failed(e) ==> (e matches PoolError::AllDisabled {
                available,
                total,
            } ==> count_enabled(old(self)@) == 0),
            r matches AcquireStep::Failed(e) ==> (e matches PoolError::NoUsableCredential {
                available,
                total,
            } ==> final(round).tried >= final(round).total && total == old(round).total
                && available == count_enabled(old(self)@)),
            (count_enabled(old(self)@) > 0 && tokens_where_fresh(old(self)@, now as int)
                && old(round).tried < old(round).total) ==> !(r matches AcquireStep::Failed(_)),
            r matches AcquireStep::Ready(ctx) ==> ({
                &&& has_id(old(self)@, ctx.id)
                &&& ctx.id == final(self).spec_current()
                &&& !cred_with_id(old(self)@, ctx.id).disabled
                &&& ctx.credentials@ == cred_with_id(old(self)@, ctx.id)
                &&& !spec_needs_refresh(cred_with_id(old(self)@, ctx.id), now as int)
                &&& cred_with_id(old(self)@, ctx.id).access_token is Some
                &&& ctx.token@ == cred_with_id(old(self)@, ctx.id).access_token.unwrap()
            }),
            r matches AcquireStep::Refresh { id, credentials } ==> ({
                &&& has_id(old(self)@, id)
                &&& id == final(self).spec_current()
                &&& !cred_with_id(old(self)@, id).disabled
                &&& credentials@ == cred_with_id(old(self)@, id)
                &&& spec_needs_refresh(cred_with_id(old(self)@, id), now as int)
                &&& final(round).tried < final(round).total
            }),
        decreases old(round).total - old(round).tried,
    {
        proof {
            self.lemma_wf_facts();
        }
        if round.tried >= round.total {
            let available = self.db.count_available();
            return AcquireStep::Failed(
                PoolError::NoUsableCredential { available, total: round.total },
            );
        }
        // select the current credential, or fall back to the best enabled one
        let cur = self.current_id;
        let selected: Option<(u64, KiroCredentials)> = match self.db.get_credential(cur) {
            Some(c) => {
                if !c.disabled {
                    Some((cur, c))
                } else {
                    None
                }
            },
            None => None,
        };
        let (id, cred) = match selected {
            Some(pair) => pair,
            None => {
                match self.db.get_highest_priority_available() {
                    Some(best) => {
                        proof {
                            let i = choose|i: int|
                                {
                                    &&& 0 <= i < self@.len()
                                    &&& self@[i] == best@
                                    &&& !self@[i].disabled
                                    &&& forall|j: int|
                                        0 <= j < self@.len() && !(#[trigger] self@[j]).disabled
                                            ==> !key_lt(self@[j], self@[i])
                                };
                            assert(self@[i].id is Some);
                            Database::lemma_id_at(self@, self@[i].id.unwrap(), i);
                        }
                        let best_id = best.id.unwrap();
                        self.current_id = best_id;
                        (best_id, best)
                    },
                    None => {
                        proof {
                            crate::db::lemma_count_where_zero(
                                self@,
                                crate::db::enabled_pred(),
                            );
                        }
                        let available = self.db.count_available();
                        return AcquireStep::Failed(
                            PoolError::AllDisabled { available, total: round.total },
                        );
                    },
                }
            },
        };
        proof {
            // the selected record is enabled, so the pool is not all-disabled
            assert(has_id(self@, id) && cred@ == cred_with_id(self@, id) && !cred_with_id(
                self@,
                id,
            ).disabled);
            let idx = index_of_id(self@, id);
            crate::db::lemma_count_where_zero(self@, crate::db::enabled_pred());
            assert(crate::db::enabled_pred()(self@[idx]) == !self@[idx].disabled);
            assert(count_enabled(self@) != 0);
        }
        if is_token_expired(&cred, now) || is_token_expiring_soon(&cred, now) {
            return AcquireStep::Refresh { id, credentials: cred };
        }
        match &cred.access_token {
            Some(t) => {
                let token = t.clone();
                AcquireStep::Ready(CallContext { id, credentials: cred, token })
            },
            None => {
                proof {
                    // under full token coverage this branch cannot run: the
                    // selected record is enabled, fresh, and tokenless
                    if tokens_where_fresh(old(self)@, now as int) {
                        let idx = index_of_id(self@, id);
                        assert(!self@[idx].disabled);
                        assert(false);
                    }
                }
                // fresh by its stamp yet without a token: skip this
                // credential and count the attempt, as a failed refresh
                // would be counted
                self.switch_to_next_by_priority();
                round.tried = round.tried + 1;
                self.acquire_attempt(round, now)
            },
        }
    }

    /// Begins an acquire round: runs the opportunistic cool-down recovery
    /// sweep, then selects a credential and decides what its token needs.
    /// An empty pool fails with no-usable-credential; a pool with every
    /// credential disabled (after the sweep) fails with all-disabled.
    pub fn acquire_context(&mut self, now: i64) -> (r: (AcquireRound, AcquireStep))
        requires
            old(self).wf(),
        ensures
            final(self).wf(),
            final(self).spec_next_id() == old(self).spec_next_id(),
            final(self)@ == recover_all_model(
                old(self)@,
                now as int - DISABLED_COOLDOWN_SECONDS as int,
            ),
            r.0.total == final(self)@.len(),
            r.0.tried <= r.0.total,
            old(self)@.len() == 0 ==> (r.1 matches AcquireStep::Failed(e) && e matches
                PoolError::NoUsableCredential { .. }),
            (final(self)@.len() > 0 && count_enabled(final(self)@) == 0) ==> (r.1 matches
                AcquireStep::Failed(e) && e matches PoolError::AllDisabled { .. }),
            r.1 matches AcquireStep::Failed(e) ==> (e matches PoolError::AllDisabled { .. }
                ==> count_enabled(final(self)@) == 0),
            r.1 matches AcquireStep::Failed(e) ==> (e matches PoolError::NoUsableCredential {
                ..
            } ==> r.0.tried >= r.0.total),
            (count_enabled(final(self)@) > 0 && tokens_where_fresh(final(self)@, now as int))
                ==> !(r.1 matches AcquireStep::Failed(_)),
            r.1 matches AcquireStep::Ready(ctx) ==> ({
                &&& has_id(final(self)@, ctx.id)
                &&& ctx.id == final(self).spec_current()
                &&& !cred_with_id(final(self)@, ctx.id).disabled
                &&& ctx.credentials@ == cred_with_id(final(self)@, ctx.id)
                &&& !spec_needs_refresh(cred_with_id(final(self)@, ctx.id), now as int)
                &&& cred_with_id(final(self)@, ctx.id).access_token is Some
                &&& ctx.token@ == cred_with_id(final(self)@, ctx.id).access_token.unwrap()
            }),
            r.1 matches AcquireStep::Refresh { id, credentials } ==> ({
                &&& has_id(final(self)@, id)
                &&& id == final(self).spec_current()
                &&& !cred_with_id(final(self)@, id).disabled
                &&& credentials@ == cred_with_id(final(self)@, id)
                &&& spec_needs_refresh(cred_with_id(final(self)@, id), now as int)
                &&& r.0.tried < r.0.total
            }),
    {
        proof {
            old(self).lemma_wf_facts();
        }
        let _ = self.db.try_recover_disabled(DISABLED_COOLDOWN_SECONDS, now);
        proof {
            let s = recover_all_model(
                old(self)@,
                now as int - DISABLED_COOLDOWN_SECONDS as int,
            );
            assert forall|k: int|
                0 <= k < s.len() && (#[trigger] s[k]).failure_count
                    >= MAX_FAILURES_PER_CREDENTIAL implies s[k].disabled by {
                if !crate::db::recovery_due(
                    old(self)@[k],
                    now as int - DISABLED_COOLDOWN_SECONDS as int,
                ) {
                    assert(s[k] == old(self)@[k]);
                }
            }
            if old(self).spec_current() != 0 {
                let j = choose|j: int|
                    0 <= j < old(self)@.len() && old(self)@[j].id == Some(
                        old(self).spec_current(),
                    );
                assert(s[j].id == Some(old(self).spec_current()));
                assert(has_id(s, old(self).spec_current()));
            }
        }
        let total = self.db.count_credentials();
        proof {
            if self@.len() == 0 {
                assert(count_enabled(self@) == 0);
            }
        }
        let mut round = AcquireRound { tried: 0, total };
        let step = self.acquire_attempt(&mut round, now);
        (round, step)
    }

    /// Reports that the refresh for the credential the round selected
    /// failed (or its result was unusable): the pool advances to the next
    /// enabled credential, counts the attempt, and tries again. Refresh
    /// failures do not touch failure counts; only reported API-call
    /// failures do.
    pub fn acquire_failed(&mut self, round: &mut AcquireRound, now: i64) -> (r: AcquireStep)
        requires
            old(self).wf(),
            old(round).tried < old(round).total,
            old(round).total == old(self)@.len(),
        ensures
            final(self).wf(),
            final(self).spec_next_id() == old(self).spec_next_id(),
            final(self)@ == old(self)@,
            final(round).total == old(round).total,
            final(round).tried <= final(round).total,
            r matches AcquireStep::Failed(e) ==> (e matches PoolError::NoUsableCredential { .. }
                || e matches PoolError::AllDisabled { .. }),
            r matches AcquireStep::Failed(e) ==> (e matches PoolError::AllDisabled { .. }
                ==> count_enabled(old(self)@) == 0),
            r matches AcquireStep::Failed(e) ==> (e matches PoolError::NoUsableCredential { .. }
                ==> final(round).tried >= final(round).total),
            (count_enabled(old(self)@) > 0 && tokens_where_fresh(old(self)@, now as int)
                && old(round).tried + 1 < old(round).total) ==> !(r matches AcquireStep::Failed(
                _,
            )),
            r matches AcquireStep::Ready(ctx) ==> ({
                &&& has_id(old(self)@, ctx.id)
                &&& ctx.id == final(self).spec_current()
                &&& !cred_with_id(old(self)@, ctx.id).disabled
                &&& ctx.credentials@ == cred_with_id(old(self)@, ctx.id)
                &&& !spec_needs_refresh(cred_with_id(old(self)@, ctx.id), now as int)
                &&& cred_with_id(old(self)@, ctx.id).access_token is Some
                &&& ctx.token@ == cred_with_id(old(self)@, ctx.id).access_token.unwrap()
            }),
            r matches AcquireStep::Refresh { id, credentials } ==> ({
                &&& has_id(old(self)@, id)
                &&& id == final(self).spec_current()
                &&& !cred_with_id(old(self)@, id).disabled
                &&& credentials@ == cred_with_id(old(self)@, id)
                &&& spec_needs_refresh(cred_with_id(old(self)@, id), now as int)
                &&& final(round).tried < final(round).total
            }),
    {
        self.switch_to_next_by_priority();
        round.tried = round.tried + 1;
        self.acquire_attempt(round, now)
    }
}

/// One credential's health and identity, as the admin surface reads it.
pub struct CredentialEntrySnapshot {
    /// The credential's id (0 for a record that somehow has none).
    pub id: u64,
    /// Selection priority; lower is served first.
    pub priority: u32,
    /// Whether the credential is excluded from selection.
    pub disabled: bool,
    /// Consecutive reported API-call failures.
    pub failure_count: u32,
    /// The refresh protocol selector.
    pub auth_method: Option<String>,
    /// Whether the credential carries a profile ARN.
    pub has_profile_arn: bool,
    /// The access token's expiry, RFC 3339.
    pub expires_at: Option<String>,
    /// The configured fingerprint override, if any.
    pub machine_id: Option<String>,
}

/// The pool as the admin surface reads it: the entries in selection
/// order, the current selection, and the counts.
pub struct ManagerSnapshot {
    /// One entry per credential, ordered by ascending priority then id.
    pub entries: Vec<CredentialEntrySnapshot>,
    /// The current credential's id, 0 when none.
    pub current_id: u64,
    /// How many credentials the pool holds.
    pub total: usize,
    /// How many are enabled.
    pub available: usize,
}

/// The entry is the given record's projection.
pub open spec fn entry_matches(e: CredentialEntrySnapshot, c: CredModel) -> bool {
    &&& e.id == (match c.id {
        Some(v) => v,
        None => 0u64,
    })
    &&& e.priority == c.priority
    &&& e.disabled == c.disabled
    &&& e.failure_count == c.failure_count
    &&& e.auth_method.deep_view() == c.auth_method
    &&& e.has_profile_arn == (c.profile_arn is Some)
    &&& e.expires_at.deep_view() == c.expires_at
    &&& e.machine_id.deep_view() == c.machine_id
}

/// The entry projects some record of the pool.
pub open spec fn matches_some_record(s: Seq<CredModel>, e: CredentialEntrySnapshot) -> bool {
    exists|j: int| 0 <= j < s.len() && entry_matches(e, #[trigger] s[j])
}

/// Some entry projects the given record.
pub open spec fn snapshot_has_record(
    es: Seq<CredentialEntrySnapshot>,
    c: CredModel,
) -> bool {
    exists|k: int| 0 <= k < es.len() && entry_matches(#[trigger] es[k], c)
}

/// Selection order on snapshot entries.
pub open spec fn entry_key_lt(a: CredentialEntrySnapshot, b: CredentialEntrySnapshot) -> bool {
    a.priority < b.priority || (a.priority == b.priority && a.id < b.id)
}

impl MultiTokenManager {
    /// A read-only snapshot of the pool for admin display: every
    /// credential's health in selection order, the current id, and the
    /// counts. An empty pool yields no entries, a zero current id, and
    /// zero counts.
    pub fn snapshot(&self) -> (r: ManagerSnapshot)
        requires
            self.wf(),
        ensures
            r.total == self@.len(),
            r.available == count_enabled(self@),
            r.current_id == self.spec_current(),
            self@.len() == 0 ==> r.current_id == 0,
            r.entries@.len() == self@.len(),
            forall|k: int|
                0 <= k < r.entries@.len() ==> #[trigger] matches_some_record(
                    self@,
                    r.entries@[k],
                ),
            forall|j: int|
                0 <= j < self@.len() ==> #[trigger] snapshot_has_record(r.entries@, self@[j]),
            forall|a: int, b: int|
                0 <= a < b < r.entries@.len() ==> entry_key_lt(
                    #[trigger] r.entries@[a],
                    #[trigger] r.entries@[b],
                ),
    {
        proof {
            self.lemma_wf_facts();
        }
        let rows = self.db.load_credentials();
        let available = self.db.count_available();
        let total = self.db.count_credentials();
        let n = rows.len();
        proof {
            assert(rows.deep_view().len() == n);
        }
        let mut entries: Vec<CredentialEntrySnapshot> = Vec::new();
        let mut i: usize = 0;
        while i < n
            invariant
                n == rows.deep_view().len(),
                n == rows@.len(),
                i <= n,
                entries@.len() == i,
                forall|k: int|
                    0 <= k < i ==> entry_matches(
                        #[trigger] entries@[k],
                        rows.deep_view()[k],
                    ),
            decreases n - i,
        {
            let row = &rows[i];
            let id = match row.id {
                Some(v) => v,
                None => 0,
            };
            let entry = CredentialEntrySnapshot {
                id,
                priority: row.priority,
                disabled: row.disabled,
                failure_count: row.failure_count,
                auth_method: crate::credentials::clone_opt_string(&row.auth_method),
                has_profile_arn: row.profile_arn.is_some(),
                expires_at: crate::credentials::clone_opt_string(&row.expires_at),
                machine_id: crate::credentials::clone_opt_string(&row.machine_id),
            };
            proof {
                assert(rows.deep_view()[i as int] == rows@[i as int]@);
                assert(entry_matches(entry, rows.deep_view()[i as int]));
            }
            entries.push(entry);
            i += 1;
        }
        proof {
            let dv = rows.deep_view();
            assert forall|k: int| 0 <= k < entries@.len() implies #[trigger] matches_some_record(
                self@,
                entries@[k],
            ) by {
                assert(entry_matches(entries@[k], dv[k]));
                assert(crate::db::appears(self@, dv[k]));
                let j = choose|j: int| 0 <= j < self@.len() && self@[j] == dv[k];
                assert(entry_matches(entries@[k], self@[j]));
            }
            assert forall|j: int| 0 <= j < self@.len() implies #[trigger] snapshot_has_record(
                entries@,
                self@[j],
            ) by {
                assert(crate::db::appears(dv, self@[j]));
                let k = choose|k: int| 0 <= k < dv.len() && dv[k] == self@[j];
                assert(entry_matches(entries@[k], self@[j]));
            }
            assert forall|a: int, b: int| 0 <= a < b < entries@.len() implies entry_key_lt(
                #[trigger] entries@[a],
                #[trigger] entries@[b],
            ) by {
                assert(crate::db::sorted_by_key(dv));
                assert(key_lt(dv[a], dv[b]));
                assert(crate::db::appears(self@, dv[a]));
                let ja = choose|j: int| 0 <= j < self@.len() && self@[j] == dv[a];
                assert(crate::db::appears(self@, dv[b]));
                let jb = choose|j: int| 0 <= j < self@.len() && self@[j] == dv[b];
                assert(dv[a].id is Some);
                assert(dv[b].id is Some);
                assert(entry_matches(entries@[a], dv[a]));
                assert(entry_matches(entries@[b], dv[b]));
            }
        }
        ManagerSnapshot { entries, current_id: self.current_id, total, available }
    }
}

/// Once a refresh has persisted a token whose expiry lies more than ten
/// minutes past `now`, a double-check at `now` finds the credential
/// fresh: by [`MultiTokenManager::ensure_token_check`]'s contract it hands
/// the stored token out instead of asking for another refresh, so
/// concurrent callers that waited on the refresh lock reuse the one
/// refresh.
pub proof fn lemma_refresh_deduplicated(s: Seq<CredModel>, id: u64, now: i64)
    requires
        has_id(s, id),
        cred_with_id(s, id).expires_at matches Some(e) && rfc3339_epoch(e) matches Some(t) && (
        t as int) > now as int + 600,
    ensures
        !spec_needs_refresh(cred_with_id(s, id), now as int),
{
}

/// A failure count after `k` consecutive bumps from `n0`.
pub open spec fn bumped_n(n0: u32, k: nat) -> u32
    decreases k,
{
    if k == 0 {
        n0
    } else {
        bumped_count(bumped_n(n0, (k - 1) as nat))
    }
}

/// Failure accounting is exact: `k` consecutive failure reports with no
/// intervening success or reset leave the count at exactly `k`. Each
/// report applies one [`bumped_count`] to the record's count (by
/// [`MultiTokenManager::report_failure`]'s contract), and from zero those
/// compose to `k` for any count the counter can hold.
pub proof fn lemma_consecutive_failures_count(k: nat)
    requires
        k <= u32::MAX,
    ensures
        bumped_n(0, k) == k,
    decreases k,
{
    if k > 0 {
        lemma_consecutive_failures_count((k - 1) as nat);
    }
}

/// Updating one record with one that carries the same id keeps every id in
/// place, so a current pointer that named a record still does.
proof fn lemma_update_keeps_current(s: Seq<CredModel>, i: int, c: CredModel, cur: u64)
    requires
        0 <= i < s.len(),
        c.id == s[i].id,
        cur == 0 || has_id(s, cur),
    ensures
        cur == 0 || has_id(s.update(i, c), cur),
{
    if cur != 0 {
        let j = choose|j: int| 0 <= j < s.len() && s[j].id == Some(cur);
        assert(s.update(i, c)[j].id == Some(cur));
        assert(has_id(s.update(i, c), cur));
    }
}

/// Updating one record with one that respects the failure cap keeps the
/// whole pool capped.
proof fn lemma_update_keeps_caps(s: Seq<CredModel>, i: int, c: CredModel)
    requires
        0 <= i < s.len(),
        counts_capped(s),
        c.failure_count >= MAX_FAILURES_PER_CREDENTIAL ==> c.disabled,
    ensures
        counts_capped(s.update(i, c)),
{
    assert forall|k: int|
        0 <= k < s.update(i, c).len() && (#[trigger] s.update(i, c)[k]).failure_count
            >= MAX_FAILURES_PER_CREDENTIAL implies s.update(i, c)[k].disabled by {
        if k != i {
            assert(s.update(i, c)[k] == s[k]);
        }
    }
}

} // verus!
