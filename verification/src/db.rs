//! The credential store: the sole owner of persisted pool state.
//!
//! The store keeps the records in insertion order (ids strictly increasing)
//! and assigns ids from a counter that never goes back, so an id is never
//! reused. Loading the pool yields the records ordered by ascending
//! priority, ties broken by ascending id. Persistence to disk is the
//! embedding program's concern; it mirrors this structure through the same
//! operations.

use vstd::prelude::*;
use vstd::pervasive::VecAdditionalExecFns;
use vstd::string::StringExecFns;

use crate::credentials::{flag_consistent, CredModel, KiroCredentials};

verus! {

/// Some record in `s` carries the id.
pub open spec fn has_id(s: Seq<CredModel>, id: u64) -> bool {
    exists|i: int| 0 <= i < s.len() && s[i].id == Some(id)
}

/// The index of the record carrying the id (well defined when ids are
/// distinct and the id is present).
pub open spec fn index_of_id(s: Seq<CredModel>, id: u64) -> int {
    choose|i: int| 0 <= i < s.len() && s[i].id == Some(id)
}

/// The record carrying the id.
pub open spec fn cred_with_id(s: Seq<CredModel>, id: u64) -> CredModel {
    s[index_of_id(s, id)]
}

/// No two records carry the same id.
pub open spec fn ids_distinct(s: Seq<CredModel>) -> bool {
    forall|i: int, j: int| 0 <= i < j < s.len() ==> s[i].id != s[j].id
}

/// Every record carries an id.
pub open spec fn ids_assigned(s: Seq<CredModel>) -> bool {
    forall|i: int| 0 <= i < s.len() ==> (#[trigger] s[i].id) is Some
}

/// Selection order: lower priority value first, ties broken by lower id.
pub open spec fn key_lt(a: CredModel, b: CredModel) -> bool {
    a.priority < b.priority || (a.priority == b.priority && a.id.unwrap() < b.id.unwrap())
}

/// Strictly ordered by `key_lt`.
pub open spec fn sorted_by_key(s: Seq<CredModel>) -> bool {
    forall|i: int, j: int| 0 <= i < j < s.len() ==> key_lt(s[i], s[j])
}

/// How many records of `s` satisfy `p`.
pub open spec fn count_where(s: Seq<CredModel>, p: spec_fn(CredModel) -> bool) -> nat
    decreases s.len(),
{
    if s.len() == 0 {
        0
    } else {
        count_where(s.drop_last(), p) + if p(s.last()) {
            1nat
        } else {
            0nat
        }
    }
}

/// Being enabled, as a predicate on records.
pub open spec fn enabled_pred() -> spec_fn(CredModel) -> bool {
    |c: CredModel| !c.disabled
}

/// How many records are enabled.
pub open spec fn count_enabled(s: Seq<CredModel>) -> nat {
    count_where(s, enabled_pred())
}

/// The record occurs somewhere in the sequence.
pub open spec fn appears(s: Seq<CredModel>, c: CredModel) -> bool {
    exists|k: int| 0 <= k < s.len() && s[k] == c
}

/// The record occurs among the first `bound` entries of the sequence.
spec fn from_prefix(s: Seq<CredModel>, bound: int, c: CredModel) -> bool {
    exists|j: int| 0 <= j < bound && s[j] == c
}

/// Selection order is transitive.
pub proof fn lemma_key_lt_trans(a: CredModel, b: CredModel, c: CredModel)
    requires
        key_lt(a, b),
        key_lt(b, c),
    ensures
        key_lt(a, c),
{
}

/// Every record satisfying the predicate makes the count the full length.
pub proof fn lemma_count_where_all(s: Seq<CredModel>, p: spec_fn(CredModel) -> bool)
    requires
        forall|k: int| 0 <= k < s.len() ==> p(#[trigger] s[k]),
    ensures
        count_where(s, p) == s.len(),
    decreases s.len(),
{
    if s.len() > 0 {
        let dl = s.drop_last();
        assert(forall|k: int| 0 <= k < dl.len() ==> #[trigger] dl[k] == s[k]);
        lemma_count_where_all(dl, p);
        assert(p(s[s.len() - 1]));
    }
}

/// Having a key before `c`'s, as a predicate on records.
pub open spec fn key_lt_pred(c: CredModel) -> spec_fn(CredModel) -> bool {
    |x: CredModel| key_lt(x, c)
}

/// In a sequence sorted by selection order, a record's position is exactly
/// the number of records whose key comes before its own: the position its
/// priority and id imply.
pub proof fn lemma_sorted_position(s: Seq<CredModel>, i: int)
    requires
        sorted_by_key(s),
        0 <= i < s.len(),
    ensures
        count_where(s, key_lt_pred(s[i])) == i,
{
    lemma_sorted_position_same_target(s, i, s[i]);
}

/// Helper for [`lemma_sorted_position`]: the same claim with the target
/// record held fixed while the sequence shrinks.
proof fn lemma_sorted_position_same_target(s: Seq<CredModel>, i: int, c: CredModel)
    requires
        sorted_by_key(s),
        0 <= i < s.len(),
        s[i] == c,
    ensures
        count_where(s, key_lt_pred(c)) == i,
    decreases s.len(),
{
    let p = key_lt_pred(c);
    let dl = s.drop_last();
    assert(forall|k: int| 0 <= k < dl.len() ==> #[trigger] dl[k] == s[k]);
    if i == s.len() - 1 {
        assert(forall|k: int| 0 <= k < dl.len() ==> p(#[trigger] dl[k]));
        lemma_count_where_all(dl, p);
        assert(!key_lt(c, c));
        assert(!p(s.last()));
    } else {
        assert(key_lt(s[i], s.last()));
        assert(!key_lt(s.last(), s[i]));
        assert(!p(s.last()));
        assert(sorted_by_key(dl));
        lemma_sorted_position_same_target(dl, i, c);
    }
}

/// Inserting a record and then looking up the assigned id yields the
/// inserted record, the assigned id aside.
pub proof fn lemma_insert_get_round_trip(pre: Seq<CredModel>, c: CredModel, id: u64)
    requires
        !has_id(pre, id),
    ensures
        has_id(pre.push(with_id_model(c, id)), id),
        cred_with_id(pre.push(with_id_model(c, id)), id) == with_id_model(c, id),
{
    let s = pre.push(with_id_model(c, id));
    assert(s[pre.len() as int] == with_id_model(c, id));
    assert(s[pre.len() as int].id == Some(id));
    assert(has_id(s, id));
    let i = index_of_id(s, id);
    if i < pre.len() {
        assert(pre[i] == s[i]);
        assert(has_id(pre, id));
    }
}

pub proof fn lemma_count_where_take_step(s: Seq<CredModel>, p: spec_fn(CredModel) -> bool, i: int)
    requires
        0 <= i < s.len(),
    ensures
        count_where(s.take(i + 1), p) == count_where(s.take(i), p) + if p(s[i]) {
            1nat
        } else {
            0nat
        },
{
    assert(s.take(i + 1).drop_last() =~= s.take(i));
    assert(s.take(i + 1).last() == s[i]);
}

pub proof fn lemma_count_where_full(s: Seq<CredModel>, p: spec_fn(CredModel) -> bool)
    ensures
        count_where(s.take(s.len() as int), p) == count_where(s, p),
{
    assert(s.take(s.len() as int) =~= s);
}

/// The count is zero exactly when no record satisfies the predicate.
pub proof fn lemma_count_where_zero(s: Seq<CredModel>, p: spec_fn(CredModel) -> bool)
    ensures
        (count_where(s, p) == 0) <==> (forall|i: int| 0 <= i < s.len() ==> !p(#[trigger] s[i])),
    decreases s.len(),
{
    if s.len() > 0 {
        let dl = s.drop_last();
        lemma_count_where_zero(dl, p);
        if count_where(s, p) == 0 {
            assert forall|i: int| 0 <= i < s.len() implies !p(#[trigger] s[i]) by {
                if i < s.len() - 1 {
                    assert(!p(dl[i]));
                    assert(dl[i] == s[i]);
                } else {
                    assert(s[i] == s.last());
                }
            }
        } else {
            if p(s.last()) {
                assert(p(s[s.len() - 1]));
            } else {
                assert(count_where(dl, p) != 0);
                assert(exists|i: int| 0 <= i < dl.len() && p(#[trigger] dl[i]));
                let i = choose|i: int| 0 <= i < dl.len() && p(#[trigger] dl[i]);
                assert(dl[i] == s[i]);
                assert(p(s[i]));
            }
        }
    }
}

/// A record with id assigned, as the store holds it after insertion.
pub open spec fn with_id_model(c: CredModel, id: u64) -> CredModel {
    CredModel { id: Some(id), ..c }
}

/// A record with its disabled flag set or cleared: disabling stamps
/// `disabled_at` with the given instant, enabling clears the stamp. The
/// failure count is not touched.
pub open spec fn set_disabled_model(c: CredModel, disabled: bool, now: i64) -> CredModel {
    if disabled {
        CredModel { disabled: true, disabled_at: Some(now), ..c }
    } else {
        CredModel { disabled: false, disabled_at: None, ..c }
    }
}

/// A record with a new priority.
pub open spec fn with_priority_model(c: CredModel, priority: u32) -> CredModel {
    CredModel { priority, ..c }
}

/// A record with a new failure count.
pub open spec fn with_failure_count_model(c: CredModel, failure_count: u32) -> CredModel {
    CredModel { failure_count, ..c }
}

/// A record reset and enabled: failure count zero, enabled, stamp cleared.
pub open spec fn reset_enable_model(c: CredModel) -> CredModel {
    CredModel { failure_count: 0, disabled: false, disabled_at: None, ..c }
}

/// A record with a new machine id.
pub open spec fn with_machine_id_model(c: CredModel, machine_id: Option<Seq<char>>) -> CredModel {
    CredModel { machine_id, ..c }
}

/// A record with a fresh balance snapshot, stamped at `now`.
pub open spec fn with_balance_model(
    c: CredModel,
    subscription_title: Option<Seq<char>>,
    current_usage: u64,
    usage_limit: u64,
    next_reset_at: Option<i64>,
    now: i64,
) -> CredModel {
    CredModel {
        subscription_title,
        current_usage,
        usage_limit,
        next_reset_at,
        balance_updated_at: Some(now),
        ..c
    }
}

/// A failure count bumped by one; it pins at the largest representable
/// value rather than wrap (in a live pool three failures already disable
/// the credential).
pub open spec fn bumped_count(n: u32) -> u32 {
    if n < u32::MAX {
        (n + 1) as u32
    } else {
        u32::MAX
    }
}

/// Whether a record is due for cool-down recovery at the given cutoff: it
/// is disabled and was disabled strictly before the cutoff instant.
pub open spec fn recovery_due(c: CredModel, cutoff: int) -> bool {
    c.disabled && match c.disabled_at {
        Some(t) => (t as int) < cutoff,
        None => false,
    }
}

/// Recovery eligibility at a fixed cutoff, as a predicate on records.
pub open spec fn recovery_due_at(cutoff: int) -> spec_fn(CredModel) -> bool {
    |c: CredModel| recovery_due(c, cutoff)
}

/// The pool after a recovery sweep with the given cutoff: every record due
/// for recovery is reset and enabled, every other record is untouched.
pub open spec fn recover_all_model(s: Seq<CredModel>, cutoff: int) -> Seq<CredModel> {
    Seq::new(s.len(), |i: int| if recovery_due(s[i], cutoff) {
        reset_enable_model(s[i])
    } else {
        s[i]
    })
}

/// Why a store operation could not be carried out.
#[derive(Clone, Copy, Debug, PartialEq, Eq, Structural)]
pub enum StoreError {
    /// The record handed to a full-row update carries no id.
    MissingId,
    /// The id counter has run out; no fresh id can be assigned.
    IdSpaceExhausted,
}

/// Selection order on two records with assigned ids.
fn key_lt_exec(a: &KiroCredentials, b: &KiroCredentials) -> (r: bool)
    requires
        a@.id is Some,
        b@.id is Some,
    ensures
        r == key_lt(a@, b@),
{
    a.priority < b.priority || (a.priority == b.priority && a.id.unwrap() < b.id.unwrap())
}

/// The position at which a record joins a key-sorted sequence: past every
/// record with a smaller key.
fn insert_position(out: &Vec<KiroCredentials>, c: &KiroCredentials) -> (p: usize)
    requires
        forall|k: int| 0 <= k < out.deep_view().len() ==> (#[trigger] out.deep_view()[k]).id
            is Some,
        c@.id is Some,
    ensures
        p <= out.deep_view().len(),
        forall|q: int| 0 <= q < p ==> key_lt(#[trigger] out.deep_view()[q], c@),
        p < out.deep_view().len() ==> !key_lt(out.deep_view()[p as int], c@),
{
    let n = out.len();
    let mut p: usize = 0;
    while p < n
        invariant
            n == out.deep_view().len(),
            p <= n,
            c@.id is Some,
            forall|k: int| 0 <= k < n ==> (#[trigger] out.deep_view()[k]).id is Some,
            forall|q: int| 0 <= q < p ==> key_lt(#[trigger] out.deep_view()[q], c@),
        decreases n - p,
    {
        proof {
            assert(out.deep_view()[p as int] == out@[p as int]@);
        }
        if !key_lt_exec(&out[p], c) {
            return p;
        }
        p += 1;
    }
    p
}

/// The store: records in insertion order plus the next id to assign.
pub struct Database {
    rows: Vec<KiroCredentials>,
    next_id: u64,
}

impl View for Database {
    type V = Seq<CredModel>;

    closed spec fn view(&self) -> Seq<CredModel> {
        self.rows.deep_view()
    }
}

impl Database {
    /// Well-formedness: ids are assigned, strictly increasing (hence
    /// distinct and below the next id to assign), and each record's
    /// disabled flag agrees with its disabled-at stamp.
    pub closed spec fn inv(&self) -> bool {
        &&& ids_assigned(self@)
        &&& (forall|i: int, j: int|
            0 <= i < j < self@.len() ==> self@[i].id.unwrap() < self@[j].id.unwrap())
        &&& (forall|i: int|
            0 <= i < self@.len() ==> (#[trigger] self@[i].id).unwrap() < self.next_id)
        &&& (forall|i: int| 0 <= i < self@.len() ==> (#[trigger] self@[i].id).unwrap() >= 1)
        &&& self.next_id >= 1
        &&& (forall|i: int| 0 <= i < self@.len() ==> flag_consistent(#[trigger] self@[i]))
    }

    /// In a well-formed store a record's disabled flag and its disabled-at
    /// stamp always agree: disabled exactly when the stamp is present.
    pub proof fn lemma_disabled_iff_stamped(&self, i: int)
        requires
            self.inv(),
            0 <= i < self@.len(),
        ensures
            self@[i].disabled <==> self@[i].disabled_at is Some,
    {
    }

    /// The facts the invariant gives about the records, for callers.
    pub proof fn lemma_inv_facts(&self)
        requires
            self.inv(),
        ensures
            ids_assigned(self@),
            ids_distinct(self@),
            forall|i: int| 0 <= i < self@.len() ==> (#[trigger] self@[i].id).unwrap() >= 1,
            forall|i: int| 0 <= i < self@.len() ==> flag_consistent(#[trigger] self@[i]),
    {
        assert forall|i: int, j: int| 0 <= i < j < self@.len() implies self@[i].id != self@[j].id
        by {
            assert(self@[i].id.unwrap() < self@[j].id.unwrap());
        }
    }

    /// A fresh, empty store.
    pub fn new() -> (r: Self)
        ensures
            r.inv(),
            r@.len() == 0,
            r.spec_next_id() == 1,
    {
        let r = Database { rows: Vec::new(), next_id: 1 };
        proof {
            assert(r@ =~= Seq::<CredModel>::empty());
        }
        r
    }

    /// With distinct ids, any position carrying the id is the position
    /// `index_of_id` denotes, and the record there is the record looked up.
    pub proof fn lemma_id_at(s: Seq<CredModel>, id: u64, i: int)
        requires
            ids_distinct(s),
            0 <= i < s.len(),
            s[i].id == Some(id),
        ensures
            index_of_id(s, id) == i,
            has_id(s, id),
            cred_with_id(s, id) == s[i],
    {
        assert(has_id(s, id));
        let j = index_of_id(s, id);
        if i != j {
            if i < j {
                assert(s[i].id != s[j].id);
            } else {
                assert(s[j].id != s[i].id);
            }
        }
    }

    /// The position of the record carrying `id`, if any.
    fn find_index(&self, id: u64) -> (r: Option<usize>)
        requires
            self.inv(),
        ensures
            match r {
                Some(i) => i < self@.len() && self@[i as int].id == Some(id) && i as int
                    == index_of_id(self@, id),
                None => !has_id(self@, id),
            },
    {
        proof {
            self.lemma_inv_facts();
        }
        let n = self.rows.len();
        let mut i: usize = 0;
        while i < n
            invariant
                n == self@.len(),
                self.inv(),
                i <= n,
                forall|k: int| 0 <= k < i ==> (#[trigger] self@[k]).id != Some(id),
            decreases n - i,
        {
            proof {
                assert(self@[i as int].id is Some);
            }
            let row_id = self.rows[i].id.unwrap();
            if row_id == id {
                proof {
                    self.lemma_inv_facts();
                    Self::lemma_id_at(self@, id, i as int);
                }
                return Some(i);
            }
            i += 1;
        }
        None
    }

    /// Looks a credential up by id, returning a snapshot.
    pub fn get_credential(&self, id: u64) -> (r: Option<KiroCredentials>)
        requires
            self.inv(),
        ensures
            r is Some <==> has_id(self@, id),
            r matches Some(c) ==> c@ == cred_with_id(self@, id),
    {
        match self.find_index(id) {
            Some(i) => Some(self.rows[i].clone()),
            None => None,
        }
    }

    /// How many credentials the store holds.
    pub fn count_credentials(&self) -> (r: usize)
        ensures
            r == self@.len(),
    {
        self.rows.len()
    }

    /// The id the next successful insertion will assign. It only moves
    /// forward, and only by insertion, so an id is never reused - not even
    /// after the record carrying it is deleted.
    pub closed spec fn spec_next_id(&self) -> u64 {
        self.next_id
    }

    /// Whether the id counter has run out. It would take nearly 2^64
    /// insertions in one store's lifetime to get here.
    pub open spec fn id_space_exhausted(&self) -> bool {
        self.spec_next_id() == u64::MAX
    }

    /// Inserts a new credential and returns the assigned id, which is
    /// larger than every id already in the store and never reused.
    pub fn insert_credential(&mut self, cred: &KiroCredentials) -> (r: Result<u64, StoreError>)
        requires
            old(self).inv(),
            flag_consistent(cred@),
        ensures
            final(self).inv(),
            r is Ok <==> !old(self).id_space_exhausted(),
            r matches Err(e) ==> e == StoreError::IdSpaceExhausted && final(self)@ == old(self)@
                && final(self).spec_next_id() == old(self).spec_next_id(),
            r matches Ok(id) ==> {
                &&& id == old(self).spec_next_id()
                &&& final(self).spec_next_id() == id + 1
                &&& final(self)@ == old(self)@.push(with_id_model(cred@, id))
                &&& !has_id(old(self)@, id)
                &&& id >= 1
                &&& forall|i: int|
                    0 <= i < old(self)@.len() ==> (#[trigger] old(self)@[i]).id.unwrap() < id
            },
    {
        if self.next_id == u64::MAX {
            return Err(StoreError::IdSpaceExhausted);
        }
        let id = self.next_id;
        let mut c = cred.clone();
        c.id = Some(id);
        proof {
            assert(c@ == with_id_model(cred@, id));
            assert(!has_id(self@, id)) by {
                if has_id(self@, id) {
                    let i = index_of_id(self@, id);
                    assert(self@[i].id.unwrap() < self.next_id);
                }
            }
        }
        self.rows.push(c);
        self.next_id = id + 1;
        proof {
            assert(self@ =~= old(self)@.push(with_id_model(cred@, id)));
        }
        Ok(id)
    }

    /// Removes the credential with the given id; reports whether a record
    /// was removed.
    pub fn delete_credential(&mut self, id: u64) -> (r: bool)
        requires
            old(self).inv(),
        ensures
            final(self).inv(),
            final(self).spec_next_id() == old(self).spec_next_id(),
            r == has_id(old(self)@, id),
            r ==> final(self)@ == old(self)@.remove(index_of_id(old(self)@, id)),
            !r ==> final(self)@ == old(self)@,
    {
        match self.find_index(id) {
            Some(i) => {
                self.rows.remove(i);
                proof {
                    assert(self@ =~= old(self)@.remove(index_of_id(old(self)@, id)));
                }
                true
            },
            None => false,
        }
    }

    /// Replaces the record at a known position with one carrying the same id.
    fn replace_row(&mut self, i: usize, c: KiroCredentials)
        requires
            old(self).inv(),
            i < old(self)@.len(),
            c@.id == old(self)@[i as int].id,
            flag_consistent(c@),
        ensures
            final(self).inv(),
            final(self).spec_next_id() == old(self).spec_next_id(),
            final(self)@ == old(self)@.update(i as int, c@),
    {
        self.rows.set(i, c);
        proof {
            assert(self@ =~= old(self)@.update(i as int, c@));
        }
    }

    /// Full-row replace by id: every field of the stored record is taken
    /// from the given snapshot. Fails when the snapshot carries no id;
    /// reports false when no record carries the id.
    pub fn update_credential(&mut self, cred: &KiroCredentials) -> (r: Result<bool, StoreError>)
        requires
            old(self).inv(),
            flag_consistent(cred@),
        ensures
            final(self).inv(),
            final(self).spec_next_id() == old(self).spec_next_id(),
            cred@.id is None ==> r == Result::<bool, StoreError>::Err(StoreError::MissingId)
                && final(self)@ == old(self)@,
            cred@.id matches Some(id) ==> {
                &&& r == Result::<bool, StoreError>::Ok(has_id(old(self)@, id))
                &&& has_id(old(self)@, id) ==> final(self)@ == old(self)@.update(
                    index_of_id(old(self)@, id),
                    cred@,
                )
                &&& !has_id(old(self)@, id) ==> final(self)@ == old(self)@
            },
    {
        let id = match cred.id {
            Some(id) => id,
            None => {
                return Err(StoreError::MissingId);
            },
        };
        match self.find_index(id) {
            Some(i) => {
                self.replace_row(i, cred.clone());
                Ok(true)
            },
            None => Ok(false),
        }
    }

    /// Writes a fresh balance snapshot into the record, stamping
    /// `balance_updated_at` with `now`; reports whether a record changed.
    pub fn update_balance(
        &mut self,
        id: u64,
        subscription_title: Option<&str>,
        current_usage: u64,
        usage_limit: u64,
        next_reset_at: Option<i64>,
        now: i64,
    ) -> (r: bool)
        requires
            old(self).inv(),
        ensures
            final(self).inv(),
            final(self).spec_next_id() == old(self).spec_next_id(),
            r == has_id(old(self)@, id),
            r ==> final(self)@ == old(self)@.update(
                index_of_id(old(self)@, id),
                with_balance_model(
                    cred_with_id(old(self)@, id),
                    subscription_title.deep_view(),
                    current_usage,
                    usage_limit,
                    next_reset_at,
                    now,
                ),
            ),
            !r ==> final(self)@ == old(self)@,
    {
        match self.find_index(id) {
            Some(i) => {
                let mut c = self.rows[i].clone();
                c.subscription_title = match subscription_title {
                    Some(t) => Some(t.to_owned()),
                    None => None,
                };
                c.current_usage = current_usage;
                c.usage_limit = usage_limit;
                c.next_reset_at = next_reset_at;
                c.balance_updated_at = Some(now);
                self.replace_row(i, c);
                true
            },
            None => false,
        }
    }

    /// Sets or clears the disabled flag. Disabling stamps `disabled_at`
    /// with `now`; enabling clears it. The failure count is not touched.
    pub fn set_disabled(&mut self, id: u64, disabled: bool, now: i64) -> (r: bool)
        requires
            old(self).inv(),
        ensures
            final(self).inv(),
            final(self).spec_next_id() == old(self).spec_next_id(),
            r == has_id(old(self)@, id),
            r ==> final(self)@ == old(self)@.update(
                index_of_id(old(self)@, id),
                set_disabled_model(cred_with_id(old(self)@, id), disabled, now),
            ),
            !r ==> final(self)@ == old(self)@,
    {
        match self.find_index(id) {
            Some(i) => {
                let mut c = self.rows[i].clone();
                c.disabled = disabled;
                c.disabled_at = if disabled {
                    Some(now)
                } else {
                    None
                };
                self.replace_row(i, c);
                true
            },
            None => false,
        }
    }

    /// Sets the record's priority; reports whether a record changed.
    pub fn set_priority(&mut self, id: u64, priority: u32) -> (r: bool)
        requires
            old(self).inv(),
        ensures
            final(self).inv(),
            final(self).spec_next_id() == old(self).spec_next_id(),
            r == has_id(old(self)@, id),
            r ==> final(self)@ == old(self)@.update(
                index_of_id(old(self)@, id),
                with_priority_model(cred_with_id(old(self)@, id), priority),
            ),
            !r ==> final(self)@ == old(self)@,
    {
        match self.find_index(id) {
            Some(i) => {
                let mut c = self.rows[i].clone();
                c.priority = priority;
                self.replace_row(i, c);
                true
            },
            None => false,
        }
    }

    /// Bumps the record's consecutive-failure count by one and returns the
    /// new count, or `None` when no record carries the id.
    pub fn increment_failure_count(&mut self, id: u64) -> (r: Option<u32>)
        requires
            old(self).inv(),
        ensures
            final(self).inv(),
            final(self).spec_next_id() == old(self).spec_next_id(),
            r is Some <==> has_id(old(self)@, id),
            r matches Some(n) ==> {
                &&& n == bumped_count(cred_with_id(old(self)@, id).failure_count)
                &&& final(self)@ == old(self)@.update(
                    index_of_id(old(self)@, id),
                    with_failure_count_model(cred_with_id(old(self)@, id), n),
                )
            },
            r is None ==> final(self)@ == old(self)@,
    {
        match self.find_index(id) {
            Some(i) => {
                let mut c = self.rows[i].clone();
                let n = if c.failure_count < u32::MAX {
                    c.failure_count + 1
                } else {
                    u32::MAX
                };
                c.failure_count = n;
                self.replace_row(i, c);
                Some(n)
            },
            None => None,
        }
    }

    /// Resets the record's consecutive-failure count to zero; reports
    /// whether a record changed.
    pub fn reset_failure_count(&mut self, id: u64) -> (r: bool)
        requires
            old(self).inv(),
        ensures
            final(self).inv(),
            final(self).spec_next_id() == old(self).spec_next_id(),
            r == has_id(old(self)@, id),
            r ==> final(self)@ == old(self)@.update(
                index_of_id(old(self)@, id),
                with_failure_count_model(cred_with_id(old(self)@, id), 0),
            ),
            !r ==> final(self)@ == old(self)@,
    {
        match self.find_index(id) {
            Some(i) => {
                let mut c = self.rows[i].clone();
                c.failure_count = 0;
                self.replace_row(i, c);
                true
            },
            None => false,
        }
    }

    /// Atomically resets the failure count to zero, enables the record and
    /// clears its disabled-at stamp; reports whether a record changed.
    pub fn reset_and_enable(&mut self, id: u64) -> (r: bool)
        requires
            old(self).inv(),
        ensures
            final(self).inv(),
            final(self).spec_next_id() == old(self).spec_next_id(),
            r == has_id(old(self)@, id),
            r ==> final(self)@ == old(self)@.update(
                index_of_id(old(self)@, id),
                reset_enable_model(cred_with_id(old(self)@, id)),
            ),
            !r ==> final(self)@ == old(self)@,
    {
        match self.find_index(id) {
            Some(i) => {
                let mut c = self.rows[i].clone();
                c.failure_count = 0;
                c.disabled = false;
                c.disabled_at = None;
                self.replace_row(i, c);
                true
            },
            None => false,
        }
    }

    /// Sets or clears the record's machine id; reports whether a record
    /// changed.
    pub fn set_machine_id(&mut self, id: u64, machine_id: Option<&str>) -> (r: bool)
        requires
            old(self).inv(),
        ensures
            final(self).inv(),
            final(self).spec_next_id() == old(self).spec_next_id(),
            r == has_id(old(self)@, id),
            r ==> final(self)@ == old(self)@.update(
                index_of_id(old(self)@, id),
                with_machine_id_model(cred_with_id(old(self)@, id), machine_id.deep_view()),
            ),
            !r ==> final(self)@ == old(self)@,
    {
        match self.find_index(id) {
            Some(i) => {
                let mut c = self.rows[i].clone();
                c.machine_id = match machine_id {
                    Some(m) => Some(m.to_owned()),
                    None => None,
                };
                self.replace_row(i, c);
                true
            },
            None => false,
        }
    }

    /// Cool-down recovery sweep: every record disabled strictly before
    /// `now - cooldown_seconds` is reset and enabled; every other record is
    /// untouched. Returns how many records were recovered.
    pub fn try_recover_disabled(&mut self, cooldown_seconds: i64, now: i64) -> (r: usize)
        requires
            old(self).inv(),
        ensures
            final(self).inv(),
            final(self).spec_next_id() == old(self).spec_next_id(),
            final(self)@ == recover_all_model(
                old(self)@,
                now as int - cooldown_seconds as int,
            ),
            r == count_where(
                old(self)@,
                recovery_due_at(now as int - cooldown_seconds as int),
            ),
    {
        let ghost cutoff: int = now as int - cooldown_seconds as int;
        let ghost due = recovery_due_at(cutoff);
        let n = self.rows.len();
        let mut i: usize = 0;
        let mut recovered: usize = 0;
        while i < n
            invariant
                cutoff == now as int - cooldown_seconds as int,
                due == recovery_due_at(cutoff),
                self.inv(),
                self.spec_next_id() == old(self).spec_next_id(),
                n == self@.len(),
                old(self)@.len() == n,
                i <= n,
                recovered <= i,
                forall|k: int|
                    0 <= k < i ==> #[trigger] self@[k] == (if recovery_due(
                        old(self)@[k],
                        cutoff,
                    ) {
                        reset_enable_model(old(self)@[k])
                    } else {
                        old(self)@[k]
                    }),
                forall|k: int| i <= k < n ==> #[trigger] self@[k] == old(self)@[k],
                recovered == count_where(old(self)@.take(i as int), due),
            decreases n - i,
        {
            proof {
                lemma_count_where_take_step(old(self)@, due, i as int);
            }
            let row = &self.rows[i];
            let due_now = row.disabled && match row.disabled_at {
                Some(t) => (t as i128) < (now as i128) - (cooldown_seconds as i128),
                None => false,
            };
            proof {
                assert(self@[i as int] == old(self)@[i as int]);
                assert(due_now == recovery_due(old(self)@[i as int], cutoff));
                assert(due(old(self)@[i as int]) == recovery_due(old(self)@[i as int], cutoff));
            }
            if due_now {
                let mut c = self.rows[i].clone();
                c.failure_count = 0;
                c.disabled = false;
                c.disabled_at = None;
                proof {
                    assert(c@ == reset_enable_model(old(self)@[i as int]));
                }
                self.replace_row(i, c);
                recovered += 1;
            }
            i += 1;
        }
        proof {
            lemma_count_where_full(old(self)@, due);
            assert(self@ =~= recover_all_model(old(self)@, cutoff));
        }
        recovered
    }

    /// How many credentials are enabled.
    pub fn count_available(&self) -> (r: usize)
        ensures
            r == count_enabled(self@),
    {
        let ghost p = enabled_pred();
        let n = self.rows.len();
        let mut i: usize = 0;
        let mut count: usize = 0;
        while i < n
            invariant
                p == enabled_pred(),
                n == self@.len(),
                i <= n,
                count <= i,
                count == count_where(self@.take(i as int), p),
            decreases n - i,
        {
            proof {
                lemma_count_where_take_step(self@, p, i as int);
            }
            if !self.rows[i].disabled {
                count += 1;
            }
            i += 1;
        }
        proof {
            lemma_count_where_full(self@, p);
        }
        count
    }

    /// The enabled credential first in selection order (lowest priority
    /// value, ties broken by lowest id), or `None` when every credential is
    /// disabled or the store is empty.
    pub fn get_highest_priority_available(&self) -> (r: Option<KiroCredentials>)
        requires
            self.inv(),
        ensures
            r is Some <==> count_enabled(self@) > 0,
            r matches Some(c) ==> exists|i: int|
                {
                    &&& 0 <= i < self@.len()
                    &&& #[trigger] self@[i] == c@
                    &&& !self@[i].disabled
                    &&& forall|j: int|
                        0 <= j < self@.len() && !(#[trigger] self@[j]).disabled ==> !key_lt(
                            self@[j],
                            self@[i],
                        )
                },
    {
        let r = self.select_best(None);
        proof {
            lemma_count_where_zero(self@, enabled_pred());
        }
        r
    }

    /// The enabled credential first in selection order among those not
    /// carrying the excluded id, or `None` when there is none.
    pub fn get_next_available(&self, exclude_id: u64) -> (r: Option<KiroCredentials>)
        requires
            self.inv(),
        ensures
            r is None <==> (forall|j: int|
                0 <= j < self@.len() ==> ((#[trigger] self@[j]).disabled || self@[j].id
                    == Some(exclude_id))),
            r matches Some(c) ==> exists|i: int|
                {
                    &&& 0 <= i < self@.len()
                    &&& #[trigger] self@[i] == c@
                    &&& !self@[i].disabled
                    &&& self@[i].id != Some(exclude_id)
                    &&& forall|j: int|
                        0 <= j < self@.len() && !(#[trigger] self@[j]).disabled && self@[j].id
                            != Some(exclude_id) ==> !key_lt(self@[j], self@[i])
                },
    {
        self.select_best(Some(exclude_id))
    }

    /// Selection workhorse: the enabled record first in `key_lt` order,
    /// skipping the excluded id if one is given.
    fn select_best(&self, exclude_id: Option<u64>) -> (r: Option<KiroCredentials>)
        requires
            self.inv(),
        ensures
            r is None <==> (forall|j: int|
                0 <= j < self@.len() ==> ((#[trigger] self@[j]).disabled || (exclude_id matches
                    Some(ex) && self@[j].id == Some(ex)))),
            r matches Some(c) ==> exists|i: int|
                {
                    &&& 0 <= i < self@.len()
                    &&& #[trigger] self@[i] == c@
                    &&& !self@[i].disabled
                    &&& (exclude_id matches Some(ex) ==> self@[i].id != Some(ex))
                    &&& forall|j: int|
                        0 <= j < self@.len() && !(#[trigger] self@[j]).disabled && (exclude_id
                            matches Some(ex) ==> self@[j].id != Some(ex)) ==> !key_lt(
                            self@[j],
                            self@[i],
                        )
                },
    {
        proof {
            self.lemma_inv_facts();
        }
        let n = self.rows.len();
        let mut best: Option<usize> = None;
        let mut i: usize = 0;
        while i < n
            invariant
                self.inv(),
                n == self@.len(),
                i <= n,
                match best {
                    Some(b) => {
                        &&& b < i
                        &&& !self@[b as int].disabled
                        &&& (exclude_id matches Some(ex) ==> self@[b as int].id != Some(ex))
                        &&& forall|j: int|
                            0 <= j < i && !(#[trigger] self@[j]).disabled && (exclude_id matches
                                Some(ex) ==> self@[j].id != Some(ex)) ==> !key_lt(
                                self@[j],
                                self@[b as int],
                            )
                    },
                    None => forall|j: int|
                        0 <= j < i ==> ((#[trigger] self@[j]).disabled || (exclude_id matches
                            Some(ex) && self@[j].id == Some(ex))),
                },
            decreases n - i,
        {
            proof {
                assert(self@[i as int].id is Some);
            }
            let row = &self.rows[i];
            let excluded = match exclude_id {
                Some(ex) => row.id.unwrap() == ex,
                None => false,
            };
            if !row.disabled && !excluded {
                match best {
                    Some(b) => {
                        proof {
                            assert(self@[b as int].id is Some);
                        }
                        if key_lt_exec(&self.rows[i], &self.rows[b]) {
                            best = Some(i);
                        }
                    },
                    None => {
                        best = Some(i);
                    },
                }
            }
            i += 1;
        }
        match best {
            Some(b) => Some(self.rows[b].clone()),
            None => None,
        }
    }

    /// All credentials as snapshots, ordered by ascending priority, ties
    /// broken by ascending id: a permutation of the store in selection
    /// order.
    pub fn load_credentials(&self) -> (r: Vec<KiroCredentials>)
        requires
            self.inv(),
        ensures
            r.deep_view().len() == self@.len(),
            sorted_by_key(r.deep_view()),
            forall|k: int|
                0 <= k < r.deep_view().len() ==> #[trigger] appears(self@, r.deep_view()[k]),
            forall|j: int| 0 <= j < self@.len() ==> #[trigger] appears(r.deep_view(), self@[j]),
    {
        proof {
            self.lemma_inv_facts();
        }
        let n = self.rows.len();
        let mut out: Vec<KiroCredentials> = Vec::new();
        proof {
            assert(out.deep_view() =~= Seq::<CredModel>::empty());
        }
        let mut idx: usize = 0;
        while idx < n
            invariant
                self.inv(),
                n == self@.len(),
                idx <= n,
                out.deep_view().len() == idx,
                sorted_by_key(out.deep_view()),
                forall|k: int|
                    0 <= k < idx ==> #[trigger] from_prefix(
                        self@,
                        idx as int,
                        out.deep_view()[k],
                    ),
                forall|j: int| 0 <= j < idx ==> #[trigger] appears(out.deep_view(), self@[j]),
            decreases n - idx,
        {
            proof {
                assert(self@[idx as int].id is Some);
                assert forall|k: int| 0 <= k < idx implies (#[trigger] out.deep_view()[k]).id
                    is Some by {
                    assert(from_prefix(self@, idx as int, out.deep_view()[k]));
                    let j = choose|j: int| 0 <= j < idx && self@[j] == out.deep_view()[k];
                    assert(self@[j].id is Some);
                }
            }
            let c = self.rows[idx].clone();
            let p = insert_position(&out, &c);
            let ghost pre = out.deep_view();
            proof {
                // the record's id differs from every id already placed, so
                // its key differs too and the insertion point is strict
                assert forall|k: int| 0 <= k < pre.len() implies (#[trigger] pre[k]).id != c@.id
                    by {
                    assert(from_prefix(self@, idx as int, pre[k]));
                    let j = choose|j: int| 0 <= j < idx && self@[j] == pre[k];
                    assert(self@[j].id.unwrap() < self@[idx as int].id.unwrap());
                }
                if (p as int) < pre.len() {
                    assert(key_lt(c@, pre[p as int])) by {
                        assert(!key_lt(pre[p as int], c@));
                        assert(pre[p as int].id != c@.id);
                    }
                }
            }
            out.insert(p, c);
            proof {
                let post = out.deep_view();
                assert(post =~= pre.insert(p as int, c@));
                pre.insert_ensures(p as int, c@);
                assert forall|a: int, b: int| 0 <= a < b < post.len() implies key_lt(
                    post[a],
                    post[b],
                ) by {
                    if b < p {
                        assert(key_lt(pre[a], pre[b]));
                    } else if a < p && b == p {
                        assert(key_lt(pre[a], c@));
                    } else if a < p && b > p {
                        assert(key_lt(pre[a], pre[b - 1]));
                    } else if a == p && b > p {
                        assert(key_lt(c@, pre[p as int]));
                        if b - 1 > p {
                            lemma_key_lt_trans(c@, pre[p as int], pre[b - 1]);
                        }
                    } else {
                        assert(key_lt(pre[a - 1], pre[b - 1]));
                    }
                }
                assert forall|k: int| 0 <= k < idx + 1 implies #[trigger] from_prefix(
                    self@,
                    idx as int + 1,
                    post[k],
                ) by {
                    if k < p {
                        assert(from_prefix(self@, idx as int, pre[k]));
                        let j = choose|j: int| 0 <= j < idx && self@[j] == pre[k];
                        assert(self@[j] == post[k]);
                    } else if k == p {
                        assert(self@[idx as int] == post[k]);
                    } else {
                        assert(from_prefix(self@, idx as int, pre[k - 1]));
                        let j = choose|j: int| 0 <= j < idx && self@[j] == pre[k - 1];
                        assert(self@[j] == post[k]);
                    }
                }
                assert forall|j: int| 0 <= j < idx + 1 implies #[trigger] appears(
                    post,
                    self@[j],
                ) by {
                    if j == idx {
                        assert(post[p as int] == self@[idx as int]);
                    } else {
                        assert(appears(pre, self@[j]));
                        let k = choose|k: int| 0 <= k < pre.len() && pre[k] == self@[j];
                        if k < p {
                            assert(post[k] == self@[j]);
                        } else {
                            assert(post[k + 1] == self@[j]);
                        }
                    }
                }
            }
            idx += 1;
        }
        proof {
            assert forall|k: int| 0 <= k < out.deep_view().len() implies #[trigger] appears(
                self@,
                out.deep_view()[k],
            ) by {
                assert(from_prefix(self@, n as int, out.deep_view()[k]));
                let j = choose|j: int| 0 <= j < n && self@[j] == out.deep_view()[k];
            }
        }
        out
    }

    /// Whether some record carries this client id.
    pub fn client_id_exists(&self, client_id: &str) -> (r: bool)
        ensures
            r == exists|i: int|
                0 <= i < self@.len() && (#[trigger] self@[i]).client_id == Some(client_id@),
    {
        let needle = String::from_str(client_id);
        let n = self.rows.len();
        let mut i: usize = 0;
        while i < n
            invariant
                needle@ == client_id@,
                n == self@.len(),
                i <= n,
                forall|k: int| 0 <= k < i ==> (#[trigger] self@[k]).client_id != Some(client_id@),
            decreases n - i,
        {
            let hit = match &self.rows[i].client_id {
                Some(cid) => needle.eq(cid),
                None => false,
            };
            if hit {
                proof {
                    assert(self@[i as int].client_id == Some(client_id@));
                }
                return true;
            }
            i += 1;
        }
        false
    }
}

} // verus!
