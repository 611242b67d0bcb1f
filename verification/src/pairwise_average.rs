//! The pairwise-average policy: each submission is averaged with the
//! existing record, with integer division truncating toward zero.
//!
//! The guard is deliberate and narrower than presence: the existing record
//! takes part in the average only when it is strictly greater than zero. A
//! stored value of zero or below is treated as if the account had never
//! submitted, so the next submission overwrites it — an anomaly preserved
//! from the observed behaviour, not corrected. The read transform is the
//! identity; an account that never submitted reads as `0`.

use vstd::prelude::*;
use vstd::map::*;
use crate::store::AccountStore;
use crate::store::stored;

verus! {

/// The value returned for an account that never submitted.
pub open spec fn pairwise_default() -> int {
    0
}

/// The guard of the pairwise policy, named deliberately: an existing record
/// takes part in the average only when it is strictly positive.
pub open spec fn pairwise_existing_counts(existing: int) -> bool {
    existing > 0
}

/// Division by two truncating toward zero: `15` for `30`, `15` for `31`,
/// `-15` for `-31` — not floor division, not rounding to nearest.
pub open spec fn div2_toward_zero(a: int) -> int {
    if a >= 0 {
        a / 2
    } else {
        -((-a) / 2)
    }
}

/// How a submission combines with the existing record: the average of the
/// two, truncated toward zero, when the existing record is present and
/// strictly positive; the incoming value alone otherwise.
pub open spec fn pairwise_combine(existing: Option<int>, incoming: int) -> int {
    match existing {
        Some(e) => if pairwise_existing_counts(e) {
            div2_toward_zero(e + incoming)
        } else {
            incoming
        },
        None => incoming,
    }
}

/// What a query of account `k` returns over ledger contents `m`: the stored
/// value unchanged, or the default when the account never submitted.
pub open spec fn pairwise_query(m: Map<Seq<char>, int>, k: Seq<char>) -> int {
    if m.contains_key(k) {
        m[k]
    } else {
        pairwise_default()
    }
}

/// The contents of an integer store, seen as a map of mathematical integers.
spec fn int_view(m: Map<Seq<char>, i32>) -> Map<Seq<char>, int> {
    Map::new(|k: Seq<char>| m.contains_key(k), |k: Seq<char>| m[k] as int)
}

proof fn lemma_int_view_insert(m: Map<Seq<char>, i32>, k: Seq<char>, v: i32)
    ensures
        int_view(m.insert(k, v)) == int_view(m).insert(k, v as int),
{
    assert_maps_equal!(int_view(m.insert(k, v)), int_view(m).insert(k, v as int), kk => {
        if kk == k {
            assert(int_view(m.insert(k, v))[kk] == v as int);
        }
    });
}

/// The average of two machine integers, truncated toward zero. The sum is
/// formed at a wider width, so no input can overflow it.
fn average_toward_zero(a: i32, b: i32) -> (r: i32)
    ensures
        r as int == div2_toward_zero(a as int + b as int),
{
    let sum: i64 = (a as i64) + (b as i64);
    if sum >= 0 {
        let mag: u64 = sum as u64;
        let half: u64 = mag / 2;
        half as i32
    } else {
        let mag: u64 = (-sum) as u64;
        let half: u64 = mag / 2;
        let neg: i64 = -(half as i64);
        neg as i32
    }
}

/// A ledger under the pairwise-average policy.
pub struct PairwiseAverageLedger {
    store: AccountStore<i32>,
}

impl View for PairwiseAverageLedger {
    type V = Map<Seq<char>, int>;

    closed spec fn view(&self) -> Map<Seq<char>, int> {
        int_view(self.store@)
    }
}

impl PairwiseAverageLedger {
    /// Well-formedness of the underlying store.
    pub closed spec fn inv(&self) -> bool {
        self.store.inv()
    }

    /// A fresh ledger with a record for no account.
    pub fn new() -> (l: Self)
        ensures
            l.inv(),
            l@ == Map::<Seq<char>, int>::empty(),
    {
        let l = PairwiseAverageLedger { store: AccountStore::new() };
        proof {
            assert(l@ =~= Map::<Seq<char>, int>::empty());
        }
        l
    }

    /// Records a submission: the account's record becomes the combination of
    /// the existing record and the incoming value. Every other account is
    /// untouched.
    pub fn submit(&mut self, account_id: String, value: i32)
        requires
            old(self).inv(),
        ensures
            final(self).inv(),
            final(self)@ == old(self)@.insert(
                account_id@,
                pairwise_combine(stored(old(self)@, account_id@), value as int),
            ),
    {
        let ghost m0 = self.store@;
        let ghost k = account_id@;
        let existing: Option<i32> = match self.store.get(&account_id) {
            Some(v) => Some(*v),
            None => None,
        };
        let record: i32 = match existing {
            Some(e) => if e > 0 {
                average_toward_zero(e, value)
            } else {
                value
            },
            None => value,
        };
        self.store.put(account_id, record);
        proof {
            lemma_int_view_insert(m0, k, record);
            assert(record as int == pairwise_combine(stored(int_view(m0), k), value as int));
        }
    }

    /// Reads the account's current record, or the default `0` when the
    /// account never submitted. Never mutates the ledger.
    pub fn query(&self, account_id: String) -> (r: i32)
        requires
            self.inv(),
        ensures
            r as int == pairwise_query(self@, account_id@),
    {
        match self.store.get(&account_id) {
            Some(v) => *v,
            None => 0,
        }
    }
}

/// A query right after a submission returns the freshly combined record:
/// the incoming value alone on a first submission, the truncated average
/// when the existing record was strictly positive.
pub proof fn lemma_pairwise_submit_then_query(m: Map<Seq<char>, int>, a: Seq<char>, v: int)
    ensures
        pairwise_query(m.insert(a, pairwise_combine(stored(m, a), v)), a) == pairwise_combine(
            stored(m, a),
            v,
        ),
{
}

/// An account that never submitted reads as the declared default.
pub proof fn lemma_pairwise_unsubmitted_default(m: Map<Seq<char>, int>, k: Seq<char>)
    requires
        !m.contains_key(k),
    ensures
        pairwise_query(m, k) == pairwise_default(),
{
}

/// The anomaly of the pairwise policy, stated on its own: a stored value of
/// zero or below does not count, so the next submission overwrites it.
pub proof fn lemma_nonpositive_existing_resets(existing: int, incoming: int)
    requires
        !pairwise_existing_counts(existing),
    ensures
        pairwise_combine(Some(existing), incoming) == incoming,
{
}

/// Isolation at the query level: a submission recorded for account `a`
/// leaves what a query of any other account `b` returns unchanged.
pub proof fn lemma_pairwise_query_isolation(
    m: Map<Seq<char>, int>,
    a: Seq<char>,
    r: int,
    b: Seq<char>,
)
    requires
        a != b,
    ensures
        pairwise_query(m.insert(a, r), b) == pairwise_query(m, b),
{
}

} // verus!
