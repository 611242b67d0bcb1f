//! The account store: a durable mapping from account identifier to one
//! aggregate record.
//!
//! The store is pure storage and knows nothing of any combination policy.
//! It offers exactly `get` and `put`; records are never deleted, and a `put`
//! replaces the whole record. Its contents are modelled as a
//! `Map<Seq<char>, T>` from account identifier to record.

use vstd::prelude::*;
use vstd::map::*;

verus! {

/// What the ledger holds for account `k`: the record, or `None` when the
/// account has never submitted.
pub open spec fn stored<T>(m: Map<Seq<char>, T>, k: Seq<char>) -> Option<T> {
    if m.contains_key(k) {
        Some(m[k])
    } else {
        None
    }
}

/// Isolation: recording a submission for account `a` leaves every other
/// account's record unchanged, so no later query of account `b` can see it.
pub proof fn lemma_submit_isolation<T>(m: Map<Seq<char>, T>, a: Seq<char>, v: T, b: Seq<char>)
    requires
        a != b,
    ensures
        stored(m.insert(a, v), b) == stored(m, b),
{
}

/// A record, once created, is never deleted: recording a submission can only
/// add or replace a record, never remove one.
pub proof fn lemma_records_never_deleted<T>(m: Map<Seq<char>, T>, a: Seq<char>, v: T, b: Seq<char>)
    requires
        m.contains_key(b),
    ensures
        m.insert(a, v).contains_key(b),
{
}

/// Each account identifier occurs in at most one entry.
spec fn unique_keys<T>(entries: Seq<(String, T)>) -> bool {
    forall|i: int, j: int|
        0 <= i < j < entries.len() ==> entries[i].0@ != entries[j].0@
}

/// The mapping that a sequence of entries stands for; a later entry for the
/// same identifier would win, though well-formed stores never hold two.
spec fn map_of<T>(entries: Seq<(String, T)>) -> Map<Seq<char>, T>
    decreases entries.len(),
{
    if entries.len() == 0 {
        Map::empty()
    } else {
        map_of(entries.drop_last()).insert(entries.last().0@, entries.last().1)
    }
}

proof fn lemma_map_of_contains<T>(entries: Seq<(String, T)>, k: Seq<char>)
    ensures
        map_of(entries).contains_key(k) <==> (exists|i: int|
            0 <= i < entries.len() && entries[i].0@ == k),
    decreases entries.len(),
{
    if entries.len() == 0 {
        assert(!map_of(entries).contains_key(k));
    } else {
        let prefix = entries.drop_last();
        lemma_map_of_contains(prefix, k);
        assert(forall|i: int| 0 <= i < prefix.len() ==> prefix[i] == entries[i]);
        let last = entries.len() - 1;
        if entries[last].0@ == k {
            assert(map_of(entries).contains_key(k));
        } else {
            if map_of(entries).contains_key(k) {
                let i = choose|i: int| 0 <= i < prefix.len() && prefix[i].0@ == k;
                assert(entries[i].0@ == k);
            }
            if exists|i: int| 0 <= i < entries.len() && entries[i].0@ == k {
                let i = choose|i: int| 0 <= i < entries.len() && entries[i].0@ == k;
                assert(i < last);
                assert(prefix[i].0@ == k);
            }
        }
    }
}

proof fn lemma_map_of_index<T>(entries: Seq<(String, T)>, i: int)
    requires
        unique_keys(entries),
        0 <= i < entries.len(),
    ensures
        map_of(entries).contains_key(entries[i].0@),
        map_of(entries)[entries[i].0@] == entries[i].1,
    decreases entries.len(),
{
    let last = entries.len() - 1;
    if i < last {
        let prefix = entries.drop_last();
        assert(forall|a: int| 0 <= a < prefix.len() ==> prefix[a] == entries[a]);
        assert(unique_keys(prefix));
        lemma_map_of_index(prefix, i);
        assert(entries[i].0@ != entries[last].0@);
    }
}

proof fn lemma_map_of_update<T>(entries: Seq<(String, T)>, i: int, p: (String, T))
    requires
        unique_keys(entries),
        0 <= i < entries.len(),
        p.0@ == entries[i].0@,
    ensures
        unique_keys(entries.update(i, p)),
        map_of(entries.update(i, p)) == map_of(entries).insert(p.0@, p.1),
{
    let e2 = entries.update(i, p);
    assert(forall|j: int| 0 <= j < entries.len() ==> e2[j].0@ == entries[j].0@);
    assert(unique_keys(e2));
    let m1 = map_of(e2);
    let m2 = map_of(entries).insert(p.0@, p.1);
    assert_maps_equal!(m1, m2, k => {
        lemma_map_of_contains(e2, k);
        lemma_map_of_contains(entries, k);
        if m1.contains_key(k) {
            let j = choose|j: int| 0 <= j < e2.len() && e2[j].0@ == k;
            lemma_map_of_index(e2, j);
            if k == p.0@ {
                if j != i {
                    assert(entries[j].0@ == entries[i].0@);
                    assert(false);
                }
                assert(m1[k] == p.1);
            } else {
                assert(j != i);
                assert(e2[j] == entries[j]);
                lemma_map_of_index(entries, j);
                assert(m1[k] == entries[j].1);
                assert(m2[k] == entries[j].1);
            }
        }
        if m2.contains_key(k) {
            if k == p.0@ {
                assert(e2[i].0@ == k);
            } else {
                let j = choose|j: int| 0 <= j < entries.len() && entries[j].0@ == k;
                assert(e2[j].0@ == k);
            }
        }
    });
}

proof fn lemma_map_of_push<T>(entries: Seq<(String, T)>, p: (String, T))
    requires
        unique_keys(entries),
        forall|j: int| 0 <= j < entries.len() ==> entries[j].0@ != p.0@,
    ensures
        unique_keys(entries.push(p)),
        map_of(entries.push(p)) == map_of(entries).insert(p.0@, p.1),
{
    let e2 = entries.push(p);
    assert(forall|j: int| 0 <= j < entries.len() ==> e2[j] == entries[j]);
    assert(e2[entries.len() as int] == p);
    assert(unique_keys(e2));
    assert(e2.drop_last() =~= entries);
    assert(e2.last() == p);
}

/// A durable mapping from account identifier to one aggregate record.
///
/// One record exists per account that has ever submitted; `put` overwrites
/// the whole record, and nothing deletes or enumerates entries.
pub struct AccountStore<T> {
    entries: Vec<(String, T)>,
}

impl<T> View for AccountStore<T> {
    type V = Map<Seq<char>, T>;

    closed spec fn view(&self) -> Map<Seq<char>, T> {
        map_of(self.entries@)
    }
}

impl<T> AccountStore<T> {
    /// Well-formedness: no account identifier is held twice.
    pub closed spec fn inv(&self) -> bool {
        unique_keys(self.entries@)
    }

    /// An empty store, with a record for no account.
    pub fn new() -> (s: Self)
        ensures
            s.inv(),
            s@ == Map::<Seq<char>, T>::empty(),
    {
        AccountStore { entries: Vec::new() }
    }

    /// The stored record for `account_id`, or `None` when that account has
    /// never submitted. No side effect.
    pub fn get<'a>(&'a self, account_id: &String) -> (r: Option<&'a T>)
        requires
            self.inv(),
        ensures
            match r {
                Some(v) => self@.contains_key(account_id@) && *v == self@[account_id@],
                None => !self@.contains_key(account_id@),
            },
    {
        let n = self.entries.len();
        let mut i: usize = 0;
        while i < n
            invariant
                n == self.entries@.len(),
                i <= n,
                self.inv(),
                forall|j: int| 0 <= j < i ==> self.entries@[j].0@ != account_id@,
            decreases n - i,
        {
            if self.entries[i].0 == *account_id {
                proof {
                    lemma_map_of_index(self.entries@, i as int);
                }
                return Some(&self.entries[i].1);
            }
            i += 1;
        }
        proof {
            lemma_map_of_contains(self.entries@, account_id@);
        }
        None
    }

    /// Creates or overwrites the record for `account_id`. The whole record is
    /// replaced; every other account's record is untouched.
    pub fn put(&mut self, account_id: String, record: T)
        requires
            old(self).inv(),
        ensures
            final(self).inv(),
            final(self)@ == old(self)@.insert(account_id@, record),
    {
        let ghost k: Seq<char> = account_id@;
        let n = self.entries.len();
        let mut i: usize = 0;
        while i < n
            invariant
                *self == *old(self),
                n == self.entries@.len(),
                i <= n,
                self.inv(),
                forall|j: int| 0 <= j < i ==> self.entries@[j].0@ != k,
                k == account_id@,
            decreases n - i,
        {
            if self.entries[i].0 == account_id {
                proof {
                    lemma_map_of_update(self.entries@, i as int, (account_id, record));
                }
                self.entries[i] = (account_id, record);
                return;
            }
            i += 1;
        }
        proof {
            lemma_map_of_push(self.entries@, (account_id, record));
        }
        self.entries.push((account_id, record));
    }
}

} // verus!
