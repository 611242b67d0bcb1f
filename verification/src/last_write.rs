//! The last-write policy: the ledger keeps only the most recent text
//! submitted by each account.
//!
//! `combine` ignores the existing record entirely; the read transform is the
//! identity; an account that never submitted reads as the fixed sentinel
//! text `"Hello"`.

use vstd::prelude::*;
use vstd::map::*;
use crate::store::AccountStore;
use crate::store::stored;

verus! {

/// The sentinel text returned for an account that never submitted.
pub open spec fn last_write_default() -> Seq<char> {
    "Hello"@
}

/// How a submission combines with the existing record: the incoming text
/// wins, whatever was stored before.
pub open spec fn last_write_combine(existing: Option<Seq<char>>, incoming: Seq<char>) -> Seq<
    char,
> {
    incoming
}

/// What a query of account `k` returns over ledger contents `m`: the stored
/// text unchanged, or the default when the account never submitted.
pub open spec fn last_write_query(m: Map<Seq<char>, Seq<char>>, k: Seq<char>) -> Seq<char> {
    if m.contains_key(k) {
        m[k]
    } else {
        last_write_default()
    }
}

/// The contents of a text store, seen as a map of character sequences.
spec fn text_view(m: Map<Seq<char>, String>) -> Map<Seq<char>, Seq<char>> {
    Map::new(|k: Seq<char>| m.contains_key(k), |k: Seq<char>| m[k]@)
}

proof fn lemma_text_view_insert(m: Map<Seq<char>, String>, k: Seq<char>, v: String)
    ensures
        text_view(m.insert(k, v)) == text_view(m).insert(k, v@),
{
    assert_maps_equal!(text_view(m.insert(k, v)), text_view(m).insert(k, v@), kk => {
        if kk == k {
            assert(text_view(m.insert(k, v))[kk] == v@);
        }
    });
}

/// A ledger under the last-write policy.
pub struct LastWriteLedger {
    store: AccountStore<String>,
}

impl View for LastWriteLedger {
    type V = Map<Seq<char>, Seq<char>>;

    closed spec fn view(&self) -> Map<Seq<char>, Seq<char>> {
        text_view(self.store@)
    }
}

impl LastWriteLedger {
    /// Well-formedness of the underlying store.
    pub closed spec fn inv(&self) -> bool {
        self.store.inv()
    }

    /// A fresh ledger with a record for no account.
    pub fn new() -> (l: Self)
        ensures
            l.inv(),
            l@ == Map::<Seq<char>, Seq<char>>::empty(),
    {
        let l = LastWriteLedger { store: AccountStore::new() };
        proof {
            assert(l@ =~= Map::<Seq<char>, Seq<char>>::empty());
        }
        l
    }

    /// Records a submission: the submitted text becomes the account's record,
    /// replacing any existing one. Every other account is untouched.
    pub fn submit(&mut self, account_id: String, statement: String)
        requires
            old(self).inv(),
        ensures
            final(self).inv(),
            final(self)@ == old(self)@.insert(
                account_id@,
                last_write_combine(stored(old(self)@, account_id@), statement@),
            ),
    {
        let ghost m0 = self.store@;
        let ghost k = account_id@;
        let ghost st = statement;
        self.store.put(account_id, statement);
        proof {
            lemma_text_view_insert(m0, k, st);
        }
    }

    /// Reads the account's current record, or the default `"Hello"` when the
    /// account never submitted. Never mutates the ledger.
    pub fn query(&self, account_id: String) -> (r: String)
        requires
            self.inv(),
        ensures
            r@ == last_write_query(self@, account_id@),
    {
        match self.store.get(&account_id) {
            Some(v) => v.clone(),
            None => "Hello".to_owned(),
        }
    }
}

/// A submission is read back verbatim: once account `a` has submitted `s`,
/// a query of `a` returns exactly `s`, whatever was stored before.
pub proof fn lemma_last_write_submit_then_query(
    m: Map<Seq<char>, Seq<char>>,
    a: Seq<char>,
    s: Seq<char>,
)
    ensures
        last_write_query(m.insert(a, last_write_combine(stored(m, a), s)), a) == s,
{
}

/// An account that never submitted reads as the declared default.
pub proof fn lemma_last_write_unsubmitted_default(m: Map<Seq<char>, Seq<char>>, k: Seq<char>)
    requires
        !m.contains_key(k),
    ensures
        last_write_query(m, k) == last_write_default(),
{
}

/// Isolation at the query level: a submission recorded for account `a`
/// leaves what a query of any other account `b` returns unchanged.
pub proof fn lemma_last_write_query_isolation(
    m: Map<Seq<char>, Seq<char>>,
    a: Seq<char>,
    text: Seq<char>,
    b: Seq<char>,
)
    requires
        a != b,
    ensures
        last_write_query(m.insert(a, text), b) == last_write_query(m, b),
{
}

} // verus!
