//! The escrow record store: a keyed store holding at most one
//! [`EscrowAccount`] per escrow identifier.
//!
//! An escrow identifier goes through one life: absent, then present from
//! the moment the escrow is opened, then absent again once it is settled
//! or cancelled.  Re-creation while a record exists is refused, which is
//! what makes settlement and cancellation mutually exclusive.

use crate::types::{EscrowAccount, EscrowError, Ident};
use vstd::prelude::*;

verus! {

/// One stored record, under its escrow identifier.
#[derive(Clone, Copy, PartialEq, Eq, Structural, Debug)]
pub struct EscrowRecord {
    pub key: Ident,
    pub state: EscrowAccount,
}

/// No two records of the sequence share a key.
pub open spec fn distinct_keys(s: Seq<EscrowRecord>) -> bool {
    forall|i: int, j: int|
        0 <= i < s.len() && 0 <= j < s.len() && i != j ==> s[i].key != s[j].key
}

/// Some record of the sequence carries this key.
pub open spec fn has_rec(s: Seq<EscrowRecord>, key: Ident) -> bool {
    exists|i: int| 0 <= i < s.len() && s[i].key == key
}

/// The index of the record carrying this key.
pub open spec fn rec_idx(s: Seq<EscrowRecord>, key: Ident) -> int {
    choose|i: int| 0 <= i < s.len() && s[i].key == key
}

/// The record carrying this key (meaningful when one exists).
pub open spec fn rec_of(s: Seq<EscrowRecord>, key: Ident) -> EscrowRecord {
    s[rec_idx(s, key)]
}

/// With distinct keys, position `i` is the one `rec_idx` denotes.
proof fn lemma_rec_at(s: Seq<EscrowRecord>, i: int)
    requires
        distinct_keys(s),
        0 <= i < s.len(),
    ensures
        has_rec(s, s[i].key),
        rec_idx(s, s[i].key) == i,
        rec_of(s, s[i].key) == s[i],
{
    let key = s[i].key;
    assert(has_rec(s, key));
    let j = rec_idx(s, key);
    assert(0 <= j < s.len() && s[j].key == key);
    if j != i {
        assert(s[i].key != s[j].key);
    }
}

/// Appending a record under a fresh key keeps the keys distinct, adds
/// exactly that key, and leaves the other records as they were.
proof fn lemma_rec_push(s: Seq<EscrowRecord>, r: EscrowRecord)
    requires
        distinct_keys(s),
        !has_rec(s, r.key),
    ensures
        distinct_keys(s.push(r)),
        has_rec(s.push(r), r.key),
        rec_of(s.push(r), r.key) == r,
        forall|x: Ident| x != r.key ==> has_rec(s.push(r), x) == has_rec(s, x),
        forall|x: Ident| x != r.key && has_rec(s, x) ==> rec_of(s.push(r), x) == rec_of(s, x),
{
    let t = s.push(r);
    assert forall|i: int, j: int|
        0 <= i < t.len() && 0 <= j < t.len() && i != j implies t[i].key != t[j].key by {
        if i < s.len() && j < s.len() {
            assert(s[i].key != s[j].key);
        } else if i < s.len() {
            assert(!(s[i].key == r.key));
        } else if j < s.len() {
            assert(!(s[j].key == r.key));
        }
    }
    lemma_rec_at(t, s.len() as int);
    assert forall|x: Ident| x != r.key implies has_rec(t, x) == has_rec(s, x) by {
        if has_rec(t, x) {
            let k = choose|k: int| 0 <= k < t.len() && t[k].key == x;
            assert(k < s.len());
            assert(s[k].key == x);
        }
        if has_rec(s, x) {
            let k = choose|k: int| 0 <= k < s.len() && s[k].key == x;
            assert(t[k].key == x);
        }
    }
    assert forall|x: Ident| x != r.key && has_rec(s, x) implies rec_of(t, x) == rec_of(
        s,
        x,
    ) by {
        let k = rec_idx(s, x);
        assert(0 <= k < s.len() && s[k].key == x);
        lemma_rec_at(t, k);
        lemma_rec_at(s, k);
    }
}

/// Removing the record at `i` keeps the keys distinct, removes exactly
/// that key, and leaves the other records as they were.
proof fn lemma_rec_remove(s: Seq<EscrowRecord>, i: int)
    requires
        distinct_keys(s),
        0 <= i < s.len(),
    ensures
        distinct_keys(s.remove(i)),
        !has_rec(s.remove(i), s[i].key),
        forall|x: Ident| x != s[i].key ==> has_rec(s.remove(i), x) == has_rec(s, x),
        forall|x: Ident|
            x != s[i].key && has_rec(s, x) ==> rec_of(s.remove(i), x) == rec_of(s, x),
{
    let t = s.remove(i);
    s.remove_ensures(i);
    assert forall|k: int| 0 <= k < t.len() implies #[trigger] t[k] == (if k < i {
        s[k]
    } else {
        s[k + 1]
    }) by {
    }
    assert forall|p: int, q: int|
        0 <= p < t.len() && 0 <= q < t.len() && p != q implies t[p].key != t[q].key by {
        let p0 = if p < i { p } else { p + 1 };
        let q0 = if q < i { q } else { q + 1 };
        assert(s[p0].key != s[q0].key);
    }
    assert(!has_rec(t, s[i].key)) by {
        if has_rec(t, s[i].key) {
            let k = choose|k: int| 0 <= k < t.len() && t[k].key == s[i].key;
            let k0 = if k < i { k } else { k + 1 };
            assert(s[k0].key == s[i].key);
            assert(k0 != i);
        }
    }
    assert forall|x: Ident| x != s[i].key implies has_rec(t, x) == has_rec(s, x) by {
        if has_rec(t, x) {
            let k = choose|k: int| 0 <= k < t.len() && t[k].key == x;
            let k0 = if k < i { k } else { k + 1 };
            assert(s[k0].key == x);
        }
        if has_rec(s, x) {
            let k = choose|k: int| 0 <= k < s.len() && s[k].key == x;
            assert(k != i);
            if k < i {
                assert(t[k].key == x);
            } else {
                assert(t[k - 1].key == x);
            }
        }
    }
    assert forall|x: Ident| x != s[i].key && has_rec(s, x) implies rec_of(t, x) == rec_of(
        s,
        x,
    ) by {
        let k = rec_idx(s, x);
        assert(0 <= k < s.len() && s[k].key == x);
        assert(k != i);
        lemma_rec_at(s, k);
        if k < i {
            lemma_rec_at(t, k);
        } else {
            lemma_rec_at(t, k - 1);
        }
    }
}

/// The escrow record store.
pub struct EscrowStore {
    records: Vec<EscrowRecord>,
}

impl EscrowStore {
    /// The records in representation order.
    pub closed spec fn records_seq(self) -> Seq<EscrowRecord> {
        self.records@
    }

    /// Well-formed: escrow identifiers are unique.
    pub open spec fn wf(self) -> bool {
        distinct_keys(self.records_seq())
    }

    /// Whether a record is stored under this escrow identifier.
    pub open spec fn has_escrow(self, key: Ident) -> bool {
        has_rec(self.records_seq(), key)
    }

    /// The record stored under this escrow identifier (meaningful when it
    /// exists).
    pub open spec fn escrow_of(self, key: Ident) -> EscrowAccount {
        rec_of(self.records_seq(), key).state
    }

    /// An empty store.
    pub fn new() -> (r: EscrowStore)
        ensures
            r.wf(),
            forall|x: Ident| !r.has_escrow(x),
    {
        EscrowStore { records: Vec::new() }
    }

    /// The index of the record under this escrow identifier, if any.
    fn find(&self, key: Ident) -> (r: Option<usize>)
        ensures
            match r {
                Some(i) => i < self.records_seq().len() && self.records_seq()[i as int].key
                    == key && self.has_escrow(key),
                None => !self.has_escrow(key),
            },
    {
        let n = self.records.len();
        let mut i: usize = 0;
        while i < n
            invariant
                n == self.records.len(),
                i <= n,
                forall|k: int| 0 <= k < i ==> self.records@[k].key != key,
            decreases n - i,
        {
            if self.records[i].key == key {
                return Some(i);
            }
            i = i + 1;
        }
        None
    }

    /// The record under this escrow identifier, or `None`.
    pub fn get(&self, key: Ident) -> (r: Option<EscrowAccount>)
        requires
            self.wf(),
        ensures
            r == if self.has_escrow(key) {
                Some(self.escrow_of(key))
            } else {
                None::<EscrowAccount>
            },
    {
        match self.find(key) {
            Some(i) => {
                proof {
                    lemma_rec_at(self.records@, i as int);
                }
                Some(self.records[i].state)
            },
            None => None,
        }
    }

    /// Store a record under a fresh escrow identifier; refuse a duplicate.
    pub fn insert(&mut self, key: Ident, state: EscrowAccount) -> (r: Result<(), EscrowError>)
        requires
            old(self).wf(),
        ensures
            final(self).wf(),
            r == if old(self).has_escrow(key) {
                Err::<(), EscrowError>(EscrowError::DuplicateEscrow)
            } else {
                Ok::<(), EscrowError>(())
            },
            r is Err ==> *final(self) == *old(self),
            r is Ok ==> final(self).has_escrow(key) && final(self).escrow_of(key) == state,
            r is Ok ==> forall|x: Ident|
                x != key ==> final(self).has_escrow(x) == old(self).has_escrow(x),
            r is Ok ==> forall|x: Ident|
                x != key && old(self).has_escrow(x) ==> final(self).escrow_of(x)
                    == old(self).escrow_of(x),
    {
        match self.find(key) {
            Some(_) => Err(EscrowError::DuplicateEscrow),
            None => {
                let rec = EscrowRecord { key, state };
                proof {
                    lemma_rec_push(self.records@, rec);
                }
                self.records.push(rec);
                Ok(())
            },
        }
    }

    /// Destroy the record under this escrow identifier.
    pub fn remove(&mut self, key: Ident) -> (r: Result<(), EscrowError>)
        requires
            old(self).wf(),
        ensures
            final(self).wf(),
            r == if old(self).has_escrow(key) {
                Ok::<(), EscrowError>(())
            } else {
                Err::<(), EscrowError>(EscrowError::EscrowNotFound)
            },
            r is Err ==> *final(self) == *old(self),
            r is Ok ==> !final(self).has_escrow(key),
            r is Ok ==> forall|x: Ident|
                x != key ==> final(self).has_escrow(x) == old(self).has_escrow(x),
            r is Ok ==> forall|x: Ident|
                x != key && old(self).has_escrow(x) ==> final(self).escrow_of(x)
                    == old(self).escrow_of(x),
    {
        match self.find(key) {
            Some(i) => {
                proof {
                    lemma_rec_remove(self.records@, i as int);
                }
                self.records.remove(i);
                Ok(())
            },
            None => Err(EscrowError::EscrowNotFound),
        }
    }
}

} // verus!
