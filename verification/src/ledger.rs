//! A model of the fungible-asset ledger the escrow protocol acts on.
//!
//! The ledger holds one [`TokenAccount`] per identifier and offers exactly
//! the operations the protocol needs: balance lookup, `transfer`,
//! `set_authority` and `close`.  Each operation either succeeds with the
//! stated effect or fails with the stated error and no effect at all.

use crate::types::{EscrowError, Ident, TokenAccount};
use vstd::prelude::*;

verus! {

/// No two accounts of the sequence share an identifier.
pub open spec fn distinct_ids(s: Seq<TokenAccount>) -> bool {
    forall|i: int, j: int|
        0 <= i < s.len() && 0 <= j < s.len() && i != j ==> s[i].id != s[j].id
}

/// Some account of the sequence carries this identifier.
pub open spec fn has_key(s: Seq<TokenAccount>, id: Ident) -> bool {
    exists|i: int| 0 <= i < s.len() && s[i].id == id
}

/// The index of the account carrying this identifier.
pub open spec fn key_idx(s: Seq<TokenAccount>, id: Ident) -> int {
    choose|i: int| 0 <= i < s.len() && s[i].id == id
}

/// The account carrying this identifier (meaningful when one exists).
pub open spec fn acct_of(s: Seq<TokenAccount>, id: Ident) -> TokenAccount {
    s[key_idx(s, id)]
}

/// With distinct identifiers, position `i` is the one `key_idx` denotes.
proof fn lemma_key_at(s: Seq<TokenAccount>, i: int)
    requires
        distinct_ids(s),
        0 <= i < s.len(),
    ensures
        has_key(s, s[i].id),
        key_idx(s, s[i].id) == i,
        acct_of(s, s[i].id) == s[i],
{
    let id = s[i].id;
    assert(has_key(s, id));
    let j = key_idx(s, id);
    assert(0 <= j < s.len() && s[j].id == id);
    if j != i {
        assert(s[i].id != s[j].id);
    }
}

/// Replacing the account at `i` by one with the same identifier keeps the
/// identifiers distinct, keeps every identifier's presence, and changes
/// `acct_of` only for that identifier.
proof fn lemma_update(s: Seq<TokenAccount>, i: int, a: TokenAccount)
    requires
        distinct_ids(s),
        0 <= i < s.len(),
        a.id == s[i].id,
    ensures
        distinct_ids(s.update(i, a)),
        forall|x: Ident| has_key(s.update(i, a), x) == has_key(s, x),
        acct_of(s.update(i, a), a.id) == a,
        forall|x: Ident|
            x != a.id && has_key(s, x) ==> acct_of(s.update(i, a), x) == acct_of(s, x),
{
    let t = s.update(i, a);
    assert forall|k: int| 0 <= k < t.len() implies #[trigger] t[k].id == s[k].id by {
    }
    assert forall|x: Ident| has_key(t, x) == has_key(s, x) by {
        if has_key(t, x) {
            let k = choose|k: int| 0 <= k < t.len() && t[k].id == x;
            assert(s[k].id == x);
        }
        if has_key(s, x) {
            let k = choose|k: int| 0 <= k < s.len() && s[k].id == x;
            assert(t[k].id == x);
        }
    }
    lemma_key_at(t, i);
    assert forall|x: Ident| x != a.id && has_key(s, x) implies acct_of(t, x) == acct_of(
        s,
        x,
    ) by {
        let k = key_idx(s, x);
        assert(0 <= k < s.len() && s[k].id == x);
        assert(k != i);
        lemma_key_at(t, k);
        lemma_key_at(s, k);
    }
}

/// Appending an account under a fresh identifier keeps the identifiers
/// distinct, adds exactly that identifier, and leaves the others' accounts
/// as they were.
proof fn lemma_push(s: Seq<TokenAccount>, a: TokenAccount)
    requires
        distinct_ids(s),
        !has_key(s, a.id),
    ensures
        distinct_ids(s.push(a)),
        has_key(s.push(a), a.id),
        acct_of(s.push(a), a.id) == a,
        forall|x: Ident| x != a.id ==> has_key(s.push(a), x) == has_key(s, x),
        forall|x: Ident|
            x != a.id && has_key(s, x) ==> acct_of(s.push(a), x) == acct_of(s, x),
{
    let t = s.push(a);
    assert forall|i: int, j: int|
        0 <= i < t.len() && 0 <= j < t.len() && i != j implies t[i].id != t[j].id by {
        if i < s.len() && j < s.len() {
            assert(s[i].id != s[j].id);
        } else if i < s.len() {
            assert(!(s[i].id == a.id));
        } else if j < s.len() {
            assert(!(s[j].id == a.id));
        }
    }
    lemma_key_at(t, s.len() as int);
    assert forall|x: Ident| x != a.id implies has_key(t, x) == has_key(s, x) by {
        if has_key(t, x) {
            let k = choose|k: int| 0 <= k < t.len() && t[k].id == x;
            assert(k < s.len());
            assert(s[k].id == x);
        }
        if has_key(s, x) {
            let k = choose|k: int| 0 <= k < s.len() && s[k].id == x;
            assert(t[k].id == x);
        }
    }
    assert forall|x: Ident| x != a.id && has_key(s, x) implies acct_of(t, x) == acct_of(
        s,
        x,
    ) by {
        let k = key_idx(s, x);
        assert(0 <= k < s.len() && s[k].id == x);
        lemma_key_at(t, k);
        lemma_key_at(s, k);
    }
}

/// Removing the account at `i` keeps the identifiers distinct, removes
/// exactly that identifier, and leaves the others' accounts as they were.
proof fn lemma_remove(s: Seq<TokenAccount>, i: int)
    requires
        distinct_ids(s),
        0 <= i < s.len(),
    ensures
        distinct_ids(s.remove(i)),
        !has_key(s.remove(i), s[i].id),
        forall|x: Ident| x != s[i].id ==> has_key(s.remove(i), x) == has_key(s, x),
        forall|x: Ident|
            x != s[i].id && has_key(s, x) ==> acct_of(s.remove(i), x) == acct_of(s, x),
{
    let t = s.remove(i);
    s.remove_ensures(i);
    assert forall|k: int| 0 <= k < t.len() implies #[trigger] t[k] == (if k < i {
        s[k]
    } else {
        s[k + 1]
    }) by {
    }
    assert forall|p: int, q: int|
        0 <= p < t.len() && 0 <= q < t.len() && p != q implies t[p].id != t[q].id by {
        let p0 = if p < i { p } else { p + 1 };
        let q0 = if q < i { q } else { q + 1 };
        assert(s[p0].id != s[q0].id);
    }
    assert(!has_key(t, s[i].id)) by {
        if has_key(t, s[i].id) {
            let k = choose|k: int| 0 <= k < t.len() && t[k].id == s[i].id;
            let k0 = if k < i { k } else { k + 1 };
            assert(s[k0].id == s[i].id);
            assert(k0 != i);
        }
    }
    assert forall|x: Ident| x != s[i].id implies has_key(t, x) == has_key(s, x) by {
        if has_key(t, x) {
            let k = choose|k: int| 0 <= k < t.len() && t[k].id == x;
            let k0 = if k < i { k } else { k + 1 };
            assert(s[k0].id == x);
        }
        if has_key(s, x) {
            let k = choose|k: int| 0 <= k < s.len() && s[k].id == x;
            assert(k != i);
            if k < i {
                assert(t[k].id == x);
            } else {
                assert(t[k - 1].id == x);
            }
        }
    }
    assert forall|x: Ident| x != s[i].id && has_key(s, x) implies acct_of(t, x) == acct_of(
        s,
        x,
    ) by {
        let k = key_idx(s, x);
        assert(0 <= k < s.len() && s[k].id == x);
        assert(k != i);
        lemma_key_at(s, k);
        if k < i {
            lemma_key_at(t, k);
        } else {
            lemma_key_at(t, k - 1);
        }
    }
}

/// The modeled asset ledger: a set of token accounts with unique
/// identifiers.
pub struct Ledger {
    accounts: Vec<TokenAccount>,
}

/// Why a transfer of `amount` from `from` to `to`, signed by `authority`,
/// succeeds or fails on ledger `l`.  A transfer to the sending account
/// itself is accepted and moves nothing.
pub open spec fn transfer_result(
    l: Ledger,
    from: Ident,
    to: Ident,
    amount: u64,
    authority: Ident,
) -> Result<(), EscrowError> {
    if !l.has_account(from) {
        Err(EscrowError::LedgerOperationFailed)
    } else if l.account_of(from).authority != authority {
        Err(EscrowError::Unauthorized)
    } else if l.account_of(from).balance < amount {
        Err(EscrowError::InsufficientBalance)
    } else if from == to {
        Ok(())
    } else if !l.has_account(to) {
        Err(EscrowError::LedgerOperationFailed)
    } else if l.account_of(to).mint != l.account_of(from).mint {
        Err(EscrowError::LedgerOperationFailed)
    } else if l.account_of(to).balance + amount > u64::MAX {
        Err(EscrowError::LedgerOperationFailed)
    } else {
        Ok(())
    }
}

/// Whether the transfer would succeed.
pub open spec fn transfer_allowed(
    l: Ledger,
    from: Ident,
    to: Ident,
    amount: u64,
    authority: Ident,
) -> bool {
    transfer_result(l, from, to, amount, authority) is Ok
}

impl Ledger {
    /// The accounts in representation order.
    pub closed spec fn accounts_seq(self) -> Seq<TokenAccount> {
        self.accounts@
    }

    /// Well-formed: account identifiers are unique.
    pub open spec fn wf(self) -> bool {
        distinct_ids(self.accounts_seq())
    }

    /// Whether an account with this identifier exists.
    pub open spec fn has_account(self, id: Ident) -> bool {
        has_key(self.accounts_seq(), id)
    }

    /// The account with this identifier (meaningful when it exists).
    pub open spec fn account_of(self, id: Ident) -> TokenAccount {
        acct_of(self.accounts_seq(), id)
    }

    /// An empty ledger.
    pub fn new() -> (r: Ledger)
        ensures
            r.wf(),
            forall|x: Ident| !r.has_account(x),
    {
        Ledger { accounts: Vec::new() }
    }

    /// The index of the account with this identifier, if any.
    fn find(&self, id: Ident) -> (r: Option<usize>)
        ensures
            match r {
                Some(i) => i < self.accounts_seq().len() && self.accounts_seq()[i as int].id
                    == id && self.has_account(id),
                None => !self.has_account(id),
            },
    {
        let n = self.accounts.len();
        let mut i: usize = 0;
        while i < n
            invariant
                n == self.accounts.len(),
                i <= n,
                forall|k: int| 0 <= k < i ==> self.accounts@[k].id != id,
            decreases n - i,
        {
            if self.accounts[i].id == id {
                return Some(i);
            }
            i = i + 1;
        }
        None
    }

    /// The balance of the account, or `None` when no such account exists.
    pub fn balance_of(&self, id: Ident) -> (r: Option<u64>)
        requires
            self.wf(),
        ensures
            r == if self.has_account(id) {
                Some(self.account_of(id).balance)
            } else {
                None::<u64>
            },
    {
        match self.find(id) {
            Some(i) => {
                proof {
                    lemma_key_at(self.accounts@, i as int);
                }
                Some(self.accounts[i].balance)
            },
            None => None,
        }
    }

    /// The whole account, or `None` when no such account exists.
    pub fn get_account(&self, id: Ident) -> (r: Option<TokenAccount>)
        requires
            self.wf(),
        ensures
            r == if self.has_account(id) {
                Some(self.account_of(id))
            } else {
                None::<TokenAccount>
            },
    {
        match self.find(id) {
            Some(i) => {
                proof {
                    lemma_key_at(self.accounts@, i as int);
                }
                Some(self.accounts[i])
            },
            None => None,
        }
    }

    /// Create an account under a fresh identifier.
    pub fn create_account(
        &mut self,
        id: Ident,
        mint: Ident,
        authority: Ident,
        balance: u64,
    ) -> (r: Result<(), EscrowError>)
        requires
            old(self).wf(),
        ensures
            final(self).wf(),
            r == if old(self).has_account(id) {
                Err::<(), EscrowError>(EscrowError::LedgerOperationFailed)
            } else {
                Ok::<(), EscrowError>(())
            },
            r is Err ==> *final(self) == *old(self),
            r is Ok ==> final(self).has_account(id) && final(self).account_of(id) == (TokenAccount {
                id,
                mint,
                authority,
                balance,
            }),
            r is Ok ==> forall|x: Ident|
                x != id ==> final(self).has_account(x) == old(self).has_account(x),
            r is Ok ==> forall|x: Ident|
                x != id && old(self).has_account(x) ==> final(self).account_of(x)
                    == old(self).account_of(x),
    {
        match self.find(id) {
            Some(_) => Err(EscrowError::LedgerOperationFailed),
            None => {
                let a = TokenAccount { id, mint, authority, balance };
                proof {
                    lemma_push(self.accounts@, a);
                }
                self.accounts.push(a);
                Ok(())
            },
        }
    }

    /// Move `amount` from `from` to `to`, authorized by `authority`.
    pub fn transfer(
        &mut self,
        from: Ident,
        to: Ident,
        amount: u64,
        authority: Ident,
    ) -> (r: Result<(), EscrowError>)
        requires
            old(self).wf(),
        ensures
            final(self).wf(),
            r == transfer_result(*old(self), from, to, amount, authority),
            r is Err ==> *final(self) == *old(self),
            r is Ok && from == to ==> *final(self) == *old(self),
            r is Ok && from != to ==> {
                &&& forall|x: Ident| final(self).has_account(x) == old(self).has_account(x)
                &&& final(self).account_of(from) == (TokenAccount {
                    balance: (old(self).account_of(from).balance - amount) as u64,
                    ..old(self).account_of(from)
                })
                &&& final(self).account_of(to) == (TokenAccount {
                    balance: (old(self).account_of(to).balance + amount) as u64,
                    ..old(self).account_of(to)
                })
                &&& forall|x: Ident|
                    x != from && x != to && old(self).has_account(x) ==> final(self).account_of(x)
                        == old(self).account_of(x)
            },
    {
        let fi = match self.find(from) {
            Some(i) => i,
            None => {
                return Err(EscrowError::LedgerOperationFailed);
            },
        };
        proof {
            lemma_key_at(self.accounts@, fi as int);
        }
        let facct = self.accounts[fi];
        if facct.authority != authority {
            return Err(EscrowError::Unauthorized);
        }
        if facct.balance < amount {
            return Err(EscrowError::InsufficientBalance);
        }
        if from == to {
            return Ok(());
        }
        let ti = match self.find(to) {
            Some(i) => i,
            None => {
                return Err(EscrowError::LedgerOperationFailed);
            },
        };
        proof {
            lemma_key_at(self.accounts@, ti as int);
        }
        let tacct = self.accounts[ti];
        if tacct.mint != facct.mint {
            return Err(EscrowError::LedgerOperationFailed);
        }
        if tacct.balance > u64::MAX - amount {
            return Err(EscrowError::LedgerOperationFailed);
        }
        let ghost pre = self.accounts@;
        let fnew = TokenAccount { balance: facct.balance - amount, ..facct };
        self.accounts[fi] = fnew;
        proof {
            lemma_update(pre, fi as int, fnew);
        }
        let ghost mid = self.accounts@;
        let tnew = TokenAccount { balance: tacct.balance + amount, ..tacct };
        self.accounts[ti] = tnew;
        proof {
            assert(mid[ti as int].id == to);
            lemma_update(mid, ti as int, tnew);
        }
        Ok(())
    }

    /// Hand authority over the account from `signer` to `new_authority`.
    pub fn set_authority(
        &mut self,
        account: Ident,
        new_authority: Ident,
        signer: Ident,
    ) -> (r: Result<(), EscrowError>)
        requires
            old(self).wf(),
        ensures
            final(self).wf(),
            r == if !old(self).has_account(account) {
                Err::<(), EscrowError>(EscrowError::LedgerOperationFailed)
            } else if old(self).account_of(account).authority != signer {
                Err::<(), EscrowError>(EscrowError::Unauthorized)
            } else {
                Ok::<(), EscrowError>(())
            },
            r is Err ==> *final(self) == *old(self),
            r is Ok ==> {
                &&& forall|x: Ident| final(self).has_account(x) == old(self).has_account(x)
                &&& final(self).account_of(account) == (TokenAccount {
                    authority: new_authority,
                    ..old(self).account_of(account)
                })
                &&& forall|x: Ident|
                    x != account && old(self).has_account(x) ==> final(self).account_of(x)
                        == old(self).account_of(x)
            },
    {
        let i = match self.find(account) {
            Some(i) => i,
            None => {
                return Err(EscrowError::LedgerOperationFailed);
            },
        };
        proof {
            lemma_key_at(self.accounts@, i as int);
        }
        let a = self.accounts[i];
        if a.authority != signer {
            return Err(EscrowError::Unauthorized);
        }
        let ghost pre = self.accounts@;
        let anew = TokenAccount { authority: new_authority, ..a };
        self.accounts[i] = anew;
        proof {
            lemma_update(pre, i as int, anew);
        }
        Ok(())
    }

    /// Close an empty account, removing it from the ledger.
    pub fn close(&mut self, account: Ident, signer: Ident) -> (r: Result<(), EscrowError>)
        requires
            old(self).wf(),
        ensures
            final(self).wf(),
            r == if !old(self).has_account(account) {
                Err::<(), EscrowError>(EscrowError::LedgerOperationFailed)
            } else if old(self).account_of(account).authority != signer {
                Err::<(), EscrowError>(EscrowError::Unauthorized)
            } else if old(self).account_of(account).balance != 0 {
                Err::<(), EscrowError>(EscrowError::LedgerOperationFailed)
            } else {
                Ok::<(), EscrowError>(())
            },
            r is Err ==> *final(self) == *old(self),
            r is Ok ==> {
                &&& !final(self).has_account(account)
                &&& forall|x: Ident|
                    x != account ==> final(self).has_account(x) == old(self).has_account(x)
                &&& forall|x: Ident|
                    x != account && old(self).has_account(x) ==> final(self).account_of(x)
                        == old(self).account_of(x)
            },
    {
        let i = match self.find(account) {
            Some(i) => i,
            None => {
                return Err(EscrowError::LedgerOperationFailed);
            },
        };
        proof {
            lemma_key_at(self.accounts@, i as int);
        }
        let a = self.accounts[i];
        if a.authority != signer {
            return Err(EscrowError::Unauthorized);
        }
        if a.balance != 0 {
            return Err(EscrowError::LedgerOperationFailed);
        }
        proof {
            lemma_remove(self.accounts@, i as int);
        }
        self.accounts.remove(i);
        Ok(())
    }
}

} // verus!
