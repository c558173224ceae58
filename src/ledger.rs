//! The token balances that markets move: escrow vaults and users' token
//! accounts, and the transfer primitive that moves amounts between them.
use vstd::prelude::*;
use crate::types::{Address, Authority, MarketError};

verus! {

/// One token account: its address, the token type it holds, the authority
/// that may move tokens out of it, and its balance.
#[derive(Clone, Copy, Debug, PartialEq, Eq, Structural)]
pub struct TokenAccount {
    pub key: Address,
    pub mint: Address,
    pub owner: Authority,
    pub amount: u64,
}

/// A request to move `amount` tokens from `from` to `to`, signed by `authority`.
#[derive(Clone, Copy, Debug, PartialEq, Eq, Structural)]
pub struct TransferRequest {
    pub from: Address,
    pub to: Address,
    pub authority: Authority,
    pub amount: u64,
}

/// No two accounts share an address.
pub open spec fn keys_unique(s: Seq<TokenAccount>) -> bool {
    forall|i: int, j: int|
        0 <= i < s.len() && 0 <= j < s.len() && i != j ==> s[i].key != s[j].key
}

/// Some account has address `k`.
pub open spec fn holds(s: Seq<TokenAccount>, k: Address) -> bool {
    exists|i: int| 0 <= i < s.len() && s[i].key == k
}

/// The position of the account with address `k`.
pub open spec fn position(s: Seq<TokenAccount>, k: Address) -> int {
    choose|i: int| 0 <= i < s.len() && s[i].key == k
}

/// The account with address `k`.
pub open spec fn account_of(s: Seq<TokenAccount>, k: Address) -> TokenAccount {
    s[position(s, k)]
}

/// `a` with its balance replaced by `n`.
pub open spec fn with_amount(a: TokenAccount, n: int) -> TokenAccount {
    TokenAccount { key: a.key, mint: a.mint, owner: a.owner, amount: n as u64 }
}

/// The accounts after transfer `t`, or the reason it is refused.
/// A refused transfer changes nothing.
pub open spec fn transfer_result(s: Seq<TokenAccount>, t: TransferRequest) -> Result<
    Seq<TokenAccount>,
    MarketError,
> {
    if !holds(s, t.from) || !holds(s, t.to) {
        Err(MarketError::AccountNotFound)
    } else if account_of(s, t.from).mint != account_of(s, t.to).mint {
        Err(MarketError::MintMismatch)
    } else if account_of(s, t.from).owner != t.authority {
        Err(MarketError::OwnerMismatch)
    } else if account_of(s, t.from).amount < t.amount {
        Err(MarketError::InsufficientFunds)
    } else if t.from == t.to {
        Ok(s)
    } else if account_of(s, t.to).amount + t.amount > u64::MAX {
        Err(MarketError::BalanceOverflow)
    } else {
        let src = account_of(s, t.from);
        let dst = account_of(s, t.to);
        Ok(
            s.update(position(s, t.from), with_amount(src, src.amount - t.amount)).update(
                position(s, t.to),
                with_amount(dst, dst.amount + t.amount),
            ),
        )
    }
}

/// The accounts after issuing transfers `ts` in order, stopping at the first
/// refused one, and the outcome. Transfers settled before a refusal stay.
pub open spec fn run_transfers(s: Seq<TokenAccount>, ts: Seq<TransferRequest>) -> (
    Seq<TokenAccount>,
    Result<(), MarketError>,
)
    decreases ts.len(),
{
    if ts.len() == 0 {
        (s, Ok(()))
    } else {
        match transfer_result(s, ts[0]) {
            Ok(s2) => run_transfers(s2, ts.subrange(1, ts.len() as int)),
            Err(e) => (s, Err(e)),
        }
    }
}

proof fn lemma_position(s: Seq<TokenAccount>, i: int)
    requires
        keys_unique(s),
        0 <= i < s.len(),
    ensures
        holds(s, s[i].key),
        position(s, s[i].key) == i,
{
    assert(holds(s, s[i].key));
}

/// `s2` has the accounts of `s`, at the same positions, with the same
/// addresses, token types and owners; only balances may differ.
pub open spec fn same_shape(s: Seq<TokenAccount>, s2: Seq<TokenAccount>) -> bool {
    &&& s2.len() == s.len()
    &&& forall|i: int|
        #![trigger s2[i]]
        0 <= i < s.len() ==> s2[i].key == s[i].key && s2[i].mint == s[i].mint && s2[i].owner
            == s[i].owner
}

proof fn lemma_transfer_same_shape(s: Seq<TokenAccount>, t: TransferRequest)
    requires
        keys_unique(s),
    ensures
        transfer_result(s, t) is Ok ==> same_shape(s, transfer_result(s, t)->Ok_0) && keys_unique(
            transfer_result(s, t)->Ok_0,
        ),
{
}

/// Issuing transfers changes balances only: every account keeps its
/// position, address, token type and owner.
pub proof fn lemma_run_same_shape(s: Seq<TokenAccount>, ts: Seq<TransferRequest>)
    requires
        keys_unique(s),
    ensures
        same_shape(s, run_transfers(s, ts).0),
        keys_unique(run_transfers(s, ts).0),
    decreases ts.len(),
{
    if ts.len() > 0 {
        lemma_transfer_same_shape(s, ts[0]);
        if transfer_result(s, ts[0]) is Ok {
            let s2 = transfer_result(s, ts[0])->Ok_0;
            lemma_run_same_shape(s2, ts.subrange(1, ts.len() as int));
        }
    }
}

/// Accounts of the same shape agree on where an address is and on its
/// account's token type and owner.
pub proof fn lemma_same_shape_account(s: Seq<TokenAccount>, s2: Seq<TokenAccount>, k: Address)
    requires
        keys_unique(s),
        same_shape(s, s2),
        holds(s, k),
    ensures
        holds(s2, k),
        position(s2, k) == position(s, k),
        account_of(s2, k).mint == account_of(s, k).mint,
        account_of(s2, k).owner == account_of(s, k).owner,
{
    let p = position(s, k);
    assert(s2[p].key == k);
    assert(holds(s2, k));
    let q = position(s2, k);
    assert(s2[q].key == s[q].key);
}

/// Appending an account keeps the position and contents of every address
/// already present.
pub proof fn lemma_push_keeps_account(s: Seq<TokenAccount>, a: TokenAccount, k: Address)
    requires
        keys_unique(s.push(a)),
        holds(s, k),
    ensures
        holds(s.push(a), k),
        account_of(s.push(a), k) == account_of(s, k),
{
    let p = position(s, k);
    lemma_position(s.push(a), p);
}

/// The account appended last is found at its address.
pub proof fn lemma_push_finds_last(s: Seq<TokenAccount>, a: TokenAccount)
    requires
        keys_unique(s.push(a)),
    ensures
        holds(s.push(a), a.key),
        account_of(s.push(a), a.key) == a,
{
    lemma_position(s.push(a), s.len() as int);
}

/// Transfers that are all signed by keys never lower the balance of an
/// account owned by a derived authority.
pub proof fn lemma_key_transfers_keep_derived(
    s: Seq<TokenAccount>,
    ts: Seq<TransferRequest>,
    k: Address,
)
    requires
        keys_unique(s),
        holds(s, k),
        account_of(s, k).owner is Derived,
        forall|i: int| 0 <= i < ts.len() ==> (#[trigger] ts[i]).authority is Key,
    ensures
        holds(run_transfers(s, ts).0, k),
        account_of(run_transfers(s, ts).0, k).amount >= account_of(s, k).amount,
    decreases ts.len(),
{
    if ts.len() > 0 {
        let t = ts[0];
        lemma_transfer_same_shape(s, t);
        if transfer_result(s, t) is Ok {
            let s2 = transfer_result(s, t)->Ok_0;
            lemma_same_shape_account(s, s2, k);
            let p = position(s, k);
            assert(t.from != k);
            if t.from != t.to {
                assert(position(s, t.from) != p);
            }
            let rest = ts.subrange(1, ts.len() as int);
            assert forall|i: int| 0 <= i < rest.len() implies (#[trigger] rest[i]).authority is Key by {
                assert(rest[i] == ts[i + 1]);
            }
            lemma_key_transfers_keep_derived(s2, rest, k);
        }
    }
}

/// The token accounts known to a market environment, by unique address.
pub struct TokenLedger {
    accounts: Vec<TokenAccount>,
}

impl View for TokenLedger {
    type V = Seq<TokenAccount>;

    closed spec fn view(&self) -> Seq<TokenAccount> {
        self.accounts@
    }
}

impl TokenLedger {
    pub open spec fn wf(&self) -> bool {
        keys_unique(self@)
    }

    /// A ledger with no accounts.
    pub fn new() -> (r: TokenLedger)
        ensures
            r.wf(),
            r@ == Seq::<TokenAccount>::empty(),
    {
        TokenLedger { accounts: Vec::new() }
    }

    /// The position of the account with address `k`, if there is one.
    pub fn find(&self, k: Address) -> (r: Option<usize>)
        requires
            self.wf(),
        ensures
            r is None <==> !holds(self@, k),
            r matches Some(i) ==> i < self@.len() && position(self@, k) == i
                && self@[i as int].key == k,
    {
        let mut i: usize = 0;
        while i < self.accounts.len()
            invariant
                self.wf(),
                i <= self.accounts@.len(),
                forall|j: int| 0 <= j < i ==> self.accounts@[j].key != k,
            decreases self.accounts@.len() - i,
        {
            if self.accounts[i].key == k {
                proof {
                    lemma_position(self@, i as int);
                }
                return Some(i);
            }
            i = i + 1;
        }
        None
    }

    /// The account with address `k`, if there is one.
    pub fn account(&self, k: Address) -> (r: Option<TokenAccount>)
        requires
            self.wf(),
        ensures
            r == (if holds(self@, k) {
                Some(account_of(self@, k))
            } else {
                None::<TokenAccount>
            }),
    {
        match self.find(k) {
            Some(i) => Some(self.accounts[i]),
            None => None,
        }
    }

    /// The balance of the account with address `k`, if there is one.
    pub fn balance(&self, k: Address) -> (r: Option<u64>)
        requires
            self.wf(),
        ensures
            r == (if holds(self@, k) {
                Some(account_of(self@, k).amount)
            } else {
                None::<u64>
            }),
    {
        match self.find(k) {
            Some(i) => Some(self.accounts[i].amount),
            None => None,
        }
    }

    /// Adds `a` to the ledger; fails with `Duplicate` when its address is taken.
    pub fn open_account(&mut self, a: TokenAccount) -> (r: Result<(), MarketError>)
        requires
            old(self).wf(),
        ensures
            final(self).wf(),
            r is Err <==> holds(old(self)@, a.key),
            r is Err ==> r == Err::<(), MarketError>(MarketError::Duplicate) && final(self)@ == old(self)@,
            r is Ok ==> final(self)@ == old(self)@.push(a),
    {
        match self.find(a.key) {
            Some(_) => Err(MarketError::Duplicate),
            None => {
                self.accounts.push(a);
                Ok(())
            },
        }
    }

    /// Moves `t.amount` tokens from `t.from` to `t.to`, provided both accounts
    /// exist and hold the same token type, `t.authority` owns the source, the
    /// source holds enough, and the destination's balance stays in range.
    pub fn transfer(&mut self, t: &TransferRequest) -> (r: Result<(), MarketError>)
        requires
            old(self).wf(),
        ensures
            final(self).wf(),
            match transfer_result(old(self)@, *t) {
                Ok(s) => r is Ok && final(self)@ == s,
                Err(e) => r == Err::<(), MarketError>(e) && final(self)@ == old(self)@,
            },
    {
        proof {
            lemma_transfer_same_shape(self@, *t);
        }
        let fi = match self.find(t.from) {
            Some(i) => i,
            None => return Err(MarketError::AccountNotFound),
        };
        let ti = match self.find(t.to) {
            Some(i) => i,
            None => return Err(MarketError::AccountNotFound),
        };
        let src = self.accounts[fi];
        let dst = self.accounts[ti];
        if src.mint != dst.mint {
            return Err(MarketError::MintMismatch);
        }
        if src.owner != t.authority {
            return Err(MarketError::OwnerMismatch);
        }
        if src.amount < t.amount {
            return Err(MarketError::InsufficientFunds);
        }
        if fi == ti {
            return Ok(());
        }
        if dst.amount > u64::MAX - t.amount {
            return Err(MarketError::BalanceOverflow);
        }
        self.accounts.set(
            fi,
            TokenAccount { key: src.key, mint: src.mint, owner: src.owner, amount: src.amount - t.amount },
        );
        self.accounts.set(
            ti,
            TokenAccount { key: dst.key, mint: dst.mint, owner: dst.owner, amount: dst.amount + t.amount },
        );
        Ok(())
    }

    /// Issues the transfers `ts` in order and stops at the first refused one.
    /// Transfers settled before a refusal are not reversed.
    pub fn execute(&mut self, ts: &Vec<TransferRequest>) -> (r: Result<(), MarketError>)
        requires
            old(self).wf(),
        ensures
            final(self).wf(),
            (final(self)@, r) == run_transfers(old(self)@, ts@),
    {
        let mut i: usize = 0;
        assert(ts@.subrange(0, ts@.len() as int) =~= ts@);
        while i < ts.len()
            invariant
                self.wf(),
                i <= ts@.len(),
                run_transfers(self@, ts@.subrange(i as int, ts@.len() as int))
                    == run_transfers(old(self)@, ts@),
            decreases ts@.len() - i,
        {
            let ghost rest = ts@.subrange(i as int, ts@.len() as int);
            assert(rest.subrange(1, rest.len() as int) =~= ts@.subrange(i + 1, ts@.len() as int));
            assert(rest[0] == ts@[i as int]);
            match self.transfer(&ts[i]) {
                Ok(()) => {},
                Err(e) => {
                    return Err(e);
                },
            }
            i = i + 1;
        }
        assert(ts@.subrange(i as int, ts@.len() as int) =~= Seq::<TransferRequest>::empty());
        Ok(())
    }
}

} // verus!
