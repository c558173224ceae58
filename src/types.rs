//! Identities, signing authorities and errors shared by the whole market.
use vstd::prelude::*;

verus! {

/// A 256-bit account address, held as two 128-bit halves.
#[derive(Clone, Copy, Debug, PartialEq, Eq, Structural)]
pub struct Address {
    pub hi: u128,
    pub lo: u128,
}

/// Seed material from which a market's signing authority is derived:
/// the fixed market tag, the two token types and the derivation nonce.
/// Vaults created under these seeds accept it in place of a key signature.
#[derive(Clone, Copy, Debug, PartialEq, Eq, Structural)]
pub struct DerivedAuthority {
    pub token_mint_a: Address,
    pub token_mint_b: Address,
    pub bump: u8,
}

/// Who may move tokens out of an account: a key holder, or a market
/// acting through its derived authority.
#[derive(Clone, Copy, Debug, PartialEq, Eq, Structural)]
pub enum Authority {
    Key(Address),
    Derived(DerivedAuthority),
}

/// Every way a market operation can fail.
#[derive(Clone, Copy, Debug, PartialEq, Eq, Structural)]
pub enum MarketError {
    /// Both token types of a new market are the same.
    SameTokenType,
    /// A market for this ordered pair, or one of its vault accounts, already exists.
    Duplicate,
    /// No market exists for this ordered pair.
    MarketNotFound,
    /// The caller is not the market's administrator.
    Unauthorized,
    /// A transfer names an account that does not exist.
    AccountNotFound,
    /// A transfer's two accounts hold different token types.
    MintMismatch,
    /// A transfer is not authorized by the owner of its source account.
    OwnerMismatch,
    /// A transfer's source account holds less than the amount.
    InsufficientFunds,
    /// A swap's payout, the amount times the price, does not fit in 64 bits.
    Overflow,
    /// A transfer would take its destination's balance past the 64-bit maximum.
    BalanceOverflow,
    /// A reverse swap was asked of a market whose rate is zero.
    ZeroRate,
}

} // verus!
