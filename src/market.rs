//! The market record, the accounts each operation is given, and the pure
//! decisions of each operation: the record it writes and the transfers it issues.
use vstd::prelude::*;
use crate::types::{Address, Authority, DerivedAuthority, MarketError};
use crate::ledger::TransferRequest;

verus! {

/// The persistent state of one token-pair market.
#[derive(Clone, Copy, Debug, PartialEq, Eq, Structural)]
pub struct MarketAccount {
    /// The administrator, who created the market and alone may change its price.
    pub authority: Address,
    pub token_mint_a: Address,
    pub token_mint_b: Address,
    /// Units of token B paid out per unit of token A swapped in.
    pub price: u64,
    pub decimals_a: u8,
    pub decimals_b: u8,
    /// Nonce completing the derivation of the market's signing authority.
    pub bump: u8,
}

/// A market record together with its two escrow vaults.
#[derive(Clone, Copy, Debug, PartialEq, Eq, Structural)]
pub struct Market {
    pub record: MarketAccount,
    pub vault_a: Address,
    pub vault_b: Address,
}

/// Accounts for creating a market.
#[derive(Clone, Copy, Debug, PartialEq, Eq, Structural)]
pub struct InitializeMarket {
    pub authority: Address,
    pub token_mint_a: Address,
    pub token_mint_b: Address,
    pub vault_a: Address,
    pub vault_b: Address,
}

/// Accounts for changing a market's price.
#[derive(Clone, Copy, Debug, PartialEq, Eq, Structural)]
pub struct SetPrice {
    pub authority: Address,
    pub token_mint_a: Address,
    pub token_mint_b: Address,
}

/// Accounts for depositing liquidity: the depositor and its two token accounts.
#[derive(Clone, Copy, Debug, PartialEq, Eq, Structural)]
pub struct AddLiquidity {
    pub authority: Address,
    pub token_mint_a: Address,
    pub token_mint_b: Address,
    pub authority_token_a: Address,
    pub authority_token_b: Address,
}

/// Accounts for a swap: the user and its two token accounts.
#[derive(Clone, Copy, Debug, PartialEq, Eq, Structural)]
pub struct Swap {
    pub user: Address,
    pub token_mint_a: Address,
    pub token_mint_b: Address,
    pub user_token_a: Address,
    pub user_token_b: Address,
}

/// The transfers a swap issues, in order, and the failure it reports once
/// they have all settled, if any.
#[derive(Debug)]
pub struct SwapPlan {
    pub transfers: Vec<TransferRequest>,
    pub failure: Option<MarketError>,
}

impl MarketAccount {
    /// The authority the market signs its vaults' outgoing transfers with.
    pub open spec fn signer_spec(self) -> Authority {
        Authority::Derived(
            DerivedAuthority {
                token_mint_a: self.token_mint_a,
                token_mint_b: self.token_mint_b,
                bump: self.bump,
            },
        )
    }

    pub fn signer(&self) -> (r: Authority)
        ensures
            r == self.signer_spec(),
    {
        Authority::Derived(
            DerivedAuthority {
                token_mint_a: self.token_mint_a,
                token_mint_b: self.token_mint_b,
                bump: self.bump,
            },
        )
    }

    /// Sets the price when `caller` is the administrator; any price is accepted.
    pub fn set_price(&mut self, caller: Address, price: u64) -> (r: Result<(), MarketError>)
        ensures
            caller == old(self).authority ==> r is Ok && *final(self) == (MarketAccount {
                price,
                ..*old(self)
            }),
            caller != old(self).authority ==> r == Err::<(), MarketError>(MarketError::Unauthorized)
                && *final(self) == *old(self),
    {
        if caller != self.authority {
            return Err(MarketError::Unauthorized);
        }
        self.price = price;
        Ok(())
    }
}

/// The record a new market starts with.
pub open spec fn record_spec(
    ctx: InitializeMarket,
    price: u64,
    decimals_a: u8,
    decimals_b: u8,
    bump: u8,
) -> MarketAccount {
    MarketAccount {
        authority: ctx.authority,
        token_mint_a: ctx.token_mint_a,
        token_mint_b: ctx.token_mint_b,
        price,
        decimals_a,
        decimals_b,
        bump,
    }
}

/// The record of a new market; its two token types must differ.
pub fn new_market(
    ctx: &InitializeMarket,
    price: u64,
    decimals_a: u8,
    decimals_b: u8,
    bump: u8,
) -> (r: Result<MarketAccount, MarketError>)
    ensures
        ctx.token_mint_a == ctx.token_mint_b ==> r == Err::<MarketAccount, MarketError>(
            MarketError::SameTokenType,
        ),
        ctx.token_mint_a != ctx.token_mint_b ==> r == Ok::<MarketAccount, MarketError>(
            record_spec(*ctx, price, decimals_a, decimals_b, bump),
        ),
{
    if ctx.token_mint_a == ctx.token_mint_b {
        return Err(MarketError::SameTokenType);
    }
    Ok(
        MarketAccount {
            authority: ctx.authority,
            token_mint_a: ctx.token_mint_a,
            token_mint_b: ctx.token_mint_b,
            price,
            decimals_a,
            decimals_b,
            bump,
        },
    )
}

/// The transfers a deposit issues: one per nonzero amount, token A first,
/// each signed by the depositor.
pub open spec fn liquidity_spec(m: Market, ctx: AddLiquidity, amount_a: u64, amount_b: u64) -> Seq<
    TransferRequest,
> {
    let ta = TransferRequest {
        from: ctx.authority_token_a,
        to: m.vault_a,
        authority: Authority::Key(ctx.authority),
        amount: amount_a,
    };
    let tb = TransferRequest {
        from: ctx.authority_token_b,
        to: m.vault_b,
        authority: Authority::Key(ctx.authority),
        amount: amount_b,
    };
    (if amount_a > 0 {
        seq![ta]
    } else {
        Seq::empty()
    }) + (if amount_b > 0 {
        seq![tb]
    } else {
        Seq::empty()
    })
}

pub fn liquidity_transfers(m: &Market, ctx: &AddLiquidity, amount_a: u64, amount_b: u64) -> (r: Vec<
    TransferRequest,
>)
    ensures
        r@ == liquidity_spec(*m, *ctx, amount_a, amount_b),
{
    let mut r: Vec<TransferRequest> = Vec::new();
    if amount_a > 0 {
        r.push(
            TransferRequest {
                from: ctx.authority_token_a,
                to: m.vault_a,
                authority: Authority::Key(ctx.authority),
                amount: amount_a,
            },
        );
    }
    if amount_b > 0 {
        r.push(
            TransferRequest {
                from: ctx.authority_token_b,
                to: m.vault_b,
                authority: Authority::Key(ctx.authority),
                amount: amount_b,
            },
        );
    }
    proof {
        let s = liquidity_spec(*m, *ctx, amount_a, amount_b);
        assert(r@ =~= s);
    }
    r
}

/// Token B owed for `amount` of token A at `price`: the exact product, or
/// `Overflow` when it does not fit in 64 bits.
pub fn quote_a_to_b(price: u64, amount: u64) -> (r: Result<u64, MarketError>)
    ensures
        amount * price <= u64::MAX ==> r == Ok::<u64, MarketError>((amount * price) as u64),
        amount * price > u64::MAX ==> r == Err::<u64, MarketError>(MarketError::Overflow),
{
    match amount.checked_mul(price) {
        Some(v) => Ok(v),
        None => Err(MarketError::Overflow),
    }
}

/// Token A owed for `amount` of token B at `price`: the quotient rounded
/// down, or `ZeroRate` when the price is zero.
pub fn quote_b_to_a(price: u64, amount: u64) -> (r: Result<u64, MarketError>)
    ensures
        price == 0 ==> r == Err::<u64, MarketError>(MarketError::ZeroRate),
        price > 0 ==> r == Ok::<u64, MarketError>((amount / price) as u64),
{
    if price == 0 {
        return Err(MarketError::ZeroRate);
    }
    Ok(amount / price)
}

/// What a swap issues. From A to B: the user pays `amount` of token A into
/// vault A, then vault B pays `amount * price` of token B to the user under
/// the market's signature; an overflowing product fails after the payment in.
/// From B to A: refused up front on a zero price; else the user pays `amount`
/// of token B into vault B, then vault A pays `amount / price` (rounded down).
pub open spec fn swap_spec(m: Market, ctx: Swap, amount: u64, a_to_b: bool) -> (
    Seq<TransferRequest>,
    Option<MarketError>,
) {
    let price = m.record.price;
    if a_to_b {
        let pay_in = TransferRequest {
            from: ctx.user_token_a,
            to: m.vault_a,
            authority: Authority::Key(ctx.user),
            amount,
        };
        if amount * price > u64::MAX {
            (seq![pay_in], Some(MarketError::Overflow))
        } else {
            let pay_out = TransferRequest {
                from: m.vault_b,
                to: ctx.user_token_b,
                authority: m.record.signer_spec(),
                amount: (amount * price) as u64,
            };
            (seq![pay_in, pay_out], None)
        }
    } else if price == 0 {
        (Seq::empty(), Some(MarketError::ZeroRate))
    } else {
        let pay_in = TransferRequest {
            from: ctx.user_token_b,
            to: m.vault_b,
            authority: Authority::Key(ctx.user),
            amount,
        };
        let pay_out = TransferRequest {
            from: m.vault_a,
            to: ctx.user_token_a,
            authority: m.record.signer_spec(),
            amount: (amount / price) as u64,
        };
        (seq![pay_in, pay_out], None)
    }
}

pub fn swap_plan(m: &Market, ctx: &Swap, amount: u64, a_to_b: bool) -> (r: SwapPlan)
    ensures
        (r.transfers@, r.failure) == swap_spec(*m, *ctx, amount, a_to_b),
{
    let mut transfers: Vec<TransferRequest> = Vec::new();
    let price = m.record.price;
    if a_to_b {
        transfers.push(
            TransferRequest {
                from: ctx.user_token_a,
                to: m.vault_a,
                authority: Authority::Key(ctx.user),
                amount,
            },
        );
        match quote_a_to_b(price, amount) {
            Err(e) => {
                proof {
                    assert(transfers@ =~= swap_spec(*m, *ctx, amount, a_to_b).0);
                }
                SwapPlan { transfers, failure: Some(e) }
            },
            Ok(out) => {
                transfers.push(
                    TransferRequest {
                        from: m.vault_b,
                        to: ctx.user_token_b,
                        authority: m.record.signer(),
                        amount: out,
                    },
                );
                proof {
                    assert(transfers@ =~= swap_spec(*m, *ctx, amount, a_to_b).0);
                }
                SwapPlan { transfers, failure: None }
            },
        }
    } else {
        match quote_b_to_a(price, amount) {
            Err(e) => {
                proof {
                    assert(transfers@ =~= swap_spec(*m, *ctx, amount, a_to_b).0);
                }
                SwapPlan { transfers, failure: Some(e) }
            },
            Ok(out) => {
                transfers.push(
                    TransferRequest {
                        from: ctx.user_token_b,
                        to: m.vault_b,
                        authority: Authority::Key(ctx.user),
                        amount,
                    },
                );
                transfers.push(
                    TransferRequest {
                        from: m.vault_a,
                        to: ctx.user_token_a,
                        authority: m.record.signer(),
                        amount: out,
                    },
                );
                proof {
                    assert(transfers@ =~= swap_spec(*m, *ctx, amount, a_to_b).0);
                }
                SwapPlan { transfers, failure: None }
            },
        }
    }
}

} // verus!
