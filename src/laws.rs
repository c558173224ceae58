//! Laws relating the market operations to one another.
use vstd::prelude::*;
use crate::types::{Authority, MarketError};
use crate::ledger::{
    account_of, keys_unique, lemma_key_transfers_keep_derived, run_transfers, transfer_result,
    TokenAccount, TransferRequest,
};
use crate::market::{liquidity_spec, swap_spec, AddLiquidity, InitializeMarket, Market, SetPrice, Swap};
use crate::exchange::{
    created_accounts, created_market, has_market, init_refusal, is_pair, market_of, market_pos,
    pairs_unique, set_price_result, settle, all_vaults_ok,
};

verus! {

/// Once a market has been created for an ordered pair, creating one for the
/// same pair again is refused with `Duplicate`, whatever else it names.
pub proof fn lemma_initialize_twice_is_duplicate(
    ms: Seq<Market>,
    s: Seq<TokenAccount>,
    ctx: InitializeMarket,
    again: InitializeMarket,
    price: u64,
    decimals_a: u8,
    decimals_b: u8,
    bump: u8,
)
    requires
        init_refusal(ms, s, ctx) is None,
        again.token_mint_a == ctx.token_mint_a,
        again.token_mint_b == ctx.token_mint_b,
    ensures
        init_refusal(
            ms.push(created_market(ctx, price, decimals_a, decimals_b, bump)),
            created_accounts(s, ctx, bump),
            again,
        ) == Some(MarketError::Duplicate),
{
    let ms2 = ms.push(created_market(ctx, price, decimals_a, decimals_b, bump));
    assert(is_pair(ms2[ms.len() as int], ctx.token_mint_a, ctx.token_mint_b));
    assert(has_market(ms2, again.token_mint_a, again.token_mint_b));
}

/// A price change by the administrator of an existing market succeeds, and
/// the market then reads exactly that price; by anyone else it is refused
/// with `Unauthorized`.
pub proof fn lemma_set_price_then_read(ms: Seq<Market>, ctx: SetPrice, price: u64)
    requires
        pairs_unique(ms),
        has_market(ms, ctx.token_mint_a, ctx.token_mint_b),
    ensures
        ctx.authority == market_of(ms, ctx.token_mint_a, ctx.token_mint_b).record.authority ==> {
            let r = set_price_result(ms, ctx, price);
            &&& r is Ok
            &&& has_market(r->Ok_0, ctx.token_mint_a, ctx.token_mint_b)
            &&& market_of(r->Ok_0, ctx.token_mint_a, ctx.token_mint_b).record.price == price
        },
        ctx.authority != market_of(ms, ctx.token_mint_a, ctx.token_mint_b).record.authority
            ==> set_price_result(ms, ctx, price) == Err::<Seq<Market>, MarketError>(
            MarketError::Unauthorized,
        ),
{
    let (a, b) = (ctx.token_mint_a, ctx.token_mint_b);
    let p: int = market_pos(ms, a, b);
    if ctx.authority == market_of(ms, a, b).record.authority {
        let ms2 = set_price_result(ms, ctx, price)->Ok_0;
        assert(is_pair(ms2[p], a, b));
        assert(has_market(ms2, a, b));
        let q: int = market_pos(ms2, a, b);
        if q != p {
            assert(ms2[q] == ms[q]);
            assert(false);
        }
    }
}

/// A deposit issues one transfer for each nonzero amount and none for a
/// zero one: a deposit of two zero amounts changes no account and succeeds.
pub proof fn lemma_liquidity_skips_zero_amounts(
    m: Market,
    ctx: AddLiquidity,
    amount_a: u64,
    amount_b: u64,
    s: Seq<TokenAccount>,
)
    ensures
        liquidity_spec(m, ctx, amount_a, amount_b).len() == (if amount_a > 0 {
            1int
        } else {
            0int
        }) + (if amount_b > 0 {
            1int
        } else {
            0int
        }),
        amount_a == 0 && amount_b > 0 ==> liquidity_spec(m, ctx, amount_a, amount_b) == seq![
            TransferRequest {
                from: ctx.authority_token_b,
                to: m.vault_b,
                authority: Authority::Key(ctx.authority),
                amount: amount_b,
            },
        ],
        amount_a == 0 && amount_b == 0 ==> run_transfers(
            s,
            liquidity_spec(m, ctx, amount_a, amount_b),
        ) == (s, Ok::<(), MarketError>(())),
{
    let ts = liquidity_spec(m, ctx, amount_a, amount_b);
    if amount_a == 0 && amount_b > 0 {
        assert(ts =~= seq![
            TransferRequest {
                from: ctx.authority_token_b,
                to: m.vault_b,
                authority: Authority::Key(ctx.authority),
                amount: amount_b,
            },
        ]);
    }
    if amount_a == 0 && amount_b == 0 {
        assert(ts =~= Seq::<TransferRequest>::empty());
    }
}

/// A swap from A to B whose payment in is accepted and whose payout is
/// refused fails with the payout's error, and the payment stays settled:
/// nothing is reversed.
pub proof fn lemma_refused_payout_keeps_payment(
    m: Market,
    ctx: Swap,
    amount: u64,
    s: Seq<TokenAccount>,
)
    requires
        amount * m.record.price <= u64::MAX,
        transfer_result(s, swap_spec(m, ctx, amount, true).0[0]) is Ok,
        transfer_result(
            transfer_result(s, swap_spec(m, ctx, amount, true).0[0])->Ok_0,
            swap_spec(m, ctx, amount, true).0[1],
        ) is Err,
    ensures
        ({
            let plan = swap_spec(m, ctx, amount, true);
            let paid = transfer_result(s, plan.0[0])->Ok_0;
            settle(s, plan.0, plan.1) == (paid, Err::<(), MarketError>(
                transfer_result(paid, plan.0[1])->Err_0,
            ))
        }),
{
    let plan = swap_spec(m, ctx, amount, true);
    let ts = plan.0;
    let paid = transfer_result(s, ts[0])->Ok_0;
    let rest = ts.subrange(1, ts.len() as int);
    assert(rest[0] == ts[1]);
    assert(run_transfers(s, ts) == run_transfers(paid, rest));
    assert(run_transfers(paid, rest) == (paid, Err::<(), MarketError>(
        transfer_result(paid, ts[1])->Err_0,
    )));
}

/// A deposit never lowers the balance of any market's vault: its transfers
/// are signed by the depositor's key, and vaults answer only to their
/// market's derived authority.
pub proof fn lemma_deposit_never_lowers_vaults(
    ms: Seq<Market>,
    s: Seq<TokenAccount>,
    ctx: AddLiquidity,
    amount_a: u64,
    amount_b: u64,
    j: int,
)
    requires
        keys_unique(s),
        all_vaults_ok(ms, s),
        has_market(ms, ctx.token_mint_a, ctx.token_mint_b),
        0 <= j < ms.len(),
    ensures
        ({
            let m = market_of(ms, ctx.token_mint_a, ctx.token_mint_b);
            let s2 = run_transfers(s, liquidity_spec(m, ctx, amount_a, amount_b)).0;
            &&& account_of(s2, ms[j].vault_a).amount >= account_of(s, ms[j].vault_a).amount
            &&& account_of(s2, ms[j].vault_b).amount >= account_of(s, ms[j].vault_b).amount
        }),
{
    let m = market_of(ms, ctx.token_mint_a, ctx.token_mint_b);
    let ts = liquidity_spec(m, ctx, amount_a, amount_b);
    assert(all_vaults_ok(ms, s) ==> crate::exchange::vaults_ok(s, ms[j]));
    assert forall|i: int| 0 <= i < ts.len() implies (#[trigger] ts[i]).authority is Key by {}
    lemma_key_transfers_keep_derived(s, ts, ms[j].vault_a);
    lemma_key_transfers_keep_derived(s, ts, ms[j].vault_b);
}

} // verus!
