//! The markets and token accounts of one environment, and the four market
//! operations run against them.
use vstd::prelude::*;
use crate::types::{Address, Authority, MarketError};
use crate::ledger::{
    account_of, holds, keys_unique, lemma_push_finds_last, lemma_push_keeps_account,
    lemma_run_same_shape, lemma_same_shape_account, run_transfers, same_shape, TokenAccount,
    TokenLedger, TransferRequest,
};
use crate::market::{
    liquidity_spec, liquidity_transfers, new_market, record_spec, swap_plan, swap_spec,
    AddLiquidity, InitializeMarket, Market, MarketAccount, SetPrice, Swap,
};

verus! {

/// No two markets share an ordered pair of token types.
pub open spec fn pairs_unique(ms: Seq<Market>) -> bool {
    forall|i: int, j: int|
        0 <= i < ms.len() && 0 <= j < ms.len() && i != j ==> !(ms[i].record.token_mint_a
            == ms[j].record.token_mint_a && ms[i].record.token_mint_b
            == ms[j].record.token_mint_b)
}

pub open spec fn is_pair(m: Market, a: Address, b: Address) -> bool {
    m.record.token_mint_a == a && m.record.token_mint_b == b
}

/// A market exists for the ordered pair `(a, b)`.
pub open spec fn has_market(ms: Seq<Market>, a: Address, b: Address) -> bool {
    exists|i: int| 0 <= i < ms.len() && is_pair(ms[i], a, b)
}

pub open spec fn market_pos(ms: Seq<Market>, a: Address, b: Address) -> int {
    choose|i: int| 0 <= i < ms.len() && is_pair(ms[i], a, b)
}

/// The market of the ordered pair `(a, b)`.
pub open spec fn market_of(ms: Seq<Market>, a: Address, b: Address) -> Market {
    ms[market_pos(ms, a, b)]
}

/// Both vaults of `m` exist, are distinct, hold the market's token types,
/// and are owned by the market's derived authority, never by a key.
pub open spec fn vaults_ok(s: Seq<TokenAccount>, m: Market) -> bool {
    &&& m.vault_a != m.vault_b
    &&& holds(s, m.vault_a)
    &&& holds(s, m.vault_b)
    &&& account_of(s, m.vault_a).mint == m.record.token_mint_a
    &&& account_of(s, m.vault_b).mint == m.record.token_mint_b
    &&& account_of(s, m.vault_a).owner == m.record.signer_spec()
    &&& account_of(s, m.vault_b).owner == m.record.signer_spec()
}

/// Every market's vaults are in order.
pub open spec fn all_vaults_ok(ms: Seq<Market>, s: Seq<TokenAccount>) -> bool {
    forall|i: int| 0 <= i < ms.len() ==> vaults_ok(s, #[trigger] ms[i])
}

/// Vaults stay in order when only balances change.
pub proof fn lemma_vaults_ok_same_shape(
    ms: Seq<Market>,
    s: Seq<TokenAccount>,
    s2: Seq<TokenAccount>,
)
    requires
        keys_unique(s),
        all_vaults_ok(ms, s),
        same_shape(s, s2),
    ensures
        all_vaults_ok(ms, s2),
{
    assert forall|i: int| 0 <= i < ms.len() implies vaults_ok(s2, #[trigger] ms[i]) by {
        lemma_same_shape_account(s, s2, ms[i].vault_a);
        lemma_same_shape_account(s, s2, ms[i].vault_b);
    }
}

/// Vaults stay in order when an account is added.
pub proof fn lemma_vaults_ok_push(ms: Seq<Market>, s: Seq<TokenAccount>, a: TokenAccount)
    requires
        keys_unique(s.push(a)),
        all_vaults_ok(ms, s),
    ensures
        all_vaults_ok(ms, s.push(a)),
{
    assert forall|i: int| 0 <= i < ms.len() implies vaults_ok(s.push(a), #[trigger] ms[i]) by {
        lemma_push_keeps_account(s, a, ms[i].vault_a);
        lemma_push_keeps_account(s, a, ms[i].vault_b);
    }
}

/// An empty escrow vault for token type `mint`, owned by `owner`.
pub open spec fn vault_spec(key: Address, mint: Address, owner: Authority) -> TokenAccount {
    TokenAccount { key, mint, owner, amount: 0 }
}

/// Why creating a market is refused, if it is: equal token types, or a
/// market for the pair or an account at a vault address already existing.
pub open spec fn init_refusal(ms: Seq<Market>, s: Seq<TokenAccount>, ctx: InitializeMarket) -> Option<
    MarketError,
> {
    if ctx.token_mint_a == ctx.token_mint_b {
        Some(MarketError::SameTokenType)
    } else if has_market(ms, ctx.token_mint_a, ctx.token_mint_b) || ctx.vault_a == ctx.vault_b
        || holds(s, ctx.vault_a) || holds(s, ctx.vault_b) {
        Some(MarketError::Duplicate)
    } else {
        None
    }
}

/// The market that creation adds.
pub open spec fn created_market(
    ctx: InitializeMarket,
    price: u64,
    decimals_a: u8,
    decimals_b: u8,
    bump: u8,
) -> Market {
    Market {
        record: record_spec(ctx, price, decimals_a, decimals_b, bump),
        vault_a: ctx.vault_a,
        vault_b: ctx.vault_b,
    }
}

/// The accounts after creation: the two vaults, owned by the market's
/// derived authority, appended.
pub open spec fn created_accounts(
    s: Seq<TokenAccount>,
    ctx: InitializeMarket,
    bump: u8,
) -> Seq<TokenAccount> {
    let owner = record_spec(ctx, 0, 0, 0, bump).signer_spec();
    s.push(vault_spec(ctx.vault_a, ctx.token_mint_a, owner)).push(
        vault_spec(ctx.vault_b, ctx.token_mint_b, owner),
    )
}

/// The markets after a price change, or why it is refused.
pub open spec fn set_price_result(ms: Seq<Market>, ctx: SetPrice, price: u64) -> Result<
    Seq<Market>,
    MarketError,
> {
    if !has_market(ms, ctx.token_mint_a, ctx.token_mint_b) {
        Err(MarketError::MarketNotFound)
    } else {
        let m = market_of(ms, ctx.token_mint_a, ctx.token_mint_b);
        if ctx.authority != m.record.authority {
            Err(MarketError::Unauthorized)
        } else {
            Ok(
                ms.update(
                    market_pos(ms, ctx.token_mint_a, ctx.token_mint_b),
                    Market { record: MarketAccount { price, ..m.record }, ..m },
                ),
            )
        }
    }
}

/// The accounts after issuing `ts` and then reporting `failure`, if any
/// was planned and every transfer settled.
pub open spec fn settle(s: Seq<TokenAccount>, ts: Seq<TransferRequest>, failure: Option<MarketError>) -> (
    Seq<TokenAccount>,
    Result<(), MarketError>,
) {
    let (s2, r) = run_transfers(s, ts);
    if r is Ok && failure is Some {
        (s2, Err(failure->Some_0))
    } else {
        (s2, r)
    }
}

/// The markets of an environment, keyed by ordered token pair, and its
/// token accounts.
pub struct Exchange {
    markets: Vec<Market>,
    ledger: TokenLedger,
}

impl Exchange {
    pub closed spec fn markets(&self) -> Seq<Market> {
        self.markets@
    }

    pub closed spec fn accounts(&self) -> Seq<TokenAccount> {
        self.ledger@
    }

    /// Market pairs and account addresses are unique, and every market's
    /// vaults are in order.
    pub open spec fn wf(&self) -> bool {
        &&& pairs_unique(self.markets())
        &&& keys_unique(self.accounts())
        &&& all_vaults_ok(self.markets(), self.accounts())
    }

    /// An environment with no markets and no accounts.
    pub fn new() -> (r: Exchange)
        ensures
            r.wf(),
            r.markets() == Seq::<Market>::empty(),
            r.accounts() == Seq::<TokenAccount>::empty(),
    {
        Exchange { markets: Vec::new(), ledger: TokenLedger::new() }
    }

    fn find_market(&self, a: Address, b: Address) -> (r: Option<usize>)
        requires
            self.wf(),
        ensures
            r is None <==> !has_market(self.markets(), a, b),
            r matches Some(i) ==> i < self.markets().len() && market_pos(self.markets(), a, b)
                == i,
    {
        let mut i: usize = 0;
        while i < self.markets.len()
            invariant
                self.wf(),
                i <= self.markets@.len(),
                forall|j: int| 0 <= j < i ==> !is_pair(#[trigger] self.markets@[j], a, b),
            decreases self.markets@.len() - i,
        {
            let m = self.markets[i];
            if m.record.token_mint_a == a && m.record.token_mint_b == b {
                proof {
                    assert(has_market(self.markets(), a, b));
                }
                return Some(i);
            }
            i = i + 1;
        }
        None
    }

    /// The market of the ordered pair `(a, b)`, if there is one.
    pub fn market(&self, a: Address, b: Address) -> (r: Option<Market>)
        requires
            self.wf(),
        ensures
            r == (if has_market(self.markets(), a, b) {
                Some(market_of(self.markets(), a, b))
            } else {
                None::<Market>
            }),
    {
        match self.find_market(a, b) {
            Some(i) => Some(self.markets[i]),
            None => None,
        }
    }

    /// The balance of the token account at `k`, if there is one.
    pub fn balance(&self, k: Address) -> (r: Option<u64>)
        requires
            self.wf(),
        ensures
            r == (if holds(self.accounts(), k) {
                Some(crate::ledger::account_of(self.accounts(), k).amount)
            } else {
                None::<u64>
            }),
    {
        self.ledger.balance(k)
    }

    /// Adds a token account; fails with `Duplicate` when its address is taken.
    pub fn open_account(&mut self, a: TokenAccount) -> (r: Result<(), MarketError>)
        requires
            old(self).wf(),
        ensures
            final(self).wf(),
            final(self).markets() == old(self).markets(),
            r is Err <==> holds(old(self).accounts(), a.key),
            r is Err ==> r == Err::<(), MarketError>(MarketError::Duplicate)
                && final(self).accounts() == old(self).accounts(),
            r is Ok ==> final(self).accounts() == old(self).accounts().push(a),
    {
        let r = self.ledger.open_account(a);
        proof {
            if r is Ok {
                lemma_vaults_ok_push(self.markets@, old(self).ledger@, a);
            }
        }
        r
    }
}

/// Creates the market of `ctx`'s ordered token pair together with its two
/// empty escrow vaults, owned by the market's derived authority. Creation is
/// create-only: an existing market for the pair, or an existing account at a
/// vault address, refuses it with `Duplicate`; equal token types refuse it
/// with `SameTokenType`. A refusal changes nothing.
pub fn initialize_market(
    exchange: &mut Exchange,
    ctx: &InitializeMarket,
    price: u64,
    decimals_a: u8,
    decimals_b: u8,
    bump: u8,
) -> (r: Result<(), MarketError>)
    requires
        old(exchange).wf(),
    ensures
        final(exchange).wf(),
        match init_refusal(old(exchange).markets(), old(exchange).accounts(), *ctx) {
            Some(e) => r == Err::<(), MarketError>(e) && final(exchange).markets() == old(
                exchange,
            ).markets() && final(exchange).accounts() == old(exchange).accounts(),
            None => r is Ok && final(exchange).markets() == old(exchange).markets().push(
                created_market(*ctx, price, decimals_a, decimals_b, bump),
            ) && final(exchange).accounts() == created_accounts(
                old(exchange).accounts(),
                *ctx,
                bump,
            ),
        },
{
    let record = match new_market(ctx, price, decimals_a, decimals_b, bump) {
        Ok(m) => m,
        Err(e) => return Err(e),
    };
    if exchange.find_market(ctx.token_mint_a, ctx.token_mint_b).is_some() {
        return Err(MarketError::Duplicate);
    }
    if ctx.vault_a == ctx.vault_b || exchange.ledger.find(ctx.vault_a).is_some()
        || exchange.ledger.find(ctx.vault_b).is_some() {
        return Err(MarketError::Duplicate);
    }
    let owner = record.signer();
    let ghost s0 = exchange.ledger@;
    let _ = exchange.ledger.open_account(
        TokenAccount { key: ctx.vault_a, mint: ctx.token_mint_a, owner, amount: 0 },
    );
    let _ = exchange.ledger.open_account(
        TokenAccount { key: ctx.vault_b, mint: ctx.token_mint_b, owner, amount: 0 },
    );
    proof {
        let s1 = s0.push(vault_spec(ctx.vault_a, ctx.token_mint_a, owner));
        assert(!holds(s1, ctx.vault_b)) by {
            if holds(s1, ctx.vault_b) {
                let i = choose|i: int| 0 <= i < s1.len() && s1[i].key == ctx.vault_b;
                if i < s0.len() {
                    assert(s0[i] == s1[i]);
                }
            }
        }
    }
    let ghost ms0 = exchange.markets@;
    exchange.markets.push(Market { record, vault_a: ctx.vault_a, vault_b: ctx.vault_b });
    proof {
        let s1 = s0.push(vault_spec(ctx.vault_a, ctx.token_mint_a, owner));
        let va = vault_spec(ctx.vault_a, ctx.token_mint_a, owner);
        let vb = vault_spec(ctx.vault_b, ctx.token_mint_b, owner);
        let s2 = s1.push(vb);
        assert(keys_unique(s1)) by {
            assert(s2.subrange(0, s1.len() as int) =~= s1);
        }
        lemma_push_finds_last(s1, vb);
        lemma_push_finds_last(s0, va);
        lemma_push_keeps_account(s1, vb, ctx.vault_a);
        let ms1 = exchange.markets@;
        assert forall|i: int| 0 <= i < ms1.len() implies vaults_ok(s2, #[trigger] ms1[i]) by {
            if i < ms0.len() {
                assert(ms1[i] == ms0[i]);
                assert(vaults_ok(s0, ms0[i]));
                lemma_push_keeps_account(s0, va, ms0[i].vault_a);
                lemma_push_keeps_account(s0, va, ms0[i].vault_b);
                lemma_push_keeps_account(s1, vb, ms0[i].vault_a);
                lemma_push_keeps_account(s1, vb, ms0[i].vault_b);
            }
        }
        assert forall|i: int, j: int|
            0 <= i < ms1.len() && 0 <= j < ms1.len() && i != j implies !(
            ms1[i].record.token_mint_a == ms1[j].record.token_mint_a
                && ms1[i].record.token_mint_b == ms1[j].record.token_mint_b) by {
            if i == ms0.len() as int {
                assert(!is_pair(ms0[j], ctx.token_mint_a, ctx.token_mint_b));
            }
            if j == ms0.len() as int {
                assert(!is_pair(ms0[i], ctx.token_mint_a, ctx.token_mint_b));
            }
        }
    }
    Ok(())
}

/// Sets the price of `ctx`'s market to `price`, any value, when `ctx.authority`
/// is its administrator; otherwise fails with `Unauthorized`, or with
/// `MarketNotFound` when the pair has no market. Token accounts do not change.
pub fn set_price(exchange: &mut Exchange, ctx: &SetPrice, price: u64) -> (r: Result<
    (),
    MarketError,
>)
    requires
        old(exchange).wf(),
    ensures
        final(exchange).wf(),
        final(exchange).accounts() == old(exchange).accounts(),
        match set_price_result(old(exchange).markets(), *ctx, price) {
            Ok(ms) => r is Ok && final(exchange).markets() == ms,
            Err(e) => r == Err::<(), MarketError>(e) && final(exchange).markets() == old(
                exchange,
            ).markets(),
        },
{
    let i = match exchange.find_market(ctx.token_mint_a, ctx.token_mint_b) {
        Some(i) => i,
        None => return Err(MarketError::MarketNotFound),
    };
    let mut m = exchange.markets[i];
    match m.record.set_price(ctx.authority, price) {
        Ok(()) => {},
        Err(e) => return Err(e),
    }
    let ghost ms0 = exchange.markets@;
    exchange.markets.set(i, m);
    proof {
        let ms1 = exchange.markets@;
        assert forall|j: int| 0 <= j < ms1.len() implies #[trigger] ms1[j].record.token_mint_a
            == ms0[j].record.token_mint_a && ms1[j].record.token_mint_b
            == ms0[j].record.token_mint_b by {}
    }
    Ok(())
}

/// Deposits into the vaults of `ctx`'s market: one transfer per nonzero
/// amount, token A first, signed by the depositor, stopping at the first
/// refused transfer. A deposit settled before a refusal stays; nothing is
/// recorded for the depositor. Fails with `MarketNotFound` when the pair has
/// no market.
pub fn add_liquidity(
    exchange: &mut Exchange,
    ctx: &AddLiquidity,
    amount_a: u64,
    amount_b: u64,
) -> (r: Result<(), MarketError>)
    requires
        old(exchange).wf(),
    ensures
        final(exchange).wf(),
        final(exchange).markets() == old(exchange).markets(),
        !has_market(old(exchange).markets(), ctx.token_mint_a, ctx.token_mint_b) ==> r == Err::<
            (),
            MarketError,
        >(MarketError::MarketNotFound) && final(exchange).accounts() == old(exchange).accounts(),
        has_market(old(exchange).markets(), ctx.token_mint_a, ctx.token_mint_b) ==> (
        final(exchange).accounts(),
        r,
        ) == run_transfers(
            old(exchange).accounts(),
            liquidity_spec(
                market_of(old(exchange).markets(), ctx.token_mint_a, ctx.token_mint_b),
                *ctx,
                amount_a,
                amount_b,
            ),
        ),
{
    let i = match exchange.find_market(ctx.token_mint_a, ctx.token_mint_b) {
        Some(i) => i,
        None => return Err(MarketError::MarketNotFound),
    };
    let m = exchange.markets[i];
    let ts = liquidity_transfers(&m, ctx, amount_a, amount_b);
    proof {
        lemma_run_same_shape(exchange.ledger@, ts@);
        lemma_vaults_ok_same_shape(
            exchange.markets@,
            exchange.ledger@,
            run_transfers(exchange.ledger@, ts@).0,
        );
    }
    exchange.ledger.execute(&ts)
}

/// Swaps `amount` of one token of `ctx`'s market for the other at the
/// market's price, as `swap_spec` lays out: the user's payment into a vault
/// comes first, then the vault's payment to the user under the market's
/// derived authority. A payment settled before a failure stays. Fails with
/// `MarketNotFound` when the pair has no market.
pub fn swap(exchange: &mut Exchange, ctx: &Swap, amount: u64, a_to_b: bool) -> (r: Result<
    (),
    MarketError,
>)
    requires
        old(exchange).wf(),
    ensures
        final(exchange).wf(),
        final(exchange).markets() == old(exchange).markets(),
        !has_market(old(exchange).markets(), ctx.token_mint_a, ctx.token_mint_b) ==> r == Err::<
            (),
            MarketError,
        >(MarketError::MarketNotFound) && final(exchange).accounts() == old(exchange).accounts(),
        has_market(old(exchange).markets(), ctx.token_mint_a, ctx.token_mint_b) ==> ({
            let plan = swap_spec(
                market_of(old(exchange).markets(), ctx.token_mint_a, ctx.token_mint_b),
                *ctx,
                amount,
                a_to_b,
            );
            (final(exchange).accounts(), r) == settle(old(exchange).accounts(), plan.0, plan.1)
        }),
{
    let i = match exchange.find_market(ctx.token_mint_a, ctx.token_mint_b) {
        Some(i) => i,
        None => return Err(MarketError::MarketNotFound),
    };
    let m = exchange.markets[i];
    let plan = swap_plan(&m, ctx, amount, a_to_b);
    proof {
        lemma_run_same_shape(exchange.ledger@, plan.transfers@);
        lemma_vaults_ok_same_shape(
            exchange.markets@,
            exchange.ledger@,
            run_transfers(exchange.ledger@, plan.transfers@).0,
        );
    }
    let res = exchange.ledger.execute(&plan.transfers);
    match plan.failure {
        Some(e) => if res.is_ok() {
            Err(e)
        } else {
            res
        },
        None => res,
    }
}

} // verus!
