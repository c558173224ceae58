use solana_swap_2025::{
    add_liquidity, initialize_market, liquidity_transfers, new_market, quote_a_to_b, quote_b_to_a,
    set_price, swap, swap_plan, AddLiquidity, Address, Authority, DerivedAuthority, Exchange,
    InitializeMarket, MarketError, SetPrice, Swap, TokenAccount, TokenLedger, TransferRequest,
};

fn addr(n: u128) -> Address {
    Address { hi: 0, lo: n }
}

const ADMIN: u128 = 1;
const USER: u128 = 2;
const MINT_A: u128 = 10;
const MINT_B: u128 = 11;
const VAULT_A: u128 = 20;
const VAULT_B: u128 = 21;
const USER_A: u128 = 30;
const USER_B: u128 = 31;
const ADMIN_A: u128 = 40;
const ADMIN_B: u128 = 41;

fn init_ctx() -> InitializeMarket {
    InitializeMarket {
        authority: addr(ADMIN),
        token_mint_a: addr(MINT_A),
        token_mint_b: addr(MINT_B),
        vault_a: addr(VAULT_A),
        vault_b: addr(VAULT_B),
    }
}

fn deposit_ctx() -> AddLiquidity {
    AddLiquidity {
        authority: addr(ADMIN),
        token_mint_a: addr(MINT_A),
        token_mint_b: addr(MINT_B),
        authority_token_a: addr(ADMIN_A),
        authority_token_b: addr(ADMIN_B),
    }
}

fn swap_ctx() -> Swap {
    Swap {
        user: addr(USER),
        token_mint_a: addr(MINT_A),
        token_mint_b: addr(MINT_B),
        user_token_a: addr(USER_A),
        user_token_b: addr(USER_B),
    }
}

fn account(key: u128, mint: u128, owner: u128, amount: u64) -> TokenAccount {
    TokenAccount { key: addr(key), mint: addr(mint), owner: Authority::Key(addr(owner)), amount }
}

/// A market at `price` whose vault B holds `vault_b`, a user holding 100 of
/// token A and 50 of token B, and an administrator holding 1000 of each.
fn market_with(price: u64, vault_b: u64) -> Exchange {
    let mut ex = Exchange::new();
    assert_eq!(initialize_market(&mut ex, &init_ctx(), price, 6, 6, 254), Ok(()));
    assert_eq!(ex.open_account(account(USER_A, MINT_A, USER, 100)), Ok(()));
    assert_eq!(ex.open_account(account(USER_B, MINT_B, USER, 50)), Ok(()));
    assert_eq!(ex.open_account(account(ADMIN_A, MINT_A, ADMIN, 1000)), Ok(()));
    assert_eq!(ex.open_account(account(ADMIN_B, MINT_B, ADMIN, 1000)), Ok(()));
    assert_eq!(add_liquidity(&mut ex, &deposit_ctx(), 0, vault_b), Ok(()));
    ex
}

fn bal(ex: &Exchange, k: u128) -> u64 {
    ex.balance(addr(k)).unwrap()
}

#[test]
fn initialize_creates_record_and_empty_vaults() {
    let mut ex = Exchange::new();
    assert_eq!(initialize_market(&mut ex, &init_ctx(), 3, 6, 9, 254), Ok(()));
    let m = ex.market(addr(MINT_A), addr(MINT_B)).unwrap();
    assert_eq!(m.record.authority, addr(ADMIN));
    assert_eq!(m.record.price, 3);
    assert_eq!(m.record.decimals_a, 6);
    assert_eq!(m.record.decimals_b, 9);
    assert_eq!(m.record.bump, 254);
    assert_eq!(m.vault_a, addr(VAULT_A));
    assert_eq!(m.vault_b, addr(VAULT_B));
    assert_eq!(bal(&ex, VAULT_A), 0);
    assert_eq!(bal(&ex, VAULT_B), 0);
    assert!(ex.market(addr(MINT_B), addr(MINT_A)).is_none());
}

#[test]
fn initialize_twice_same_pair_is_duplicate() {
    let mut ex = Exchange::new();
    assert_eq!(initialize_market(&mut ex, &init_ctx(), 3, 6, 6, 254), Ok(()));
    let mut again = init_ctx();
    again.vault_a = addr(90);
    again.vault_b = addr(91);
    again.authority = addr(USER);
    assert_eq!(initialize_market(&mut ex, &again, 7, 6, 6, 1), Err(MarketError::Duplicate));
    assert_eq!(ex.market(addr(MINT_A), addr(MINT_B)).unwrap().record.price, 3);
    assert_eq!(ex.balance(addr(90)), None);
}

#[test]
fn initialize_reverse_pair_is_a_separate_market() {
    let mut ex = Exchange::new();
    assert_eq!(initialize_market(&mut ex, &init_ctx(), 3, 6, 6, 254), Ok(()));
    let mut rev = init_ctx();
    rev.token_mint_a = addr(MINT_B);
    rev.token_mint_b = addr(MINT_A);
    rev.vault_a = addr(90);
    rev.vault_b = addr(91);
    assert_eq!(initialize_market(&mut ex, &rev, 5, 6, 6, 1), Ok(()));
    assert_eq!(ex.market(addr(MINT_B), addr(MINT_A)).unwrap().record.price, 5);
}

#[test]
fn initialize_with_taken_vault_is_duplicate() {
    let mut ex = Exchange::new();
    assert_eq!(ex.open_account(account(VAULT_B, MINT_B, USER, 5)), Ok(()));
    assert_eq!(initialize_market(&mut ex, &init_ctx(), 3, 6, 6, 254), Err(MarketError::Duplicate));
    assert!(ex.market(addr(MINT_A), addr(MINT_B)).is_none());
    assert_eq!(ex.balance(addr(VAULT_A)), None);
}

#[test]
fn initialize_with_same_token_types_is_refused() {
    let mut ex = Exchange::new();
    let mut ctx = init_ctx();
    ctx.token_mint_b = addr(MINT_A);
    assert_eq!(initialize_market(&mut ex, &ctx, 3, 6, 6, 254), Err(MarketError::SameTokenType));
    assert_eq!(new_market(&ctx, 3, 6, 6, 254), Err(MarketError::SameTokenType));
}

#[test]
fn vaults_are_owned_by_the_derived_authority() {
    let ex = market_with(3, 100);
    let m = ex.market(addr(MINT_A), addr(MINT_B)).unwrap();
    let expected = Authority::Derived(DerivedAuthority {
        token_mint_a: addr(MINT_A),
        token_mint_b: addr(MINT_B),
        bump: 254,
    });
    assert_eq!(m.record.signer(), expected);
}

#[test]
fn set_price_by_administrator_then_read() {
    let mut ex = market_with(3, 0);
    let ctx = SetPrice { authority: addr(ADMIN), token_mint_a: addr(MINT_A), token_mint_b: addr(MINT_B) };
    for p in [0u64, 1, 42, u64::MAX] {
        assert_eq!(set_price(&mut ex, &ctx, p), Ok(()));
        assert_eq!(ex.market(addr(MINT_A), addr(MINT_B)).unwrap().record.price, p);
    }
}

#[test]
fn set_price_by_non_administrator_is_unauthorized() {
    let mut ex = market_with(3, 0);
    let ctx = SetPrice { authority: addr(USER), token_mint_a: addr(MINT_A), token_mint_b: addr(MINT_B) };
    assert_eq!(set_price(&mut ex, &ctx, 9), Err(MarketError::Unauthorized));
    assert_eq!(ex.market(addr(MINT_A), addr(MINT_B)).unwrap().record.price, 3);
}

#[test]
fn set_price_on_missing_market_is_not_found() {
    let mut ex = Exchange::new();
    let ctx = SetPrice { authority: addr(ADMIN), token_mint_a: addr(MINT_A), token_mint_b: addr(MINT_B) };
    assert_eq!(set_price(&mut ex, &ctx, 9), Err(MarketError::MarketNotFound));
}

#[test]
fn add_liquidity_zero_a_issues_one_transfer() {
    let ex = market_with(3, 0);
    let m = ex.market(addr(MINT_A), addr(MINT_B)).unwrap();
    let ts = liquidity_transfers(&m, &deposit_ctx(), 0, 5);
    assert_eq!(
        ts,
        vec![TransferRequest {
            from: addr(ADMIN_B),
            to: addr(VAULT_B),
            authority: Authority::Key(addr(ADMIN)),
            amount: 5
        }]
    );
    assert_eq!(liquidity_transfers(&m, &deposit_ctx(), 7, 5).len(), 2);
    assert_eq!(liquidity_transfers(&m, &deposit_ctx(), 7, 0)[0].to, addr(VAULT_A));
}

#[test]
fn add_liquidity_zero_zero_issues_nothing() {
    let mut ex = market_with(3, 0);
    let m = ex.market(addr(MINT_A), addr(MINT_B)).unwrap();
    assert!(liquidity_transfers(&m, &deposit_ctx(), 0, 0).is_empty());
    assert_eq!(add_liquidity(&mut ex, &deposit_ctx(), 0, 0), Ok(()));
    assert_eq!(bal(&ex, ADMIN_A), 1000);
    assert_eq!(bal(&ex, ADMIN_B), 1000);
}

#[test]
fn add_liquidity_moves_both_amounts() {
    let mut ex = market_with(3, 0);
    assert_eq!(add_liquidity(&mut ex, &deposit_ctx(), 7, 5), Ok(()));
    assert_eq!(bal(&ex, VAULT_A), 7);
    assert_eq!(bal(&ex, VAULT_B), 5);
    assert_eq!(bal(&ex, ADMIN_A), 993);
    assert_eq!(bal(&ex, ADMIN_B), 995);
}

#[test]
fn add_liquidity_partial_failure_keeps_first_deposit() {
    let mut ex = market_with(3, 0);
    assert_eq!(add_liquidity(&mut ex, &deposit_ctx(), 7, 5000), Err(MarketError::InsufficientFunds));
    assert_eq!(bal(&ex, VAULT_A), 7);
    assert_eq!(bal(&ex, ADMIN_A), 993);
    assert_eq!(bal(&ex, VAULT_B), 0);
    assert_eq!(bal(&ex, ADMIN_B), 1000);
}

#[test]
fn add_liquidity_on_missing_market_is_not_found() {
    let mut ex = Exchange::new();
    assert_eq!(add_liquidity(&mut ex, &deposit_ctx(), 1, 1), Err(MarketError::MarketNotFound));
}

#[test]
fn swap_a_to_b_at_rate_three() {
    let mut ex = market_with(3, 100);
    assert_eq!(swap(&mut ex, &swap_ctx(), 10, true), Ok(()));
    assert_eq!(bal(&ex, VAULT_A), 10);
    assert_eq!(bal(&ex, USER_A), 90);
    assert_eq!(bal(&ex, VAULT_B), 70);
    assert_eq!(bal(&ex, USER_B), 80);
}

#[test]
fn swap_with_short_vault_fails_and_keeps_deposit() {
    let mut ex = market_with(3, 20);
    assert_eq!(swap(&mut ex, &swap_ctx(), 10, true), Err(MarketError::InsufficientFunds));
    assert_eq!(bal(&ex, VAULT_A), 10);
    assert_eq!(bal(&ex, USER_A), 90);
    assert_eq!(bal(&ex, VAULT_B), 20);
    assert_eq!(bal(&ex, USER_B), 50);
}

#[test]
fn swap_b_to_a_moves_tokens_symmetrically() {
    let mut ex = market_with(3, 0);
    assert_eq!(add_liquidity(&mut ex, &deposit_ctx(), 100, 0), Ok(()));
    assert_eq!(swap(&mut ex, &swap_ctx(), 10, false), Ok(()));
    assert_eq!(bal(&ex, VAULT_B), 10);
    assert_eq!(bal(&ex, USER_B), 40);
    assert_eq!(bal(&ex, VAULT_A), 97);
    assert_eq!(bal(&ex, USER_A), 103);
}

#[test]
fn swap_b_to_a_with_zero_rate_moves_nothing() {
    let mut ex = market_with(0, 0);
    assert_eq!(add_liquidity(&mut ex, &deposit_ctx(), 100, 0), Ok(()));
    assert_eq!(swap(&mut ex, &swap_ctx(), 10, false), Err(MarketError::ZeroRate));
    assert_eq!(bal(&ex, USER_B), 50);
    assert_eq!(bal(&ex, VAULT_B), 0);
}

#[test]
fn swap_overflow_is_reported_after_the_deposit() {
    let mut ex = market_with(u64::MAX, 0);
    assert_eq!(swap(&mut ex, &swap_ctx(), 2, true), Err(MarketError::Overflow));
    assert_eq!(bal(&ex, VAULT_A), 2);
    assert_eq!(bal(&ex, USER_A), 98);
    assert_eq!(bal(&ex, USER_B), 50);
}

#[test]
fn swap_on_missing_market_is_not_found() {
    let mut ex = Exchange::new();
    assert_eq!(swap(&mut ex, &swap_ctx(), 1, true), Err(MarketError::MarketNotFound));
}

#[test]
fn swap_plan_lists_transfers_in_order() {
    let ex = market_with(3, 0);
    let m = ex.market(addr(MINT_A), addr(MINT_B)).unwrap();
    let plan = swap_plan(&m, &swap_ctx(), 10, true);
    assert_eq!(plan.failure, None);
    assert_eq!(plan.transfers.len(), 2);
    assert_eq!(plan.transfers[0].from, addr(USER_A));
    assert_eq!(plan.transfers[0].authority, Authority::Key(addr(USER)));
    assert_eq!(plan.transfers[1].from, addr(VAULT_B));
    assert_eq!(plan.transfers[1].amount, 30);
    assert_eq!(plan.transfers[1].authority, m.record.signer());
}

#[test]
fn quote_at_maximum_amount_overflows() {
    assert_eq!(quote_a_to_b(3, 10), Ok(30));
    assert_eq!(quote_a_to_b(2, u64::MAX), Err(MarketError::Overflow));
    assert_eq!(quote_a_to_b(1, u64::MAX), Ok(u64::MAX));
    assert_eq!(quote_a_to_b(0, u64::MAX), Ok(0));
}

#[test]
fn quote_b_to_a_rounds_down() {
    assert_eq!(quote_b_to_a(3, 10), Ok(3));
    assert_eq!(quote_b_to_a(0, 10), Err(MarketError::ZeroRate));
}

#[test]
fn ledger_transfer_errors() {
    let mut l = TokenLedger::new();
    assert_eq!(l.open_account(account(1, MINT_A, USER, 10)), Ok(()));
    assert_eq!(l.open_account(account(2, MINT_A, ADMIN, u64::MAX)), Ok(()));
    assert_eq!(l.open_account(account(3, MINT_B, USER, 10)), Ok(()));
    assert_eq!(l.open_account(account(1, MINT_B, USER, 0)), Err(MarketError::Duplicate));
    let t = |from: u128, to: u128, who: u128, amount: u64| TransferRequest {
        from: addr(from),
        to: addr(to),
        authority: Authority::Key(addr(who)),
        amount,
    };
    assert_eq!(l.transfer(&t(1, 9, USER, 1)), Err(MarketError::AccountNotFound));
    assert_eq!(l.transfer(&t(1, 3, USER, 1)), Err(MarketError::MintMismatch));
    assert_eq!(l.transfer(&t(1, 2, ADMIN, 1)), Err(MarketError::OwnerMismatch));
    assert_eq!(l.transfer(&t(1, 2, USER, 11)), Err(MarketError::InsufficientFunds));
    assert_eq!(l.transfer(&t(1, 2, USER, 1)), Err(MarketError::BalanceOverflow));
    assert_eq!(l.transfer(&t(1, 1, USER, 5)), Ok(()));
    assert_eq!(l.balance(addr(1)), Some(10));
    assert_eq!(l.transfer(&t(2, 1, ADMIN, 5)), Ok(()));
    assert_eq!(l.balance(addr(1)), Some(15));
    assert_eq!(l.balance(addr(2)), Some(u64::MAX - 5));
}

#[test]
fn swap_payout_past_balance_maximum_is_not_a_rate_overflow() {
    let mut ex = Exchange::new();
    assert_eq!(initialize_market(&mut ex, &init_ctx(), 3, 6, 6, 254), Ok(()));
    assert_eq!(ex.open_account(account(USER_A, MINT_A, USER, 10)), Ok(()));
    assert_eq!(ex.open_account(account(USER_B, MINT_B, USER, u64::MAX)), Ok(()));
    assert_eq!(ex.open_account(account(ADMIN_B, MINT_B, ADMIN, 1000)), Ok(()));
    assert_eq!(add_liquidity(&mut ex, &deposit_ctx(), 0, 20), Ok(()));
    assert_eq!(swap(&mut ex, &swap_ctx(), 1, true), Err(MarketError::BalanceOverflow));
    assert_eq!(bal(&ex, VAULT_A), 1);
    assert_eq!(bal(&ex, USER_A), 9);
    assert_eq!(bal(&ex, VAULT_B), 20);
    assert_eq!(bal(&ex, USER_B), u64::MAX);
}

#[test]
fn deposit_naming_a_vault_as_source_is_refused() {
    let mut ex = market_with(3, 100);
    let mut ctx = deposit_ctx();
    ctx.authority_token_b = addr(VAULT_B);
    assert_eq!(add_liquidity(&mut ex, &ctx, 0, 50), Err(MarketError::OwnerMismatch));
    assert_eq!(bal(&ex, VAULT_B), 100);
}
