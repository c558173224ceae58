//! A two-token, fixed-rate exchange market: market records, escrow vaults,
//! and the transfers that liquidity deposits and swaps issue.
pub mod types;
pub mod ledger;
pub mod market;
pub mod exchange;
pub mod laws;

pub use types::{Address, Authority, DerivedAuthority, MarketError};
pub use ledger::{TokenAccount, TokenLedger, TransferRequest};
pub use market::{
    liquidity_transfers, new_market, quote_a_to_b, quote_b_to_a, swap_plan, AddLiquidity,
    InitializeMarket, Market, MarketAccount, SetPrice, Swap, SwapPlan,
};
pub use exchange::{add_liquidity, initialize_market, set_price, swap, Exchange};
