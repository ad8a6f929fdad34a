use vstd::prelude::*;

verus! {

/// Decoded, read-only view of an instrument account header.
///
/// Reserves are in minor units of the respective token; prices are
/// fixed-point values scaled by the global price factor; `dec_factor` is the
/// per-instrument factor that converts `quantity * price` into currency
/// minor units; `ps` is the trading-enabled flag.
#[derive(Clone, Debug)]
pub struct InstrAccountHeader {
    pub asset_mint: Vec<u8>,
    pub crncy_mint: Vec<u8>,
    pub maps_address: Vec<u8>,
    pub asset_token_id: u32,
    pub crncy_token_id: u32,
    pub asset_tokens: i64,
    pub crncy_tokens: i64,
    pub dec_factor: i64,
    pub best_bid: i64,
    pub best_ask: i64,
    pub last_px: i64,
    pub day_volatility: i64,
    pub bid_lines_begin: u32,
    pub ask_lines_begin: u32,
    pub bid_lines_count: u32,
    pub ask_lines_count: u32,
    pub instr_id: u64,
    pub ps: u64,
}

/// Decoded token-state record: the token's mint address, its program
/// sub-account address, its numeric id, and the mask whose low byte is the
/// token's decimal count.
#[derive(Clone, Debug)]
pub struct TokenState {
    pub address: Vec<u8>,
    pub program_address: Vec<u8>,
    pub id: u32,
    pub mask: u32,
}

/// Off-chain derived readings of an instrument header.
pub trait OffChainInstrAccountHeader {
    /// What `market_px` returns.
    spec fn market_px_spec(&self) -> i64;

    /// The current market price: the best ask if it undercuts the last
    /// trade, else the best bid if it exceeds the last trade, else the last
    /// trade price.
    fn market_px(&self) -> (px: i64)
        ensures
            px == self.market_px_spec(),
    ;
}

impl OffChainInstrAccountHeader for InstrAccountHeader {
    open spec fn market_px_spec(&self) -> i64 {
        if self.best_ask < self.last_px {
            self.best_ask
        } else if self.best_bid > self.last_px {
            self.best_bid
        } else {
            self.last_px
        }
    }

    fn market_px(&self) -> (px: i64) {
        if self.best_ask < self.last_px {
            self.best_ask
        } else if self.best_bid > self.last_px {
            self.best_bid
        } else {
            self.last_px
        }
    }
}

} // verus!
