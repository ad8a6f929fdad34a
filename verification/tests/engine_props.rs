use deriverse::error::DrvError;
use deriverse::helper::{get_dec_factor, get_seed_bytes, get_seed_bytes_by_id, get_token_seed_bytes};
use deriverse::instrument::{InstrAccountHeader, OffChainInstrAccountHeader};
use deriverse::math::{isqrt, trunc_div_i128};
use deriverse::quote::{Deriverse, QuoteParams, SwapMode};
use deriverse::lines_linked_list::NULL_ORDER;
use rust_decimal::Decimal;

const DF: i64 = 1_000_000_000;

const TOKEN_A: [u8; 32] = [1u8; 32];
const TOKEN_B: [u8; 32] = [2u8; 32];
const A_DECS: u8 = 6;
const B_DECS: u8 = 9;

fn instr_header_bytes(
    asset_tokens: i64,
    crncy_tokens: i64,
    dec_factor: i64,
    best_bid: i64,
    best_ask: i64,
    last_px: i64,
    day_volatility: i64,
    bid_begin: u32,
    ask_begin: u32,
    bid_count: u32,
    ask_count: u32,
) -> Vec<u8> {
    let mut b = Vec::new();
    b.extend_from_slice(&TOKEN_A);
    b.extend_from_slice(&TOKEN_B);
    b.extend_from_slice(&[0u8; 32]);
    b.extend_from_slice(&2u32.to_le_bytes());
    b.extend_from_slice(&3u32.to_le_bytes());
    b.extend_from_slice(&asset_tokens.to_le_bytes());
    b.extend_from_slice(&crncy_tokens.to_le_bytes());
    b.extend_from_slice(&dec_factor.to_le_bytes());
    b.extend_from_slice(&best_bid.to_le_bytes());
    b.extend_from_slice(&best_ask.to_le_bytes());
    b.extend_from_slice(&last_px.to_le_bytes());
    b.extend_from_slice(&day_volatility.to_le_bytes());
    b.extend_from_slice(&bid_begin.to_le_bytes());
    b.extend_from_slice(&ask_begin.to_le_bytes());
    b.extend_from_slice(&bid_count.to_le_bytes());
    b.extend_from_slice(&ask_count.to_le_bytes());
    b.extend_from_slice(&1u64.to_le_bytes());
    b.extend_from_slice(&1u64.to_le_bytes());
    b
}

fn token_bytes(address: [u8; 32]) -> Vec<u8> {
    let mut b = Vec::new();
    b.extend_from_slice(&address);
    b.extend_from_slice(&[0u8; 32]);
    b.extend_from_slice(&0u32.to_le_bytes());
    b.extend_from_slice(&0u32.to_le_bytes());
    b
}

fn lines_bytes(lines: &[(i64, i64, u32, u32, u32)]) -> Vec<u8> {
    let mut b = vec![0u8; 64];
    for (price, qty, next, prev, sref) in lines {
        b.extend_from_slice(&price.to_le_bytes());
        b.extend_from_slice(&qty.to_le_bytes());
        b.extend_from_slice(&next.to_le_bytes());
        b.extend_from_slice(&prev.to_le_bytes());
        b.extend_from_slice(&sref.to_le_bytes());
        b.extend_from_slice(&[0u8; 4]);
    }
    b
}

fn amm_only_deriverse(day_volatility: i64, fee_rate: u32) -> Deriverse {
    let instr = instr_header_bytes(
        1_000_000 * get_dec_factor(A_DECS),
        10_000_000 * get_dec_factor(B_DECS),
        get_dec_factor(9 + A_DECS - B_DECS),
        0,
        i64::MAX >> 1,
        (10.0 * DF as f64) as i64,
        day_volatility,
        0,
        0,
        0,
        0,
    );
    let a_state = token_bytes(TOKEN_A);
    let b_state = token_bytes(TOKEN_B);
    let community = fee_rate.to_le_bytes().to_vec();
    let lines_data = vec![0u8; 64];
    Deriverse::from_snapshot(&instr, &a_state, &b_state, &community, &lines_data).unwrap()
}

fn book_only_deriverse() -> Deriverse {
    let lines = vec![
        // bid
        ((10.1 * DF as f64) as i64, 100_000, 3, 1, 0),
        // bid
        ((10.4 * DF as f64) as i64, 100_000, 0, NULL_ORDER, 1),
        // ask
        ((9.9 * DF as f64) as i64, 100_000, 4, NULL_ORDER, 0),
        // bid
        ((10.0 * DF as f64) as i64, 100_000, NULL_ORDER, 3, 0),
        // ask
        ((10.1 * DF as f64) as i64, 100_000, 6, NULL_ORDER, 0),
        // empty
        (0, 0, NULL_ORDER, NULL_ORDER, 0),
        // ask
        ((10.1 * DF as f64) as i64, 100_000, NULL_ORDER, 4, 0),
    ];
    let instr = instr_header_bytes(
        0,
        0,
        get_dec_factor(9 + A_DECS - B_DECS),
        lines[1].0,
        lines[2].0,
        (10.0 * DF as f64) as i64,
        0,
        1,
        2,
        lines.len() as u32,
        lines.len() as u32,
    );
    let a_state = token_bytes(TOKEN_A);
    let b_state = token_bytes(TOKEN_B);
    let community = 0u32.to_le_bytes().to_vec();
    let lines_data = lines_bytes(&lines);
    Deriverse::from_snapshot(&instr, &a_state, &b_state, &community, &lines_data).unwrap()
}

#[test]
fn quote_is_idempotent() {
    let deriverse = book_only_deriverse();
    let params = QuoteParams {
        amount: 140_000,
        input_mint: TOKEN_A.to_vec(),
        swap_mode: SwapMode::ExactIn,
    };
    let r1 = deriverse.quote(&params).unwrap();
    let r2 = deriverse.quote(&params).unwrap();
    assert_eq!(r1.in_amount, r2.in_amount);
    assert_eq!(r1.out_amount, r2.out_amount);
    assert_eq!(r1.fee_amount, r2.fee_amount);
    assert_eq!(r1.fee_pct, r2.fee_pct);
}

#[test]
fn exact_out_mode_is_rejected() {
    let deriverse = amm_only_deriverse(0, 0);
    let r = deriverse.quote(&QuoteParams {
        amount: 140_000,
        input_mint: TOKEN_A.to_vec(),
        swap_mode: SwapMode::ExactOut,
    });
    assert!(matches!(r, Err(DrvError::UnsupportedMode)));
}

#[test]
fn zero_amount_swap_fails() {
    let deriverse = book_only_deriverse();
    let r = deriverse.quote(&QuoteParams {
        amount: 0,
        input_mint: TOKEN_A.to_vec(),
        swap_mode: SwapMode::ExactIn,
    });
    assert!(matches!(r, Err(DrvError::SwapFailed)));
}

#[test]
fn exact_level_consumed_without_amm() {
    // the requested amount equals exactly the best bid level's quantity and
    // the empty curve contributes nothing: the whole fill happens at that
    // level's fixed price
    let deriverse = book_only_deriverse();
    let r = deriverse
        .quote(&QuoteParams {
            amount: 100_000,
            input_mint: TOKEN_A.to_vec(),
            swap_mode: SwapMode::ExactIn,
        })
        .unwrap();
    assert_eq!(r.in_amount, 100_000);
    // 100_000 asset minor units at price 10.4 with decimal factor 10^6
    assert_eq!(r.out_amount, 1_040_000_000);
    assert_eq!(r.fee_amount, 0);
}

#[test]
fn fee_is_accrued_and_subtracted() {
    // fee rate: 1_000_000 * 100 / 10^9 = 10% of each notional increment
    let deriverse = amm_only_deriverse(1_000_000, 100);
    let r = deriverse
        .quote(&QuoteParams {
            amount: 140_000,
            input_mint: TOKEN_A.to_vec(),
            swap_mode: SwapMode::ExactIn,
        })
        .unwrap();
    // the curve yields 1_399_999_805 notional for 140_000 quantity
    assert_eq!(r.fee_amount, 139_999_980);
    assert_eq!(r.out_amount, 1_399_999_805 - 139_999_980);
    assert_eq!(r.in_amount, 140_000);
    assert_eq!(
        r.fee_pct,
        Decimal::from(139_999_980i64) / Decimal::from(1_259_999_825i64)
    );
}

#[test]
fn amm_only_buy_exact_value() {
    let deriverse = amm_only_deriverse(0, 0);
    let r = deriverse
        .quote(&QuoteParams {
            amount: 1_400_000_000,
            input_mint: TOKEN_B.to_vec(),
            swap_mode: SwapMode::ExactIn,
        })
        .unwrap();
    // a - k / (b + 1_400_000_000) with a = 10^12, b = 10^16, k = 10^28
    assert_eq!(r.out_amount, 140_000);
    assert_eq!(r.in_amount, 1_400_000_000);
}

#[test]
fn market_px_picks_the_tighter_side() {
    let mut h = InstrAccountHeader {
        asset_mint: TOKEN_A.to_vec(),
        crncy_mint: TOKEN_B.to_vec(),
        maps_address: vec![0u8; 32],
        asset_token_id: 2,
        crncy_token_id: 3,
        asset_tokens: 0,
        crncy_tokens: 0,
        dec_factor: 1_000_000,
        best_bid: 9,
        best_ask: 12,
        last_px: 10,
        day_volatility: 0,
        bid_lines_begin: 0,
        ask_lines_begin: 0,
        bid_lines_count: 0,
        ask_lines_count: 0,
        instr_id: 1,
        ps: 1,
    };
    assert_eq!(h.market_px(), 10);
    h.best_ask = 8;
    assert_eq!(h.market_px(), 8);
    h.best_ask = 12;
    h.best_bid = 11;
    assert_eq!(h.market_px(), 11);
}

#[test]
fn dec_factor_values() {
    assert_eq!(get_dec_factor(0), 1);
    assert_eq!(get_dec_factor(6), 1_000_000);
    assert_eq!(get_dec_factor(18), 1_000_000_000_000_000_000);
}

#[test]
fn seed_bytes_layouts() {
    assert_eq!(
        get_seed_bytes(1, 7),
        [1, 0, 0, 0, 7, 0, 0, 0]
    );
    assert_eq!(
        get_seed_bytes_by_id(1, 7, 2, 3),
        [1, 0, 0, 0, 7, 0, 0, 0, 2, 0, 0, 0, 3, 0, 0, 0]
    );
    let mint = [9u8; 32];
    let seed = get_token_seed_bytes(0x0102_0304, &mint);
    assert_eq!(&seed[0..28], &[9u8; 28]);
    assert_eq!(&seed[28..32], &[4, 3, 2, 1]);
}

#[test]
fn integer_sqrt_and_truncating_division() {
    assert_eq!(isqrt(0), 0);
    assert_eq!(isqrt(3), 1);
    assert_eq!(isqrt(4), 2);
    assert_eq!(isqrt(1_000_000_000_000_000_000_000_000), 1_000_000_000_000);
    assert_eq!(trunc_div_i128(7, 2), 3);
    assert_eq!(trunc_div_i128(-7, 2), -3);
}

#[test]
fn is_active_needs_lines_and_flag() {
    let deriverse = book_only_deriverse();
    assert!(deriverse.is_active());
    let empty = amm_only_deriverse(0, 0);
    assert!(!empty.is_active());
}
