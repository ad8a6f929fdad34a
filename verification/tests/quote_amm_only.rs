use deriverse::helper::get_dec_factor;
use deriverse::quote::{Deriverse, QuoteParams, SwapMode};

const DF: i64 = 1_000_000_000;
const MAX_PRICE: i64 = i64::MAX >> 1;

const TOKEN_A: [u8; 32] = [1u8; 32];
const TOKEN_B: [u8; 32] = [2u8; 32];
const A_DECS: u8 = 6;
const B_DECS: u8 = 9;

fn instr_header_bytes(
    asset_tokens: i64,
    crncy_tokens: i64,
    dec_factor: i64,
    best_bid: i64,
    best_ask: i64,
    last_px: i64,
) -> Vec<u8> {
    let mut b = Vec::new();
    b.extend_from_slice(&TOKEN_A);
    b.extend_from_slice(&TOKEN_B);
    b.extend_from_slice(&[0u8; 32]);
    b.extend_from_slice(&2u32.to_le_bytes());
    b.extend_from_slice(&3u32.to_le_bytes());
    b.extend_from_slice(&asset_tokens.to_le_bytes());
    b.extend_from_slice(&crncy_tokens.to_le_bytes());
    b.extend_from_slice(&dec_factor.to_le_bytes());
    b.extend_from_slice(&best_bid.to_le_bytes());
    b.extend_from_slice(&best_ask.to_le_bytes());
    b.extend_from_slice(&last_px.to_le_bytes());
    b.extend_from_slice(&0i64.to_le_bytes());
    b.extend_from_slice(&0u32.to_le_bytes());
    b.extend_from_slice(&0u32.to_le_bytes());
    b.extend_from_slice(&0u32.to_le_bytes());
    b.extend_from_slice(&0u32.to_le_bytes());
    b.extend_from_slice(&1u64.to_le_bytes());
    b.extend_from_slice(&1u64.to_le_bytes());
    b
}

fn token_bytes(address: [u8; 32]) -> Vec<u8> {
    let mut b = Vec::new();
    b.extend_from_slice(&address);
    b.extend_from_slice(&[0u8; 32]);
    b.extend_from_slice(&0u32.to_le_bytes());
    b.extend_from_slice(&0u32.to_le_bytes());
    b
}

fn init_deriverse(asset_tokens: i64, crncy_tokens: i64) -> Deriverse {
    let dec_factor = get_dec_factor(9 + A_DECS - B_DECS);
    let instr = instr_header_bytes(
        asset_tokens,
        crncy_tokens,
        dec_factor,
        0,
        MAX_PRICE,
        (10.0 * DF as f64) as i64,
    );
    let a_state = token_bytes(TOKEN_A);
    let b_state = token_bytes(TOKEN_B);
    let community = 0u32.to_le_bytes().to_vec();
    // an empty lines account: just the header segment
    let lines_data = vec![0u8; 64];
    Deriverse::from_snapshot(&instr, &a_state, &b_state, &community, &lines_data).unwrap()
}

#[test]
fn tests_sell() {
    let deriverse = init_deriverse(
        1_000_000 * get_dec_factor(A_DECS),
        10_000_000 * get_dec_factor(B_DECS),
    );

    let result = deriverse
        .quote(&QuoteParams {
            amount: 140_000,
            input_mint: TOKEN_A.to_vec(),
            swap_mode: SwapMode::ExactIn,
        })
        .unwrap();

    let expected = (result.in_amount as f64
        * 10.0
        * (get_dec_factor(B_DECS - A_DECS) as f64)) as u64;
    let diff = (result.out_amount as i64 - expected as i64).abs() as u64;

    assert!(
        (diff as f64) < expected as f64 * 0.001,
        "Calculations are not presize enough"
    );
}

#[test]
fn tests_buy() {
    let deriverse = init_deriverse(
        1_000_000 * get_dec_factor(A_DECS),
        10_000_000 * get_dec_factor(B_DECS),
    );

    let result = deriverse
        .quote(&QuoteParams {
            amount: 1_400_000_000,
            input_mint: TOKEN_B.to_vec(),
            swap_mode: SwapMode::ExactIn,
        })
        .unwrap();

    let expected = (result.in_amount as f64
        / 10.0
        / (get_dec_factor(B_DECS - A_DECS) as f64)) as u64;
    let diff = (result.out_amount as i64 - expected as i64).abs();

    assert!(
        (diff as f64) < (expected as f64 * 0.000_001),
        "Calculations are not presize enough: diff ({}) > {}",
        diff,
        expected as f64 * 0.000_001
    );
}
