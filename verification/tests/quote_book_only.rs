use deriverse::helper::get_dec_factor;
use deriverse::lines_linked_list::NULL_ORDER;
use deriverse::quote::{Deriverse, QuoteParams, SwapMode};

const DF: i64 = 1_000_000_000;

const TOKEN_A: [u8; 32] = [1u8; 32];
const TOKEN_B: [u8; 32] = [2u8; 32];
const A_DECS: u8 = 6;
const B_DECS: u8 = 9;

fn instr_header_bytes(
    asset_tokens: i64,
    crncy_tokens: i64,
    dec_factor: i64,
    best_bid: i64,
    best_ask: i64,
    last_px: i64,
    bid_begin: u32,
    ask_begin: u32,
    bid_count: u32,
    ask_count: u32,
) -> Vec<u8> {
    let mut b = Vec::new();
    b.extend_from_slice(&TOKEN_A);
    b.extend_from_slice(&TOKEN_B);
    b.extend_from_slice(&[0u8; 32]);
    b.extend_from_slice(&2u32.to_le_bytes());
    b.extend_from_slice(&3u32.to_le_bytes());
    b.extend_from_slice(&asset_tokens.to_le_bytes());
    b.extend_from_slice(&crncy_tokens.to_le_bytes());
    b.extend_from_slice(&dec_factor.to_le_bytes());
    b.extend_from_slice(&best_bid.to_le_bytes());
    b.extend_from_slice(&best_ask.to_le_bytes());
    b.extend_from_slice(&last_px.to_le_bytes());
    b.extend_from_slice(&0i64.to_le_bytes());
    b.extend_from_slice(&bid_begin.to_le_bytes());
    b.extend_from_slice(&ask_begin.to_le_bytes());
    b.extend_from_slice(&bid_count.to_le_bytes());
    b.extend_from_slice(&ask_count.to_le_bytes());
    b.extend_from_slice(&1u64.to_le_bytes());
    b.extend_from_slice(&1u64.to_le_bytes());
    b
}

fn token_bytes(address: [u8; 32]) -> Vec<u8> {
    let mut b = Vec::new();
    b.extend_from_slice(&address);
    b.extend_from_slice(&[0u8; 32]);
    b.extend_from_slice(&0u32.to_le_bytes());
    b.extend_from_slice(&0u32.to_le_bytes());
    b
}

fn lines_bytes(lines: &[(i64, i64, u32, u32, u32)]) -> Vec<u8> {
    let mut b = vec![0u8; 64];
    for (price, qty, next, prev, sref) in lines {
        b.extend_from_slice(&price.to_le_bytes());
        b.extend_from_slice(&qty.to_le_bytes());
        b.extend_from_slice(&next.to_le_bytes());
        b.extend_from_slice(&prev.to_le_bytes());
        b.extend_from_slice(&sref.to_le_bytes());
        b.extend_from_slice(&[0u8; 4]);
    }
    b
}

fn book_lines() -> Vec<(i64, i64, u32, u32, u32)> {
    vec![
        // bid
        ((10.1 * DF as f64) as i64, 100_000, 3, 1, 0),
        // bid
        ((10.4 * DF as f64) as i64, 100_000, 0, NULL_ORDER, 1),
        // ask
        ((9.9 * DF as f64) as i64, 100_000, 4, NULL_ORDER, 0),
        // bid
        ((10.0 * DF as f64) as i64, 100_000, NULL_ORDER, 3, 0),
        // ask
        ((10.1 * DF as f64) as i64, 100_000, 6, NULL_ORDER, 0),
        // empty
        (0, 0, NULL_ORDER, NULL_ORDER, 0),
        // ask
        ((10.1 * DF as f64) as i64, 100_000, NULL_ORDER, 4, 0),
    ]
}

fn init_deriverse() -> Deriverse {
    let lines = book_lines();
    let dec_factor = get_dec_factor(9 + A_DECS - B_DECS);
    let instr = instr_header_bytes(
        0,
        0,
        dec_factor,
        lines[1].0,
        lines[2].0,
        (10.0 * DF as f64) as i64,
        1,
        2,
        lines.len() as u32,
        lines.len() as u32,
    );
    let a_state = token_bytes(TOKEN_A);
    let b_state = token_bytes(TOKEN_B);
    let community = 0u32.to_le_bytes().to_vec();
    let lines_data = lines_bytes(&lines);
    Deriverse::from_snapshot(&instr, &a_state, &b_state, &community, &lines_data).unwrap()
}

#[test]
fn partial_fill_sell() {
    let deriverse = init_deriverse();

    let result = deriverse
        .quote(&QuoteParams {
            amount: 140_000,
            input_mint: TOKEN_A.to_vec(),
            swap_mode: SwapMode::ExactIn,
        })
        .unwrap();

    let expected = (140_000 as f64 / get_dec_factor(A_DECS) as f64
        * (10.4 * 100_000.0 / 140_000.0 + 10.1 * 40_000.0 / 140_000.0)
        * get_dec_factor(B_DECS) as f64) as u64;

    let diff = result.out_amount - expected;

    assert!(
        (diff as f64) < expected as f64 * 0.001,
        "Calculations are not presize enough"
    );
}

#[test]
fn full_fill_sell() {
    let deriverse = init_deriverse();

    let result = deriverse
        .quote(&QuoteParams {
            amount: 200_000,
            input_mint: TOKEN_A.to_vec(),
            swap_mode: SwapMode::ExactIn,
        })
        .unwrap();

    let expected = (200_000 as f64 / get_dec_factor(A_DECS) as f64
        * (10.4 * 100_000.0 / 200_000.0 + 10.1 * 100_000.0 / 200_000.0)
        * get_dec_factor(B_DECS) as f64) as u64;

    let diff = result.out_amount - expected;

    assert!(
        (diff as f64) < expected as f64 * 0.001,
        "Calculations are not presize enough"
    );
}

#[test]
fn partial_fill_buy() {
    let deriverse = init_deriverse();

    let result = deriverse
        .quote(&QuoteParams {
            amount: 1_400_000_000,
            input_mint: TOKEN_B.to_vec(),
            swap_mode: SwapMode::ExactIn,
        })
        .unwrap();

    let expected = (result.in_amount as f64
        // due to complex calculations middle price between first and second asks lines is used
        / 9.96
        / (get_dec_factor(B_DECS - A_DECS) as f64)) as u64;
    let diff = (result.out_amount as i64 - expected as i64).abs() as u64;

    assert!(
        (diff as f64) < expected as f64 * 0.001,
        "Calculations are not presize enough"
    );
}
