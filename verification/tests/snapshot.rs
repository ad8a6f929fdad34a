use deriverse::error::DrvError;
use deriverse::helper::get_dec_factor;
use deriverse::lines_linked_list::{PxOrders, NULL_ORDER};
use deriverse::quote::Deriverse;

const DF: i64 = 1_000_000_000;

const TOKEN_A: [u8; 32] = [1u8; 32];
const TOKEN_B: [u8; 32] = [2u8; 32];
const A_DECS: u8 = 6;

fn instr_header_bytes(
    asset_tokens: i64,
    crncy_tokens: i64,
    dec_factor: i64,
    best_bid: i64,
    best_ask: i64,
    last_px: i64,
    bid_begin: u32,
    ask_begin: u32,
    bid_count: u32,
    ask_count: u32,
) -> Vec<u8> {
    let mut b = Vec::new();
    b.extend_from_slice(&TOKEN_A);
    b.extend_from_slice(&TOKEN_B);
    b.extend_from_slice(&[0u8; 32]);
    b.extend_from_slice(&2u32.to_le_bytes());
    b.extend_from_slice(&3u32.to_le_bytes());
    b.extend_from_slice(&asset_tokens.to_le_bytes());
    b.extend_from_slice(&crncy_tokens.to_le_bytes());
    b.extend_from_slice(&dec_factor.to_le_bytes());
    b.extend_from_slice(&best_bid.to_le_bytes());
    b.extend_from_slice(&best_ask.to_le_bytes());
    b.extend_from_slice(&last_px.to_le_bytes());
    b.extend_from_slice(&0i64.to_le_bytes());
    b.extend_from_slice(&bid_begin.to_le_bytes());
    b.extend_from_slice(&ask_begin.to_le_bytes());
    b.extend_from_slice(&bid_count.to_le_bytes());
    b.extend_from_slice(&ask_count.to_le_bytes());
    b.extend_from_slice(&1u64.to_le_bytes());
    b.extend_from_slice(&1u64.to_le_bytes());
    b
}

fn token_bytes(address: [u8; 32]) -> Vec<u8> {
    let mut b = Vec::new();
    b.extend_from_slice(&address);
    b.extend_from_slice(&[0u8; 32]);
    b.extend_from_slice(&0u32.to_le_bytes());
    b.extend_from_slice(&0u32.to_le_bytes());
    b
}

fn lines_bytes(lines: &[(i64, i64, u32, u32, u32)]) -> Vec<u8> {
    let mut b = vec![0u8; 64];
    for (price, qty, next, prev, sref) in lines {
        b.extend_from_slice(&price.to_le_bytes());
        b.extend_from_slice(&qty.to_le_bytes());
        b.extend_from_slice(&next.to_le_bytes());
        b.extend_from_slice(&prev.to_le_bytes());
        b.extend_from_slice(&sref.to_le_bytes());
        b.extend_from_slice(&[0u8; 4]);
    }
    b
}

fn record(line: &(i64, i64, u32, u32, u32)) -> PxOrders {
    PxOrders {
        price: line.0,
        qty: line.1,
        next: line.2,
        prev: line.3,
        sref: line.4,
    }
}

#[test]
fn update_derviverse() {
    let lines = vec![
        // bid
        ((10.4 * DF as f64) as i64, 100_000, 3, 1, 0),
        // bid
        ((10.1 * DF as f64) as i64, 100_000, 0, NULL_ORDER, 1),
        // ask
        ((9.9 * DF as f64) as i64, 100_000, 4, NULL_ORDER, 0),
        // bid
        ((10.0 * DF as f64) as i64, 100_000, NULL_ORDER, 3, 0),
        // ask
        ((10.1 * DF as f64) as i64, 100_000, 6, NULL_ORDER, 0),
        // empty
        (0, 0, NULL_ORDER, NULL_ORDER, 0),
        // ask
        ((10.1 * DF as f64) as i64, 100_000, NULL_ORDER, 4, 0),
    ];

    let instr = instr_header_bytes(
        110 * get_dec_factor(A_DECS),
        11 * get_dec_factor(A_DECS),
        get_dec_factor(6),
        lines[1].0,
        lines[2].0,
        0,
        1,
        2,
        lines.len() as u32,
        lines.len() as u32,
    );
    let a_state = token_bytes(TOKEN_A);
    let b_state = token_bytes(TOKEN_B);
    let community = 10u32.to_le_bytes().to_vec();
    let lines_data = lines_bytes(&lines);

    let new_deriverse =
        Deriverse::from_snapshot(&instr, &a_state, &b_state, &community, &lines_data).unwrap();

    // lines in correct order
    let bid_lines = vec![record(&lines[1]), record(&lines[0]), record(&lines[3])];

    assert_eq!(bid_lines.len(), new_deriverse.order_book.iter_bids().len());

    for ((_, line), expected_line) in new_deriverse
        .order_book
        .iter_bids()
        .into_iter()
        .zip(bid_lines)
    {
        assert_eq!(line, expected_line);
    }

    assert!(new_deriverse.amm.a_tokens != 0);
    assert!(new_deriverse.amm.b_tokens != 0);

    assert!(new_deriverse.order_book.lines.len() != 0);
}

#[test]
fn short_instr_buffer_is_invalid() {
    let instr = vec![0u8; 100];
    let a_state = token_bytes(TOKEN_A);
    let b_state = token_bytes(TOKEN_B);
    let community = 0u32.to_le_bytes().to_vec();
    let r = Deriverse::from_snapshot(&instr, &a_state, &b_state, &community, &[]);
    assert!(matches!(r, Err(DrvError::InvalidAccount)));
}

#[test]
fn short_token_buffer_is_invalid() {
    let instr = instr_header_bytes(0, 0, 1_000_000, 0, 0, 0, 0, 0, 0, 0);
    let a_state = vec![0u8; 10];
    let b_state = token_bytes(TOKEN_B);
    let community = 0u32.to_le_bytes().to_vec();
    let r = Deriverse::from_snapshot(&instr, &a_state, &b_state, &community, &[]);
    assert!(matches!(r, Err(DrvError::InvalidAccount)));
}

#[test]
fn negative_reserve_is_invalid() {
    let instr = instr_header_bytes(-1, 0, 1_000_000, 0, 0, 0, 0, 0, 0, 0);
    let a_state = token_bytes(TOKEN_A);
    let b_state = token_bytes(TOKEN_B);
    let community = 0u32.to_le_bytes().to_vec();
    let r = Deriverse::from_snapshot(&instr, &a_state, &b_state, &community, &[]);
    assert!(matches!(r, Err(DrvError::InvalidAccount)));
}

#[test]
fn zero_dec_factor_is_invalid() {
    let instr = instr_header_bytes(0, 0, 0, 0, 0, 0, 0, 0, 0, 0);
    let a_state = token_bytes(TOKEN_A);
    let b_state = token_bytes(TOKEN_B);
    let community = 0u32.to_le_bytes().to_vec();
    let r = Deriverse::from_snapshot(&instr, &a_state, &b_state, &community, &[]);
    assert!(matches!(r, Err(DrvError::InvalidAccount)));
}

#[test]
fn cyclic_links_stay_bounded() {
    // two records linking to each other: the traversal must stop at the
    // declared bound instead of looping forever
    let lines = vec![
        ((10.0 * DF as f64) as i64, 1_000, 1, NULL_ORDER, 0),
        ((10.1 * DF as f64) as i64, 1_000, 0, NULL_ORDER, 0),
    ];
    let instr = instr_header_bytes(
        0,
        0,
        get_dec_factor(6),
        lines[0].0,
        lines[1].0,
        0,
        0,
        1,
        5,
        5,
    );
    let a_state = token_bytes(TOKEN_A);
    let b_state = token_bytes(TOKEN_B);
    let community = 0u32.to_le_bytes().to_vec();
    let lines_data = lines_bytes(&lines);
    let d = Deriverse::from_snapshot(&instr, &a_state, &b_state, &community, &lines_data)
        .unwrap();
    assert_eq!(d.order_book.iter_bids().len(), 5);
    assert_eq!(d.order_book.iter_asks().len(), 5);
}

#[test]
fn self_link_stops_after_one() {
    let lines = vec![((10.0 * DF as f64) as i64, 1_000, 0, NULL_ORDER, 0)];
    let instr = instr_header_bytes(
        0,
        0,
        get_dec_factor(6),
        lines[0].0,
        lines[0].0,
        0,
        0,
        0,
        7,
        7,
    );
    let a_state = token_bytes(TOKEN_A);
    let b_state = token_bytes(TOKEN_B);
    let community = 0u32.to_le_bytes().to_vec();
    let lines_data = lines_bytes(&lines);
    let d = Deriverse::from_snapshot(&instr, &a_state, &b_state, &community, &lines_data)
        .unwrap();
    assert_eq!(d.order_book.iter_bids().len(), 1);
}

#[test]
fn test_rpc() {
    // smoke check: a minimal valid snapshot is accepted and yields a live engine
    let instr = instr_header_bytes(1, 1, 1, 0, 0, 0, 0, 0, 0, 0);
    let a_state = token_bytes(TOKEN_A);
    let b_state = token_bytes(TOKEN_B);
    let community = 0u32.to_le_bytes().to_vec();
    let r = Deriverse::from_snapshot(&instr, &a_state, &b_state, &community, &[]);
    assert!(r.is_ok());
}
