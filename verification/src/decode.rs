use vstd::bytes::{spec_u32_from_le_bytes, spec_u64_from_le_bytes, u32_from_le_bytes, u64_from_le_bytes};
use vstd::prelude::*;
use vstd::slice::{slice_subrange, slice_to_vec};

use crate::error::DrvError;
use crate::instrument::{InstrAccountHeader, TokenState};
use crate::lines_linked_list::PxOrders;

verus! {

/// Size of the header segment at the start of the lines account, skipped
/// before the flat array of level records begins.
pub const SPOT_TRADE_ACCOUNT_HEADER_SIZE: usize = 64;

/// Size of one encoded price-level record.
pub const PX_ORDERS_SIZE: usize = 32;

/// Size of an encoded instrument account header.
pub const INSTR_HEADER_SIZE: usize = 192;

/// Size of an encoded token-state record.
pub const TOKEN_STATE_SIZE: usize = 72;

/// Size of an encoded community-fee header.
pub const COMMUNITY_HEADER_SIZE: usize = 4;

/// The signed 64-bit value encoded little-endian in an 8-byte sequence
/// (two's complement), as a mathematical integer.
pub open spec fn spec_i64_from_le_bytes(s: Seq<u8>) -> int {
    let x = spec_u64_from_le_bytes(s);
    if x <= i64::MAX as u64 {
        x as int
    } else {
        x as int - 0x1_0000_0000_0000_0000
    }
}

/// Reinterpret an unsigned 64-bit value as signed (two's complement).
fn u64_to_i64_twos(x: u64) -> (r: i64)
    ensures
        r as int == if x <= i64::MAX as u64 {
            x as int
        } else {
            x as int - 0x1_0000_0000_0000_0000
        },
{
    if x <= 0x7fff_ffff_ffff_ffffu64 {
        x as i64
    } else {
        ((x as i128) - 0x1_0000_0000_0000_0000i128) as i64
    }
}

/// Read the little-endian signed 64-bit field at `off`.
pub fn read_i64(data: &[u8], off: usize) -> (r: i64)
    requires
        off + 8 <= data@.len(),
    ensures
        r as int == spec_i64_from_le_bytes(data@.subrange(off as int, off as int + 8)),
{
    proof {
        vstd::slice::axiom_spec_len(data);
    }
    let s = slice_subrange(data, off, off + 8);
    let x = u64_from_le_bytes(s);
    u64_to_i64_twos(x)
}

/// Read the little-endian unsigned 64-bit field at `off`.
pub fn read_u64(data: &[u8], off: usize) -> (r: u64)
    requires
        off + 8 <= data@.len(),
    ensures
        r == spec_u64_from_le_bytes(data@.subrange(off as int, off as int + 8)),
{
    proof {
        vstd::slice::axiom_spec_len(data);
    }
    let s = slice_subrange(data, off, off + 8);
    u64_from_le_bytes(s)
}

/// Read the little-endian unsigned 32-bit field at `off`.
pub fn read_u32(data: &[u8], off: usize) -> (r: u32)
    requires
        off + 4 <= data@.len(),
    ensures
        r == spec_u32_from_le_bytes(data@.subrange(off as int, off as int + 4)),
{
    proof {
        vstd::slice::axiom_spec_len(data);
    }
    let s = slice_subrange(data, off, off + 4);
    u32_from_le_bytes(s)
}

/// Read the 32-byte address field at `off`.
pub fn read_addr(data: &[u8], off: usize) -> (r: Vec<u8>)
    requires
        off + 32 <= data@.len(),
    ensures
        r@ == data@.subrange(off as int, off as int + 32),
{
    proof {
        vstd::slice::axiom_spec_len(data);
    }
    let s = slice_subrange(data, off, off + 32);
    slice_to_vec(s)
}

/// The price-level record encoded at byte offset `off`: price at `off`,
/// quantity at `off + 8` (both signed 64-bit little-endian), then the
/// forward link, backward link and origin tag (unsigned 32-bit little-endian
/// at `off + 16`, `off + 20` and `off + 24`); the last four bytes of the
/// 32-byte record are reserved.
pub open spec fn px_orders_of(data: Seq<u8>, off: int) -> PxOrders {
    PxOrders {
        price: spec_i64_from_le_bytes(data.subrange(off, off + 8)) as i64,
        qty: spec_i64_from_le_bytes(data.subrange(off + 8, off + 16)) as i64,
        next: spec_u32_from_le_bytes(data.subrange(off + 16, off + 20)),
        prev: spec_u32_from_le_bytes(data.subrange(off + 20, off + 24)),
        sref: spec_u32_from_le_bytes(data.subrange(off + 24, off + 28)),
    }
}

/// Decode one price-level record at byte offset `off`.
pub fn decode_px_orders(data: &[u8], off: usize) -> (r: PxOrders)
    requires
        off + PX_ORDERS_SIZE <= data@.len(),
    ensures
        r == px_orders_of(data@, off as int),
{
    proof {
        vstd::slice::axiom_spec_len(data);
    }
    let price = read_i64(data, off);
    let qty = read_i64(data, off + 8);
    let next = read_u32(data, off + 16);
    let prev = read_u32(data, off + 20);
    let sref = read_u32(data, off + 24);
    proof {
        assert(spec_i64_from_le_bytes(data@.subrange(off as int, off as int + 8))
            == price as int);
        assert(i64::MIN <= spec_i64_from_le_bytes(data@.subrange(off as int, off as int + 8))
            <= i64::MAX);
    }
    PxOrders { price, qty, next, prev, sref }
}

/// Decode the flat array of price-level records that fills `data`; trailing
/// bytes that do not fill a whole record are ignored.
pub fn decode_lines(data: &[u8]) -> (r: Vec<PxOrders>)
    ensures
        r@.len() as int == data@.len() as int / PX_ORDERS_SIZE as int,
        forall|i: int|
            0 <= i < r@.len() ==> r@[i] == px_orders_of(data@, i * PX_ORDERS_SIZE as int),
{
    let n = data.len() / PX_ORDERS_SIZE;
    let mut out: Vec<PxOrders> = Vec::new();
    let mut i: usize = 0;
    while i < n
        invariant
            i <= n,
            n as int == data@.len() as int / PX_ORDERS_SIZE as int,
            n * PX_ORDERS_SIZE as int <= data@.len(),
            out@.len() == i,
            forall|j: int|
                0 <= j < i ==> out@[j] == px_orders_of(data@, j * PX_ORDERS_SIZE as int),
        decreases n - i,
    {
        proof {
            assert((i + 1) * PX_ORDERS_SIZE as int <= n * PX_ORDERS_SIZE as int)
                by (nonlinear_arith)
                requires
                    i + 1 <= n,
                    PX_ORDERS_SIZE as int >= 1,
            ;
        }
        proof {
            vstd::slice::axiom_spec_len(data);
            assert(i * PX_ORDERS_SIZE as int <= (i + 1) * PX_ORDERS_SIZE as int)
                by (nonlinear_arith)
                requires
                    PX_ORDERS_SIZE as int >= 1,
                    i >= 0,
            ;
        }
        let rec = decode_px_orders(data, i * PX_ORDERS_SIZE);
        out.push(rec);
        i = i + 1;
    }
    out
}

/// The decoded instrument header `h` carries exactly the fields encoded in
/// `data`.  Byte layout (all fields little-endian): the asset mint, currency
/// mint and maps addresses occupy bytes 0..96; the asset and currency token
/// ids bytes 96..104; the asset reserve, currency reserve, decimal factor,
/// best bid, best ask, last trade price and day volatility the eight-byte
/// fields at 104..160; the bid/ask head indices and line counts bytes
/// 160..176; the instrument id and the trading-enabled flag bytes 176..192.
pub open spec fn header_matches(h: InstrAccountHeader, data: Seq<u8>) -> bool {
    &&& h.asset_mint@ == data.subrange(0, 32)
    &&& h.crncy_mint@ == data.subrange(32, 64)
    &&& h.maps_address@ == data.subrange(64, 96)
    &&& h.asset_token_id == spec_u32_from_le_bytes(data.subrange(96, 100))
    &&& h.crncy_token_id == spec_u32_from_le_bytes(data.subrange(100, 104))
    &&& h.asset_tokens as int == spec_i64_from_le_bytes(data.subrange(104, 112))
    &&& h.crncy_tokens as int == spec_i64_from_le_bytes(data.subrange(112, 120))
    &&& h.dec_factor as int == spec_i64_from_le_bytes(data.subrange(120, 128))
    &&& h.best_bid as int == spec_i64_from_le_bytes(data.subrange(128, 136))
    &&& h.best_ask as int == spec_i64_from_le_bytes(data.subrange(136, 144))
    &&& h.last_px as int == spec_i64_from_le_bytes(data.subrange(144, 152))
    &&& h.day_volatility as int == spec_i64_from_le_bytes(data.subrange(152, 160))
    &&& h.bid_lines_begin == spec_u32_from_le_bytes(data.subrange(160, 164))
    &&& h.ask_lines_begin == spec_u32_from_le_bytes(data.subrange(164, 168))
    &&& h.bid_lines_count == spec_u32_from_le_bytes(data.subrange(168, 172))
    &&& h.ask_lines_count == spec_u32_from_le_bytes(data.subrange(172, 176))
    &&& h.instr_id == spec_u64_from_le_bytes(data.subrange(176, 184))
    &&& h.ps == spec_u64_from_le_bytes(data.subrange(184, 192))
}

/// Decode an instrument account header (layout: see `header_matches`).
///
/// Fails with `InvalidAccount` exactly when the buffer is shorter than the
/// record.
pub fn decode_instr_header(data: &[u8]) -> (r: Result<InstrAccountHeader, DrvError>)
    ensures
        r is Ok <==> data@.len() >= INSTR_HEADER_SIZE,
        r matches Err(e) ==> e == DrvError::InvalidAccount,
        r matches Ok(h) ==> header_matches(h, data@),
{
    if data.len() < INSTR_HEADER_SIZE {
        return Err(DrvError::InvalidAccount);
    }
    Ok(InstrAccountHeader {
        asset_mint: read_addr(data, 0),
        crncy_mint: read_addr(data, 32),
        maps_address: read_addr(data, 64),
        asset_token_id: read_u32(data, 96),
        crncy_token_id: read_u32(data, 100),
        asset_tokens: read_i64(data, 104),
        crncy_tokens: read_i64(data, 112),
        dec_factor: read_i64(data, 120),
        best_bid: read_i64(data, 128),
        best_ask: read_i64(data, 136),
        last_px: read_i64(data, 144),
        day_volatility: read_i64(data, 152),
        bid_lines_begin: read_u32(data, 160),
        ask_lines_begin: read_u32(data, 164),
        bid_lines_count: read_u32(data, 168),
        ask_lines_count: read_u32(data, 172),
        instr_id: read_u64(data, 176),
        ps: read_u64(data, 184),
    })
}

/// Decode a token-state record: the token's mint address at bytes 0..32, its
/// program sub-account address at 32..64, then the numeric token id and the
/// mask whose low byte is the token's decimal count.
///
/// Fails with `InvalidAccount` exactly when the buffer is shorter than the
/// record.
pub open spec fn token_matches(t: TokenState, data: Seq<u8>) -> bool {
    &&& t.address@ == data.subrange(0, 32)
    &&& t.program_address@ == data.subrange(32, 64)
    &&& t.id == spec_u32_from_le_bytes(data.subrange(64, 68))
    &&& t.mask == spec_u32_from_le_bytes(data.subrange(68, 72))
}

pub fn decode_token_state(data: &[u8]) -> (r: Result<TokenState, DrvError>)
    ensures
        r is Ok <==> data@.len() >= TOKEN_STATE_SIZE,
        r matches Err(e) ==> e == DrvError::InvalidAccount,
        r matches Ok(t) ==> token_matches(t, data@),
{
    if data.len() < TOKEN_STATE_SIZE {
        return Err(DrvError::InvalidAccount);
    }
    Ok(TokenState {
        address: read_addr(data, 0),
        program_address: read_addr(data, 32),
        id: read_u32(data, 64),
        mask: read_u32(data, 68),
    })
}

/// Decode the community-fee header: the spot fee rate at bytes 0..4.
///
/// Fails with `InvalidAccount` exactly when the buffer is shorter than the
/// record.
pub fn decode_community_fee_rate(data: &[u8]) -> (r: Result<u32, DrvError>)
    ensures
        r is Ok <==> data@.len() >= COMMUNITY_HEADER_SIZE,
        r matches Err(e) ==> e == DrvError::InvalidAccount,
        r matches Ok(v) ==> v == spec_u32_from_le_bytes(data@.subrange(0, 4)),
{
    if data.len() < COMMUNITY_HEADER_SIZE {
        return Err(DrvError::InvalidAccount);
    }
    Ok(read_u32(data, 0))
}

} // verus!
