use vstd::prelude::*;

use crate::amm::{DeriverseAmm, OrderSide};
use crate::error::DrvError;
use crate::instrument::{InstrAccountHeader, OffChainInstrAccountHeader, TokenState};
use crate::decode::{header_matches, spec_i64_from_le_bytes, token_matches, INSTR_HEADER_SIZE};
use crate::lines_linked_list::{book_matches, OrderBook, PxOrders};
use crate::math::trunc_div;
use vstd::bytes::spec_u32_from_le_bytes;

verus! {

/// Denominator of the fee rate: `fee_num / FEE_DENOM` is the fraction of
/// each notional increment charged as fee, where `fee_num` is the product of
/// the instrument's day volatility and the community spot fee rate.
pub const FEE_DENOM: i64 = 1_000_000_000;

/// Requested fill mode.  Only exact-input is supported.
#[derive(Clone, Copy, Debug, PartialEq, Eq, Structural)]
pub enum SwapMode {
    ExactIn,
    ExactOut,
}

/// A quote request: the amount supplied, the mint of the token supplied, and
/// the fill mode.
#[derive(Clone, Debug)]
pub struct QuoteParams {
    pub amount: u64,
    pub input_mint: Vec<u8>,
    pub swap_mode: SwapMode,
}

/// A completed quote: amounts are sign-normalized to unsigned; the fee is
/// denominated in the currency token, and `fee_pct` is the fee over the
/// input-side notional for a buy and over the output-side notional for a
/// sell.
pub struct Quote {
    pub in_amount: u64,
    pub out_amount: u64,
    pub fee_amount: u64,
    pub fee_pct: rust_decimal::Decimal,
}

#[verifier::external_type_specification]
#[verifier::external_body]
pub struct ExDecimal(rust_decimal::Decimal);

/// The 96-bit decimal quotient of two integers.
pub uninterp spec fn decimal_ratio_of(num: int, den: int) -> rust_decimal::Decimal;

/// Relies on rust_decimal's `From<i64>` and `Div` impls: converts both
/// integers to decimals and divides.  The division panics only on a zero
/// divisor or on overflow, and the quotient of two 64-bit integers always
/// fits, so a nonzero divisor suffices.
#[verifier::external_body]
fn decimal_ratio(num: i64, den: i64) -> (r: rust_decimal::Decimal)
    requires
        den != 0,
    ensures
        r == decimal_ratio_of(num as int, den as int),
{
    rust_decimal::Decimal::from(num) / rust_decimal::Decimal::from(den)
}

/// `x` reduced modulo 2^64 into an unsigned 64-bit value.
pub open spec fn as_u64_mod(x: int) -> u64 {
    (x % 0x1_0000_0000_0000_0000) as u64
}

/// The negation of `x`, reduced modulo 2^64 (how a signed net delta is
/// sign-normalized for reporting).
fn i64_neg_as_u64(x: i64) -> (r: u64)
    ensures
        r == as_u64_mod(-(x as int)),
{
    let ghost m: int = 0x1_0000_0000_0000_0000;
    if x <= 0 {
        let v: i128 = -(x as i128);
        proof {
            vstd::arithmetic::div_mod::lemma_small_mod((-(x as int)) as nat, m as nat);
        }
        v as u64
    } else {
        let r: u64 = (u64::MAX - (x as u64)) + 1;
        proof {
            vstd::arithmetic::div_mod::lemma_mod_add_multiples_vanish(-(x as int), m);
            vstd::arithmetic::div_mod::lemma_small_mod((m - x) as nat, m as nat);
        }
        r
    }
}

/// `x` reinterpreted as an unsigned 64-bit value (two's complement).
fn i64_as_u64_mod(x: i64) -> (r: u64)
    ensures
        r == as_u64_mod(x as int),
{
    let ghost m: int = 0x1_0000_0000_0000_0000;
    if x >= 0 {
        proof {
            vstd::arithmetic::div_mod::lemma_small_mod(x as nat, m as nat);
        }
        x as u64
    } else {
        let r: u64 = ((x as i128) + 0x1_0000_0000_0000_0000i128) as u64;
        proof {
            vstd::arithmetic::div_mod::lemma_mod_add_multiples_vanish(x as int, m);
            vstd::arithmetic::div_mod::lemma_small_mod((m + x) as nat, m as nat);
        }
        r
    }
}

/// Byte-for-byte equality of two addresses.
fn bytes_eq(a: &Vec<u8>, b: &Vec<u8>) -> (r: bool)
    ensures
        r == (a@ == b@),
{
    if a.len() != b.len() {
        return false;
    }
    let mut i: usize = 0;
    while i < a.len()
        invariant
            i <= a@.len(),
            a@.len() == b@.len(),
            forall|j: int| 0 <= j < i ==> a@[j] == b@[j],
        decreases a@.len() - i,
    {
        if a[i] != b[i] {
            return false;
        }
        i = i + 1;
    }
    proof {
        assert(a@ =~= b@);
    }
    true
}

/// One fee accrual: `fees` plus `base * fee_num / FEE_DENOM` (truncated
/// toward zero), or an arithmetic failure when the increment or the total
/// leaves the 64-bit range.
pub open spec fn add_fee_spec(fees: i64, base: i64, fee_num: i64) -> Result<i64, DrvError> {
    let inc = trunc_div(base as int * fee_num as int, FEE_DENOM as int);
    if inc > i64::MAX || inc < i64::MIN {
        Err(DrvError::ArithmeticOverflow)
    } else if fees + inc > i64::MAX || fees + inc < i64::MIN {
        Err(DrvError::ArithmeticOverflow)
    } else {
        Ok((fees + inc) as i64)
    }
}

fn add_fee(fees: i64, base: i64, fee_num: i64) -> (r: Result<i64, DrvError>)
    ensures
        r == add_fee_spec(fees, base, fee_num),
{
    assert(i128::MIN < (base as int) * (fee_num as int) <= i128::MAX) by (nonlinear_arith)
        requires
            i64::MIN <= base <= i64::MAX,
            i64::MIN <= fee_num <= i64::MAX,
    ;
    let p: i128 = (base as i128) * (fee_num as i128);
    let inc = crate::math::trunc_div_i128(p, FEE_DENOM as i128);
    if inc > i64::MAX as i128 || inc < i64::MIN as i128 {
        return Err(DrvError::ArithmeticOverflow);
    }
    match fees.checked_add(inc as i64) {
        Some(v) => Ok(v),
        None => Err(DrvError::ArithmeticOverflow),
    }
}

/// Simulation state of a sell (bid-side) walk: the private curve copy, the
/// asset quantity still to place, the currency notional received so far, and
/// the fees accrued so far.
#[derive(Clone, Copy, Debug)]
pub struct SellState {
    pub amm: DeriverseAmm,
    pub remaining_qty: i64,
    pub sum: i64,
    pub total_fees: i64,
}

/// Simulation state of a buy (ask-side) walk: the private curve copy, the
/// currency notional still to spend, the asset quantity received so far, and
/// the fees accrued so far.
#[derive(Clone, Copy, Debug)]
pub struct BuyState {
    pub amm: DeriverseAmm,
    pub remaining_sum: i64,
    pub qty: i64,
    pub total_fees: i64,
}

/// Outcome of one walk step: continue with the next level, stop with a final
/// state, or abort the call.
#[derive(Clone, Copy, Debug)]
pub enum StepOutcome<S> {
    Next(S),
    Stop(S),
    Fail,
}

/// Transfer a fill against the curve in a sell: the budget shrinks by the
/// traded quantity, the received notional and the asset reserve grow by it,
/// and the currency reserve shrinks by the traded notional.  Every update is
/// overflow-checked.
pub open spec fn sell_leg_spec(st: SellState, tq: i64, tm: i64) -> Result<SellState, DrvError> {
    let rem = st.remaining_qty as int - tq as int;
    let sum = st.sum as int + tm as int;
    let a = st.amm.a_tokens as int + tq as int;
    let b = st.amm.b_tokens as int - tm as int;
    if rem > i64::MAX || rem < i64::MIN || sum > i64::MAX || sum < i64::MIN || a > i64::MAX
        || a < i64::MIN || b > i64::MAX || b < i64::MIN {
        Err(DrvError::ArithmeticOverflow)
    } else {
        Ok(SellState {
            amm: DeriverseAmm { a_tokens: a as i64, b_tokens: b as i64, ..st.amm },
            remaining_qty: rem as i64,
            sum: sum as i64,
            total_fees: st.total_fees,
        })
    }
}

fn sell_leg(st: SellState, tq: i64, tm: i64) -> (r: Result<SellState, DrvError>)
    ensures
        r == sell_leg_spec(st, tq, tm),
{
    let rem = match st.remaining_qty.checked_sub(tq) {
        Some(v) => v,
        None => {
            return Err(DrvError::ArithmeticOverflow);
        },
    };
    let sum = match st.sum.checked_add(tm) {
        Some(v) => v,
        None => {
            return Err(DrvError::ArithmeticOverflow);
        },
    };
    let a = match st.amm.a_tokens.checked_add(tq) {
        Some(v) => v,
        None => {
            return Err(DrvError::ArithmeticOverflow);
        },
    };
    let b = match st.amm.b_tokens.checked_sub(tm) {
        Some(v) => v,
        None => {
            return Err(DrvError::ArithmeticOverflow);
        },
    };
    Ok(SellState {
        amm: DeriverseAmm { a_tokens: a, b_tokens: b, ..st.amm },
        remaining_qty: rem,
        sum,
        total_fees: st.total_fees,
    })
}

/// Transfer a fill against the curve in a buy: the budget shrinks by the
/// traded notional, the received quantity grows by the traded quantity, the
/// asset reserve shrinks by it, and the currency reserve grows by the traded
/// notional.  Every update is overflow-checked.
pub open spec fn buy_leg_spec(st: BuyState, tq: i64, tm: i64) -> Result<BuyState, DrvError> {
    let rem = st.remaining_sum as int - tm as int;
    let qty = st.qty as int + tq as int;
    let a = st.amm.a_tokens as int - tq as int;
    let b = st.amm.b_tokens as int + tm as int;
    if rem > i64::MAX || rem < i64::MIN || qty > i64::MAX || qty < i64::MIN || a > i64::MAX
        || a < i64::MIN || b > i64::MAX || b < i64::MIN {
        Err(DrvError::ArithmeticOverflow)
    } else {
        Ok(BuyState {
            amm: DeriverseAmm { a_tokens: a as i64, b_tokens: b as i64, ..st.amm },
            remaining_sum: rem as i64,
            qty: qty as i64,
            total_fees: st.total_fees,
        })
    }
}

fn buy_leg(st: BuyState, tq: i64, tm: i64) -> (r: Result<BuyState, DrvError>)
    ensures
        r == buy_leg_spec(st, tq, tm),
{
    let rem = match st.remaining_sum.checked_sub(tm) {
        Some(v) => v,
        None => {
            return Err(DrvError::ArithmeticOverflow);
        },
    };
    let qty = match st.qty.checked_add(tq) {
        Some(v) => v,
        None => {
            return Err(DrvError::ArithmeticOverflow);
        },
    };
    let a = match st.amm.a_tokens.checked_sub(tq) {
        Some(v) => v,
        None => {
            return Err(DrvError::ArithmeticOverflow);
        },
    };
    let b = match st.amm.b_tokens.checked_add(tm) {
        Some(v) => v,
        None => {
            return Err(DrvError::ArithmeticOverflow);
        },
    };
    Ok(BuyState {
        amm: DeriverseAmm { a_tokens: a, b_tokens: b, ..st.amm },
        remaining_sum: rem,
        qty,
        total_fees: st.total_fees,
    })
}


/// Apply the curve leg of a sell fill and accrue its fee, then stop.
pub open spec fn sell_settle_spec(st: SellState, tq: i64, tm: i64, fee_num: i64)
    -> StepOutcome<SellState> {
    match sell_leg_spec(st, tq, tm) {
        Err(_) => StepOutcome::Fail,
        Ok(st1) => match add_fee_spec(st1.total_fees, tm, fee_num) {
            Err(_) => StepOutcome::Fail,
            Ok(f) => StepOutcome::Stop(SellState { total_fees: f, ..st1 }),
        },
    }
}

/// Apply the curve leg of a sell fill, accrue its fee only when both fill
/// parts are nonzero, then stop.
pub open spec fn sell_tail_spec(st: SellState, tq: i64, tm: i64, fee_num: i64)
    -> StepOutcome<SellState> {
    match sell_leg_spec(st, tq, tm) {
        Err(_) => StepOutcome::Fail,
        Ok(st1) => if tm != 0 && tq != 0 {
            match add_fee_spec(st1.total_fees, tm, fee_num) {
                Err(_) => StepOutcome::Fail,
                Ok(f) => StepOutcome::Stop(SellState { total_fees: f, ..st1 }),
            }
        } else {
            StepOutcome::Stop(st1)
        },
    }
}

/// Settle the remaining sell budget against the curve alone, capped at the
/// execution-price bound: when the bound is stricter than the curve's
/// natural price, trade only down to the bound; otherwise consume the whole
/// remaining quantity at the curve's price.  A zero tradable quantity or
/// notional stops without a fill.
pub open spec fn sell_no_line_spec(st: SellState, amm_px: i64, bound_px: i64, fee_num: i64)
    -> StepOutcome<SellState> {
    if DeriverseAmm::partial_fill_spec(amm_px, bound_px, OrderSide::Bid) {
        match st.amm.amm_qty_spec(bound_px, OrderSide::Bid) {
            Err(_) => StepOutcome::Fail,
            Ok(tq) => match st.amm.amm_sum_spec(tq, OrderSide::Bid) {
                Err(_) => StepOutcome::Fail,
                Ok(tm) => if tq == 0 || tm == 0 {
                    StepOutcome::Stop(st)
                } else {
                    sell_settle_spec(st, tq, tm, fee_num)
                },
            },
        }
    } else {
        match st.amm.amm_sum_spec(st.remaining_qty, OrderSide::Bid) {
            Err(_) => StepOutcome::Fail,
            Ok(tm) => if tm == 0 {
                StepOutcome::Stop(st)
            } else {
                sell_settle_spec(st, st.remaining_qty, tm, fee_num)
            },
        }
    }
}

/// Split the last sell fill between the curve (up to the level's price) and
/// the level itself (any leftover budget, at the level's fixed price).
pub open spec fn sell_split_spec(st: SellState, line: PxOrders, fee_num: i64)
    -> StepOutcome<SellState> {
    match st.amm.amm_qty_spec(line.price, OrderSide::Bid) {
        Err(_) => StepOutcome::Fail,
        Ok(tq) => match st.amm.amm_sum_spec(tq, OrderSide::Bid) {
            Err(_) => StepOutcome::Fail,
            Ok(tm) => {
                let st1r = if tq != 0 && tm != 0 {
                    sell_leg_spec(st, tq, tm)
                } else {
                    Ok(st)
                };
                match st1r {
                    Err(_) => StepOutcome::Fail,
                    Ok(st1) => {
                        let st2r = if st1.remaining_qty > 0 {
                            match st1.amm.trade_sum_spec(st1.remaining_qty, line.price) {
                                Err(e) => Err(e),
                                Ok(fill_sum) => match add_fee_spec(
                                    st1.total_fees,
                                    fill_sum,
                                    fee_num,
                                ) {
                                    Err(e) => Err(e),
                                    Ok(f) => if st1.sum as int + fill_sum as int > i64::MAX {
                                        Err(DrvError::ArithmeticOverflow)
                                    } else {
                                        Ok(SellState {
                                            amm: st1.amm,
                                            remaining_qty: 0,
                                            sum: (st1.sum + fill_sum) as i64,
                                            total_fees: f,
                                        })
                                    },
                                },
                            }
                        } else {
                            Ok(st1)
                        };
                        match st2r {
                            Err(_) => StepOutcome::Fail,
                            Ok(st2) => if tq != 0 && tm != 0 {
                                match add_fee_spec(st2.total_fees, tm, fee_num) {
                                    Err(_) => StepOutcome::Fail,
                                    Ok(f) => StepOutcome::Stop(
                                        SellState { total_fees: f, ..st2 },
                                    ),
                                }
                            } else {
                                StepOutcome::Stop(st2)
                            },
                        }
                    },
                }
            },
        },
    }
}

/// The remaining sell budget fits inside this level.  In priority order: the
/// curve already dominates the level (fill against the curve only, capped at
/// the bound); the bound makes the level unreachable (fill against the curve
/// at the bound); otherwise split between curve and level.
pub open spec fn sell_fits_spec(
    st: SellState,
    line: PxOrders,
    amm_px: i64,
    bound_px: i64,
    fee_num: i64,
) -> StepOutcome<SellState> {
    if DeriverseAmm::last_line_spec(amm_px, line.price, OrderSide::Bid) {
        if DeriverseAmm::partial_fill_spec(amm_px, bound_px, OrderSide::Bid) {
            match st.amm.amm_qty_spec(bound_px, OrderSide::Bid) {
                Err(_) => StepOutcome::Fail,
                Ok(tq) => match st.amm.amm_sum_spec(tq, OrderSide::Bid) {
                    Err(_) => StepOutcome::Fail,
                    Ok(tm) => if tq == 0 || tm == 0 {
                        StepOutcome::Stop(st)
                    } else {
                        sell_tail_spec(st, tq, tm, fee_num)
                    },
                },
            }
        } else {
            match st.amm.amm_sum_spec(st.remaining_qty, OrderSide::Bid) {
                Err(_) => StepOutcome::Fail,
                Ok(tm) => if tm == 0 {
                    StepOutcome::Stop(st)
                } else {
                    sell_tail_spec(st, st.remaining_qty, tm, fee_num)
                },
            }
        }
    } else if DeriverseAmm::line_is_unreachable_spec(bound_px, line.price, OrderSide::Bid) {
        match st.amm.amm_qty_spec(bound_px, OrderSide::Bid) {
            Err(_) => StepOutcome::Fail,
            Ok(tq) => match st.amm.amm_sum_spec(tq, OrderSide::Bid) {
                Err(_) => StepOutcome::Fail,
                Ok(tm) => if tq == 0 || tm == 0 {
                    StepOutcome::Stop(st)
                } else {
                    sell_tail_spec(st, tq, tm, fee_num)
                },
            },
        }
    } else {
        sell_split_spec(st, line, fee_num)
    }
}

/// The remaining sell budget exceeds this level.  If the curve price after
/// also consuming the whole level still covers it, consume the level and
/// continue; otherwise this level is the crossing point: fill against the
/// curve up to the better of bound and level price, and stop.
pub open spec fn sell_exceeds_spec(
    st: SellState,
    line: PxOrders,
    bound_px: i64,
    fee_num: i64,
) -> StepOutcome<SellState> {
    let d = st.remaining_qty as int - line.qty as int;
    if d > i64::MAX || d < i64::MIN {
        StepOutcome::Fail
    } else {
        match st.amm.amm_px_spec(d as i64, OrderSide::Bid) {
            Err(_) => StepOutcome::Fail,
            Ok(next_px) => if DeriverseAmm::cover_line_spec(
                next_px,
                bound_px,
                line.price,
                OrderSide::Bid,
            ) {
                match st.amm.trade_sum_spec(line.qty, line.price) {
                    Err(_) => StepOutcome::Fail,
                    Ok(fill_sum) => match add_fee_spec(st.total_fees, fill_sum, fee_num) {
                        Err(_) => StepOutcome::Fail,
                        Ok(f) => if st.sum as int + fill_sum as int > i64::MAX {
                            StepOutcome::Fail
                        } else {
                            StepOutcome::Next(SellState {
                                amm: st.amm,
                                remaining_qty: d as i64,
                                sum: (st.sum + fill_sum) as i64,
                                total_fees: f,
                            })
                        },
                    },
                }
            } else {
                match st.amm.amm_qty_spec(
                    if line.price > bound_px { line.price } else { bound_px },
                    OrderSide::Bid,
                ) {
                    Err(_) => StepOutcome::Fail,
                    Ok(tq0) => {
                        let tq = if tq0 < st.remaining_qty { tq0 } else { st.remaining_qty };
                        match st.amm.amm_sum_spec(tq, OrderSide::Bid) {
                            Err(_) => StepOutcome::Fail,
                            Ok(tm) => if tq != 0 && tm != 0 {
                                sell_settle_spec(st, tq, tm, fee_num)
                            } else {
                                StepOutcome::Stop(st)
                            },
                        }
                    },
                }
            },
        }
    }
}

/// One step of the sell walk: the fill decision against the level `line_opt`
/// (none once the book side is exhausted), under the execution-price bound.
pub open spec fn sell_step_spec(
    st: SellState,
    line_opt: Option<PxOrders>,
    bound_px: i64,
    fee_num: i64,
) -> StepOutcome<SellState> {
    match st.amm.amm_px_spec(st.remaining_qty, OrderSide::Bid) {
        Err(_) => StepOutcome::Fail,
        Ok(amm_px) => match line_opt {
            None => sell_no_line_spec(st, amm_px, bound_px, fee_num),
            Some(line) => if st.remaining_qty <= line.qty {
                sell_fits_spec(st, line, amm_px, bound_px, fee_num)
            } else {
                sell_exceeds_spec(st, line, bound_px, fee_num)
            },
        },
    }
}

/// The sell walk from level `i` on: step against each level in turn, then
/// settle the remainder against the curve alone.
pub open spec fn sell_walk(
    levels: Seq<(u32, PxOrders)>,
    i: int,
    st: SellState,
    bound_px: i64,
    fee_num: i64,
) -> Result<SellState, DrvError>
    decreases levels.len() - i,
{
    if i < levels.len() {
        match sell_step_spec(st, Some(levels[i].1), bound_px, fee_num) {
            StepOutcome::Fail => Err(DrvError::ArithmeticOverflow),
            StepOutcome::Stop(s) => Ok(s),
            StepOutcome::Next(s) => sell_walk(levels, i + 1, s, bound_px, fee_num),
        }
    } else {
        match sell_step_spec(st, None, bound_px, fee_num) {
            StepOutcome::Fail => Err(DrvError::ArithmeticOverflow),
            StepOutcome::Stop(s) => Ok(s),
            StepOutcome::Next(s) => Ok(s),
        }
    }
}


/// Apply the curve leg of a buy fill and accrue its fee, then stop.
pub open spec fn buy_settle_spec(st: BuyState, tq: i64, tm: i64, fee_num: i64)
    -> StepOutcome<BuyState> {
    match buy_leg_spec(st, tq, tm) {
        Err(_) => StepOutcome::Fail,
        Ok(st1) => match add_fee_spec(st1.total_fees, tm, fee_num) {
            Err(_) => StepOutcome::Fail,
            Ok(f) => StepOutcome::Stop(BuyState { total_fees: f, ..st1 }),
        },
    }
}

/// Apply the curve leg of a buy fill, accrue its fee only when both fill
/// parts are nonzero, then stop.
pub open spec fn buy_tail_spec(st: BuyState, tq: i64, tm: i64, fee_num: i64)
    -> StepOutcome<BuyState> {
    match buy_leg_spec(st, tq, tm) {
        Err(_) => StepOutcome::Fail,
        Ok(st1) => if tm != 0 && tq != 0 {
            match add_fee_spec(st1.total_fees, tm, fee_num) {
                Err(_) => StepOutcome::Fail,
                Ok(f) => StepOutcome::Stop(BuyState { total_fees: f, ..st1 }),
            }
        } else {
            StepOutcome::Stop(st1)
        },
    }
}

/// Settle the remaining buy budget against the curve alone, capped at the
/// execution-price bound.
pub open spec fn buy_no_line_spec(st: BuyState, amm_px: i64, bound_px: i64, fee_num: i64)
    -> StepOutcome<BuyState> {
    if DeriverseAmm::partial_fill_spec(amm_px, bound_px, OrderSide::Ask) {
        match st.amm.amm_qty_spec(bound_px, OrderSide::Ask) {
            Err(_) => StepOutcome::Fail,
            Ok(tq) => match st.amm.amm_sum_spec(tq, OrderSide::Ask) {
                Err(_) => StepOutcome::Fail,
                Ok(tm) => if tq == 0 || tm == 0 {
                    StepOutcome::Stop(st)
                } else {
                    buy_settle_spec(st, tq, tm, fee_num)
                },
            },
        }
    } else {
        match st.amm.rev_qty_spec(st.remaining_sum) {
            Err(_) => StepOutcome::Fail,
            Ok(tq) => if tq == 0 {
                StepOutcome::Stop(st)
            } else {
                buy_settle_spec(st, tq, st.remaining_sum, fee_num)
            },
        }
    }
}

/// Split the last buy fill between the curve (up to the level's price) and
/// the level itself (any leftover notional, at the level's fixed price).
pub open spec fn buy_split_spec(st: BuyState, line: PxOrders, fee_num: i64)
    -> StepOutcome<BuyState> {
    match st.amm.amm_qty_spec(line.price, OrderSide::Ask) {
        Err(_) => StepOutcome::Fail,
        Ok(tq) => match st.amm.amm_sum_spec(tq, OrderSide::Ask) {
            Err(_) => StepOutcome::Fail,
            Ok(tm) => {
                let st1r = if tq != 0 && tm != 0 {
                    buy_leg_spec(st, tq, tm)
                } else {
                    Ok(st)
                };
                match st1r {
                    Err(_) => StepOutcome::Fail,
                    Ok(st1) => {
                        let st2r = if st1.remaining_sum > 0 {
                            if line.price <= 0 {
                                Err(DrvError::ArithmeticOverflow)
                            } else {
                                let fill = crate::math::trunc_div(
                                    st1.remaining_sum as int * st.amm.df as int,
                                    line.price as int,
                                );
                                if fill > i64::MAX || fill < i64::MIN {
                                    Err(DrvError::ArithmeticOverflow)
                                } else if st1.qty as int + fill > i64::MAX {
                                    Err(DrvError::ArithmeticOverflow)
                                } else {
                                    match add_fee_spec(
                                        st1.total_fees,
                                        st1.remaining_sum,
                                        fee_num,
                                    ) {
                                        Err(e) => Err(e),
                                        Ok(f) => Ok(BuyState {
                                            amm: st1.amm,
                                            remaining_sum: 0,
                                            qty: (st1.qty + fill) as i64,
                                            total_fees: f,
                                        }),
                                    }
                                }
                            }
                        } else {
                            Ok(st1)
                        };
                        match st2r {
                            Err(_) => StepOutcome::Fail,
                            Ok(st2) => if tq != 0 && tm != 0 {
                                match add_fee_spec(st2.total_fees, tm, fee_num) {
                                    Err(_) => StepOutcome::Fail,
                                    Ok(f) => StepOutcome::Stop(
                                        BuyState { total_fees: f, ..st2 },
                                    ),
                                }
                            } else {
                                StepOutcome::Stop(st2)
                            },
                        }
                    },
                }
            },
        },
    }
}

/// The remaining buy budget fits inside this level: curve-dominates,
/// unreachable-level and split cases, in priority order.
pub open spec fn buy_fits_spec(
    st: BuyState,
    line: PxOrders,
    amm_px: i64,
    bound_px: i64,
    fee_num: i64,
) -> StepOutcome<BuyState> {
    if DeriverseAmm::last_line_spec(amm_px, line.price, OrderSide::Ask) {
        if DeriverseAmm::partial_fill_spec(amm_px, bound_px, OrderSide::Ask) {
            match st.amm.amm_qty_spec(bound_px, OrderSide::Ask) {
                Err(_) => StepOutcome::Fail,
                Ok(tq) => match st.amm.amm_sum_spec(tq, OrderSide::Ask) {
                    Err(_) => StepOutcome::Fail,
                    Ok(tm) => if tq == 0 || tm == 0 {
                        StepOutcome::Stop(st)
                    } else {
                        buy_tail_spec(st, tq, tm, fee_num)
                    },
                },
            }
        } else {
            match st.amm.rev_qty_spec(st.remaining_sum) {
                Err(_) => StepOutcome::Fail,
                Ok(tq) => if tq == 0 {
                    StepOutcome::Stop(st)
                } else {
                    buy_tail_spec(st, tq, st.remaining_sum, fee_num)
                },
            }
        }
    } else if DeriverseAmm::line_is_unreachable_spec(bound_px, line.price, OrderSide::Ask) {
        match st.amm.amm_qty_spec(bound_px, OrderSide::Ask) {
            Err(_) => StepOutcome::Fail,
            Ok(tq) => match st.amm.amm_sum_spec(tq, OrderSide::Ask) {
                Err(_) => StepOutcome::Fail,
                Ok(tm) => if tq == 0 || tm == 0 {
                    StepOutcome::Stop(st)
                } else {
                    buy_tail_spec(st, tq, tm, fee_num)
                },
            },
        }
    } else {
        buy_split_spec(st, line, fee_num)
    }
}

/// The remaining buy budget exceeds this level: consume it whole and
/// continue when the curve price after doing so still covers it, else fill
/// against the curve up to the better of bound and level price, consume the
/// level if the curve price before the fill covered it, and stop.
pub open spec fn buy_exceeds_spec(
    st: BuyState,
    line: PxOrders,
    line_sum: i64,
    amm_px: i64,
    bound_px: i64,
    fee_num: i64,
) -> StepOutcome<BuyState> {
    let d = st.remaining_sum as int - line_sum as int;
    if d > i64::MAX || d < i64::MIN {
        StepOutcome::Fail
    } else {
        match st.amm.rev_px_spec(d as i64) {
            Err(_) => StepOutcome::Fail,
            Ok(next_px) => if DeriverseAmm::cover_line_spec(
                next_px,
                bound_px,
                line.price,
                OrderSide::Ask,
            ) {
                if st.qty as int + line.qty as int > i64::MAX || (st.qty as int
                    + line.qty as int) < i64::MIN {
                    StepOutcome::Fail
                } else {
                    match add_fee_spec(st.total_fees, line_sum, fee_num) {
                        Err(_) => StepOutcome::Fail,
                        Ok(f) => StepOutcome::Next(BuyState {
                            amm: st.amm,
                            remaining_sum: d as i64,
                            qty: (st.qty + line.qty) as i64,
                            total_fees: f,
                        }),
                    }
                }
            } else {
                match st.amm.rev_sum_spec(
                    if line.price < bound_px { line.price } else { bound_px },
                ) {
                    Err(_) => StepOutcome::Fail,
                    Ok(tm0) => {
                        let tm = if tm0 < st.remaining_sum { tm0 } else { st.remaining_sum };
                        match st.amm.rev_qty_spec(tm) {
                            Err(_) => StepOutcome::Fail,
                            Ok(tq) => {
                                let st1r = if tq != 0 && tm != 0 {
                                    match buy_leg_spec(st, tq, tm) {
                                        Err(e) => Err(e),
                                        Ok(s1) => add_fee_res(s1, tm, fee_num),
                                    }
                                } else {
                                    Ok(st)
                                };
                                match st1r {
                                    Err(_) => StepOutcome::Fail,
                                    Ok(st1) => if DeriverseAmm::cover_line_spec(
                                        amm_px,
                                        bound_px,
                                        line.price,
                                        OrderSide::Ask,
                                    ) {
                                        buy_consume_line_spec(st1, line, line_sum, fee_num)
                                    } else {
                                        StepOutcome::Stop(st1)
                                    },
                                }
                            },
                        }
                    },
                }
            },
        }
    }
}

/// Accrue a fee onto a buy state.
pub open spec fn add_fee_res(st: BuyState, base: i64, fee_num: i64) -> Result<BuyState, DrvError> {
    match add_fee_spec(st.total_fees, base, fee_num) {
        Err(e) => Err(e),
        Ok(f) => Ok(BuyState { total_fees: f, ..st }),
    }
}

/// Consume a whole level at the crossing point of a buy, then stop.
pub open spec fn buy_consume_line_spec(st: BuyState, line: PxOrders, line_sum: i64, fee_num: i64)
    -> StepOutcome<BuyState> {
    if st.qty as int + line.qty as int > i64::MAX || (st.qty as int + line.qty as int)
        < i64::MIN {
        StepOutcome::Fail
    } else {
        match add_fee_spec(st.total_fees, line_sum, fee_num) {
            Err(_) => StepOutcome::Fail,
            Ok(f) => {
                let rem = st.remaining_sum as int - line_sum as int;
                if rem > i64::MAX || rem < i64::MIN {
                    StepOutcome::Fail
                } else {
                    StepOutcome::Stop(BuyState {
                        amm: st.amm,
                        remaining_sum: rem as i64,
                        qty: (st.qty + line.qty) as i64,
                        total_fees: f,
                    })
                }
            },
        }
    }
}

/// One step of the buy walk: the fill decision against the level `line_opt`
/// (none once the book side is exhausted), under the execution-price bound.
pub open spec fn buy_step_spec(
    st: BuyState,
    line_opt: Option<PxOrders>,
    bound_px: i64,
    fee_num: i64,
) -> StepOutcome<BuyState> {
    match st.amm.rev_px_spec(st.remaining_sum) {
        Err(_) => StepOutcome::Fail,
        Ok(amm_px) => match line_opt {
            None => buy_no_line_spec(st, amm_px, bound_px, fee_num),
            Some(line) => match st.amm.trade_sum_spec(line.qty, line.price) {
                Err(_) => StepOutcome::Fail,
                Ok(line_sum) => if st.remaining_sum <= line_sum {
                    buy_fits_spec(st, line, amm_px, bound_px, fee_num)
                } else {
                    buy_exceeds_spec(st, line, line_sum, amm_px, bound_px, fee_num)
                },
            },
        },
    }
}

/// The buy walk from level `i` on.
pub open spec fn buy_walk(
    levels: Seq<(u32, PxOrders)>,
    i: int,
    st: BuyState,
    bound_px: i64,
    fee_num: i64,
) -> Result<BuyState, DrvError>
    decreases levels.len() - i,
{
    if i < levels.len() {
        match buy_step_spec(st, Some(levels[i].1), bound_px, fee_num) {
            StepOutcome::Fail => Err(DrvError::ArithmeticOverflow),
            StepOutcome::Stop(s) => Ok(s),
            StepOutcome::Next(s) => buy_walk(levels, i + 1, s, bound_px, fee_num),
        }
    } else {
        match buy_step_spec(st, None, bound_px, fee_num) {
            StepOutcome::Fail => Err(DrvError::ArithmeticOverflow),
            StepOutcome::Stop(s) => Ok(s),
            StepOutcome::Next(s) => Ok(s),
        }
    }
}


fn sell_settle(st: SellState, tq: i64, tm: i64, fee_num: i64) -> (r: StepOutcome<SellState>)
    ensures
        r == sell_settle_spec(st, tq, tm, fee_num),
{
    match sell_leg(st, tq, tm) {
        Err(_) => StepOutcome::Fail,
        Ok(st1) => match add_fee(st1.total_fees, tm, fee_num) {
            Err(_) => StepOutcome::Fail,
            Ok(f) => StepOutcome::Stop(SellState { total_fees: f, ..st1 }),
        },
    }
}

fn sell_tail(st: SellState, tq: i64, tm: i64, fee_num: i64) -> (r: StepOutcome<SellState>)
    ensures
        r == sell_tail_spec(st, tq, tm, fee_num),
{
    match sell_leg(st, tq, tm) {
        Err(_) => StepOutcome::Fail,
        Ok(st1) => if tm != 0 && tq != 0 {
            match add_fee(st1.total_fees, tm, fee_num) {
                Err(_) => StepOutcome::Fail,
                Ok(f) => StepOutcome::Stop(SellState { total_fees: f, ..st1 }),
            }
        } else {
            StepOutcome::Stop(st1)
        },
    }
}

fn sell_no_line(st: SellState, amm_px: i64, bound_px: i64, fee_num: i64)
    -> (r: StepOutcome<SellState>)
    requires
        st.amm.wf(),
    ensures
        r == sell_no_line_spec(st, amm_px, bound_px, fee_num),
{
    if DeriverseAmm::partial_fill(amm_px, bound_px, OrderSide::Bid) {
        let tq = match st.amm.get_amm_qty(bound_px, OrderSide::Bid) {
            Ok(v) => v,
            Err(_) => {
                return StepOutcome::Fail;
            },
        };
        let tm = match st.amm.get_amm_sum(tq, OrderSide::Bid) {
            Ok(v) => v,
            Err(_) => {
                return StepOutcome::Fail;
            },
        };
        if tq == 0 || tm == 0 {
            StepOutcome::Stop(st)
        } else {
            sell_settle(st, tq, tm, fee_num)
        }
    } else {
        let tm = match st.amm.get_amm_sum(st.remaining_qty, OrderSide::Bid) {
            Ok(v) => v,
            Err(_) => {
                return StepOutcome::Fail;
            },
        };
        if tm == 0 {
            StepOutcome::Stop(st)
        } else {
            sell_settle(st, st.remaining_qty, tm, fee_num)
        }
    }
}

fn sell_split(st: SellState, line: PxOrders, fee_num: i64) -> (r: StepOutcome<SellState>)
    requires
        st.amm.wf(),
    ensures
        r == sell_split_spec(st, line, fee_num),
{
    let tq = match st.amm.get_amm_qty(line.price, OrderSide::Bid) {
        Ok(v) => v,
        Err(_) => {
            return StepOutcome::Fail;
        },
    };
    let tm = match st.amm.get_amm_sum(tq, OrderSide::Bid) {
        Ok(v) => v,
        Err(_) => {
            return StepOutcome::Fail;
        },
    };
    let st1 = if tq != 0 && tm != 0 {
        match sell_leg(st, tq, tm) {
            Ok(s) => s,
            Err(_) => {
                return StepOutcome::Fail;
            },
        }
    } else {
        st
    };
    let st2 = if st1.remaining_qty > 0 {
        let fill_sum = match st1.amm.trade_sum(st1.remaining_qty, line.price) {
            Ok(v) => v,
            Err(_) => {
                return StepOutcome::Fail;
            },
        };
        let f = match add_fee(st1.total_fees, fill_sum, fee_num) {
            Ok(v) => v,
            Err(_) => {
                return StepOutcome::Fail;
            },
        };
        let sum2 = match st1.sum.checked_add(fill_sum) {
            Some(v) => v,
            None => {
                return StepOutcome::Fail;
            },
        };
        SellState { amm: st1.amm, remaining_qty: 0, sum: sum2, total_fees: f }
    } else {
        st1
    };
    if tq != 0 && tm != 0 {
        match add_fee(st2.total_fees, tm, fee_num) {
            Err(_) => StepOutcome::Fail,
            Ok(f) => StepOutcome::Stop(SellState { total_fees: f, ..st2 }),
        }
    } else {
        StepOutcome::Stop(st2)
    }
}

fn sell_fits(st: SellState, line: PxOrders, amm_px: i64, bound_px: i64, fee_num: i64)
    -> (r: StepOutcome<SellState>)
    requires
        st.amm.wf(),
    ensures
        r == sell_fits_spec(st, line, amm_px, bound_px, fee_num),
{
    if DeriverseAmm::last_line(amm_px, line.price, OrderSide::Bid) {
        if DeriverseAmm::partial_fill(amm_px, bound_px, OrderSide::Bid) {
            let tq = match st.amm.get_amm_qty(bound_px, OrderSide::Bid) {
                Ok(v) => v,
                Err(_) => {
                    return StepOutcome::Fail;
                },
            };
            let tm = match st.amm.get_amm_sum(tq, OrderSide::Bid) {
                Ok(v) => v,
                Err(_) => {
                    return StepOutcome::Fail;
                },
            };
            if tq == 0 || tm == 0 {
                StepOutcome::Stop(st)
            } else {
                sell_tail(st, tq, tm, fee_num)
            }
        } else {
            let tm = match st.amm.get_amm_sum(st.remaining_qty, OrderSide::Bid) {
                Ok(v) => v,
                Err(_) => {
                    return StepOutcome::Fail;
                },
            };
            if tm == 0 {
                StepOutcome::Stop(st)
            } else {
                sell_tail(st, st.remaining_qty, tm, fee_num)
            }
        }
    } else if DeriverseAmm::line_is_unreachable(bound_px, line.price, OrderSide::Bid) {
        let tq = match st.amm.get_amm_qty(bound_px, OrderSide::Bid) {
            Ok(v) => v,
            Err(_) => {
                return StepOutcome::Fail;
            },
        };
        let tm = match st.amm.get_amm_sum(tq, OrderSide::Bid) {
            Ok(v) => v,
            Err(_) => {
                return StepOutcome::Fail;
            },
        };
        if tq == 0 || tm == 0 {
            StepOutcome::Stop(st)
        } else {
            sell_tail(st, tq, tm, fee_num)
        }
    } else {
        sell_split(st, line, fee_num)
    }
}

fn sell_exceeds(st: SellState, line: PxOrders, bound_px: i64, fee_num: i64)
    -> (r: StepOutcome<SellState>)
    requires
        st.amm.wf(),
    ensures
        r == sell_exceeds_spec(st, line, bound_px, fee_num),
{
    let d = match st.remaining_qty.checked_sub(line.qty) {
        Some(v) => v,
        None => {
            return StepOutcome::Fail;
        },
    };
    let next_px = match st.amm.get_amm_px(d, OrderSide::Bid) {
        Ok(v) => v,
        Err(_) => {
            return StepOutcome::Fail;
        },
    };
    if DeriverseAmm::cover_line(next_px, bound_px, line.price, OrderSide::Bid) {
        let fill_sum = match st.amm.trade_sum(line.qty, line.price) {
            Ok(v) => v,
            Err(_) => {
                return StepOutcome::Fail;
            },
        };
        let f = match add_fee(st.total_fees, fill_sum, fee_num) {
            Ok(v) => v,
            Err(_) => {
                return StepOutcome::Fail;
            },
        };
        let sum2 = match st.sum.checked_add(fill_sum) {
            Some(v) => v,
            None => {
                return StepOutcome::Fail;
            },
        };
        StepOutcome::Next(SellState {
            amm: st.amm,
            remaining_qty: d,
            sum: sum2,
            total_fees: f,
        })
    } else {
        let target = if line.price > bound_px {
            line.price
        } else {
            bound_px
        };
        let tq0 = match st.amm.get_amm_qty(target, OrderSide::Bid) {
            Ok(v) => v,
            Err(_) => {
                return StepOutcome::Fail;
            },
        };
        let tq = if tq0 < st.remaining_qty {
            tq0
        } else {
            st.remaining_qty
        };
        let tm = match st.amm.get_amm_sum(tq, OrderSide::Bid) {
            Ok(v) => v,
            Err(_) => {
                return StepOutcome::Fail;
            },
        };
        if tq != 0 && tm != 0 {
            sell_settle(st, tq, tm, fee_num)
        } else {
            StepOutcome::Stop(st)
        }
    }
}

fn sell_step(st: SellState, line_opt: Option<PxOrders>, bound_px: i64, fee_num: i64)
    -> (r: StepOutcome<SellState>)
    requires
        st.amm.wf(),
    ensures
        r == sell_step_spec(st, line_opt, bound_px, fee_num),
{
    let amm_px = match st.amm.get_amm_px(st.remaining_qty, OrderSide::Bid) {
        Ok(v) => v,
        Err(_) => {
            return StepOutcome::Fail;
        },
    };
    match line_opt {
        None => sell_no_line(st, amm_px, bound_px, fee_num),
        Some(line) => if st.remaining_qty <= line.qty {
            sell_fits(st, line, amm_px, bound_px, fee_num)
        } else {
            sell_exceeds(st, line, bound_px, fee_num)
        },
    }
}


fn buy_settle(st: BuyState, tq: i64, tm: i64, fee_num: i64) -> (r: StepOutcome<BuyState>)
    ensures
        r == buy_settle_spec(st, tq, tm, fee_num),
{
    match buy_leg(st, tq, tm) {
        Err(_) => StepOutcome::Fail,
        Ok(st1) => match add_fee(st1.total_fees, tm, fee_num) {
            Err(_) => StepOutcome::Fail,
            Ok(f) => StepOutcome::Stop(BuyState { total_fees: f, ..st1 }),
        },
    }
}

fn buy_tail(st: BuyState, tq: i64, tm: i64, fee_num: i64) -> (r: StepOutcome<BuyState>)
    ensures
        r == buy_tail_spec(st, tq, tm, fee_num),
{
    match buy_leg(st, tq, tm) {
        Err(_) => StepOutcome::Fail,
        Ok(st1) => if tm != 0 && tq != 0 {
            match add_fee(st1.total_fees, tm, fee_num) {
                Err(_) => StepOutcome::Fail,
                Ok(f) => StepOutcome::Stop(BuyState { total_fees: f, ..st1 }),
            }
        } else {
            StepOutcome::Stop(st1)
        },
    }
}

fn buy_no_line(st: BuyState, amm_px: i64, bound_px: i64, fee_num: i64)
    -> (r: StepOutcome<BuyState>)
    requires
        st.amm.wf(),
    ensures
        r == buy_no_line_spec(st, amm_px, bound_px, fee_num),
{
    if DeriverseAmm::partial_fill(amm_px, bound_px, OrderSide::Ask) {
        let tq = match st.amm.get_amm_qty(bound_px, OrderSide::Ask) {
            Ok(v) => v,
            Err(_) => {
                return StepOutcome::Fail;
            },
        };
        let tm = match st.amm.get_amm_sum(tq, OrderSide::Ask) {
            Ok(v) => v,
            Err(_) => {
                return StepOutcome::Fail;
            },
        };
        if tq == 0 || tm == 0 {
            StepOutcome::Stop(st)
        } else {
            buy_settle(st, tq, tm, fee_num)
        }
    } else {
        let tq = match st.amm.get_reversed_amm_qty(st.remaining_sum) {
            Ok(v) => v,
            Err(_) => {
                return StepOutcome::Fail;
            },
        };
        if tq == 0 {
            StepOutcome::Stop(st)
        } else {
            buy_settle(st, tq, st.remaining_sum, fee_num)
        }
    }
}

fn buy_split(st: BuyState, line: PxOrders, fee_num: i64) -> (r: StepOutcome<BuyState>)
    requires
        st.amm.wf(),
    ensures
        r == buy_split_spec(st, line, fee_num),
{
    let tq = match st.amm.get_amm_qty(line.price, OrderSide::Ask) {
        Ok(v) => v,
        Err(_) => {
            return StepOutcome::Fail;
        },
    };
    let tm = match st.amm.get_amm_sum(tq, OrderSide::Ask) {
        Ok(v) => v,
        Err(_) => {
            return StepOutcome::Fail;
        },
    };
    let st1 = if tq != 0 && tm != 0 {
        match buy_leg(st, tq, tm) {
            Ok(s) => s,
            Err(_) => {
                return StepOutcome::Fail;
            },
        }
    } else {
        st
    };
    let st2 = if st1.remaining_sum > 0 {
        if line.price <= 0 {
            return StepOutcome::Fail;
        }
        assert(i128::MIN < (st1.remaining_sum as int) * (st.amm.df as int) <= i128::MAX)
            by (nonlinear_arith)
            requires
                i64::MIN <= st1.remaining_sum <= i64::MAX,
                i64::MIN <= st.amm.df <= i64::MAX,
        ;
        let p: i128 = (st1.remaining_sum as i128) * (st.amm.df as i128);
        let fill128 = crate::math::trunc_div_i128(p, line.price as i128);
        if fill128 > i64::MAX as i128 || fill128 < i64::MIN as i128 {
            return StepOutcome::Fail;
        }
        let fill = fill128 as i64;
        let qty2 = match st1.qty.checked_add(fill) {
            Some(v) => v,
            None => {
                return StepOutcome::Fail;
            },
        };
        let f = match add_fee(st1.total_fees, st1.remaining_sum, fee_num) {
            Ok(v) => v,
            Err(_) => {
                return StepOutcome::Fail;
            },
        };
        BuyState { amm: st1.amm, remaining_sum: 0, qty: qty2, total_fees: f }
    } else {
        st1
    };
    if tq != 0 && tm != 0 {
        match add_fee(st2.total_fees, tm, fee_num) {
            Err(_) => StepOutcome::Fail,
            Ok(f) => StepOutcome::Stop(BuyState { total_fees: f, ..st2 }),
        }
    } else {
        StepOutcome::Stop(st2)
    }
}

fn buy_fits(st: BuyState, line: PxOrders, amm_px: i64, bound_px: i64, fee_num: i64)
    -> (r: StepOutcome<BuyState>)
    requires
        st.amm.wf(),
    ensures
        r == buy_fits_spec(st, line, amm_px, bound_px, fee_num),
{
    if DeriverseAmm::last_line(amm_px, line.price, OrderSide::Ask) {
        if DeriverseAmm::partial_fill(amm_px, bound_px, OrderSide::Ask) {
            let tq = match st.amm.get_amm_qty(bound_px, OrderSide::Ask) {
                Ok(v) => v,
                Err(_) => {
                    return StepOutcome::Fail;
                },
            };
            let tm = match st.amm.get_amm_sum(tq, OrderSide::Ask) {
                Ok(v) => v,
                Err(_) => {
                    return StepOutcome::Fail;
                },
            };
            if tq == 0 || tm == 0 {
                StepOutcome::Stop(st)
            } else {
                buy_tail(st, tq, tm, fee_num)
            }
        } else {
            let tq = match st.amm.get_reversed_amm_qty(st.remaining_sum) {
                Ok(v) => v,
                Err(_) => {
                    return StepOutcome::Fail;
                },
            };
            if tq == 0 {
                StepOutcome::Stop(st)
            } else {
                buy_tail(st, tq, st.remaining_sum, fee_num)
            }
        }
    } else if DeriverseAmm::line_is_unreachable(bound_px, line.price, OrderSide::Ask) {
        let tq = match st.amm.get_amm_qty(bound_px, OrderSide::Ask) {
            Ok(v) => v,
            Err(_) => {
                return StepOutcome::Fail;
            },
        };
        let tm = match st.amm.get_amm_sum(tq, OrderSide::Ask) {
            Ok(v) => v,
            Err(_) => {
                return StepOutcome::Fail;
            },
        };
        if tq == 0 || tm == 0 {
            StepOutcome::Stop(st)
        } else {
            buy_tail(st, tq, tm, fee_num)
        }
    } else {
        buy_split(st, line, fee_num)
    }
}

fn buy_consume_line(st: BuyState, line: PxOrders, line_sum: i64, fee_num: i64)
    -> (r: StepOutcome<BuyState>)
    ensures
        r == buy_consume_line_spec(st, line, line_sum, fee_num),
{
    let qty2 = match st.qty.checked_add(line.qty) {
        Some(v) => v,
        None => {
            return StepOutcome::Fail;
        },
    };
    let f = match add_fee(st.total_fees, line_sum, fee_num) {
        Ok(v) => v,
        Err(_) => {
            return StepOutcome::Fail;
        },
    };
    let rem = match st.remaining_sum.checked_sub(line_sum) {
        Some(v) => v,
        None => {
            return StepOutcome::Fail;
        },
    };
    StepOutcome::Stop(BuyState { amm: st.amm, remaining_sum: rem, qty: qty2, total_fees: f })
}

fn buy_exceeds(
    st: BuyState,
    line: PxOrders,
    line_sum: i64,
    amm_px: i64,
    bound_px: i64,
    fee_num: i64,
) -> (r: StepOutcome<BuyState>)
    requires
        st.amm.wf(),
    ensures
        r == buy_exceeds_spec(st, line, line_sum, amm_px, bound_px, fee_num),
{
    let d = match st.remaining_sum.checked_sub(line_sum) {
        Some(v) => v,
        None => {
            return StepOutcome::Fail;
        },
    };
    let next_px = match st.amm.get_reversed_amm_px(d) {
        Ok(v) => v,
        Err(_) => {
            return StepOutcome::Fail;
        },
    };
    if DeriverseAmm::cover_line(next_px, bound_px, line.price, OrderSide::Ask) {
        let qty2 = match st.qty.checked_add(line.qty) {
            Some(v) => v,
            None => {
                return StepOutcome::Fail;
            },
        };
        let f = match add_fee(st.total_fees, line_sum, fee_num) {
            Ok(v) => v,
            Err(_) => {
                return StepOutcome::Fail;
            },
        };
        StepOutcome::Next(BuyState {
            amm: st.amm,
            remaining_sum: d,
            qty: qty2,
            total_fees: f,
        })
    } else {
        let target = if line.price < bound_px {
            line.price
        } else {
            bound_px
        };
        let tm0 = match st.amm.get_reversed_amm_sum(target) {
            Ok(v) => v,
            Err(_) => {
                return StepOutcome::Fail;
            },
        };
        let tm = if tm0 < st.remaining_sum {
            tm0
        } else {
            st.remaining_sum
        };
        let tq = match st.amm.get_reversed_amm_qty(tm) {
            Ok(v) => v,
            Err(_) => {
                return StepOutcome::Fail;
            },
        };
        let st1 = if tq != 0 && tm != 0 {
            let s1 = match buy_leg(st, tq, tm) {
                Ok(s) => s,
                Err(_) => {
                    return StepOutcome::Fail;
                },
            };
            match add_fee(s1.total_fees, tm, fee_num) {
                Ok(f) => BuyState { total_fees: f, ..s1 },
                Err(_) => {
                    return StepOutcome::Fail;
                },
            }
        } else {
            st
        };
        if DeriverseAmm::cover_line(amm_px, bound_px, line.price, OrderSide::Ask) {
            buy_consume_line(st1, line, line_sum, fee_num)
        } else {
            StepOutcome::Stop(st1)
        }
    }
}

fn buy_step(st: BuyState, line_opt: Option<PxOrders>, bound_px: i64, fee_num: i64)
    -> (r: StepOutcome<BuyState>)
    requires
        st.amm.wf(),
    ensures
        r == buy_step_spec(st, line_opt, bound_px, fee_num),
{
    let amm_px = match st.amm.get_reversed_amm_px(st.remaining_sum) {
        Ok(v) => v,
        Err(_) => {
            return StepOutcome::Fail;
        },
    };
    match line_opt {
        None => buy_no_line(st, amm_px, bound_px, fee_num),
        Some(line) => {
            let line_sum = match st.amm.trade_sum(line.qty, line.price) {
                Ok(v) => v,
                Err(_) => {
                    return StepOutcome::Fail;
                },
            };
            if st.remaining_sum <= line_sum {
                buy_fits(st, line, amm_px, bound_px, fee_num)
            } else {
                buy_exceeds(st, line, line_sum, amm_px, bound_px, fee_num)
            }
        },
    }
}


/// The quote engine: the decoded snapshot state a single quote call reads.
pub struct Deriverse {
    pub instr_header: InstrAccountHeader,
    pub a_token_state: TokenState,
    pub b_token_state: TokenState,
    pub order_book: OrderBook,
    pub amm: DeriverseAmm,
    pub fee_num: i64,
}

impl Deriverse {
    /// Validity of an engine instance: a well-formed curve state and a
    /// nonnegative fee-rate numerator.  `from_snapshot` establishes it.
    pub open spec fn wf(self) -> bool {
        &&& self.amm.wf()
        &&& self.fee_num >= 0
    }
}

/// Assembly of a sell quote from the final walk state: the net asset delta
/// is the consumed budget (negated), the net currency delta is the received
/// notional less fees; a zero net delta on either side is a failed swap,
/// otherwise both are sign-normalized and reported with the fee ratio over
/// the output-side notional.
pub open spec fn quote_sell_spec(d: Deriverse, amount_i: i64, price: i64, px: i64)
    -> Result<Quote, DrvError> {
    let st0 = SellState { amm: d.amm, remaining_qty: amount_i, sum: 0, total_fees: 0 };
    let active = price < px || d.order_book.cross_spec(price, OrderSide::Bid);
    let walked = if active {
        sell_walk(d.order_book.bids_spec(), 0, st0, price, d.fee_num)
    } else {
        Ok(st0)
    };
    match walked {
        Err(e) => Err(e),
        Ok(stf) => sell_assemble_spec(amount_i, stf),
    }
}

/// The sell quote built from the final walk state.
pub open spec fn sell_assemble_spec(amount_i: i64, stf: SellState) -> Result<Quote, DrvError> {
    let diff = amount_i as int - stf.remaining_qty as int;
    if diff > i64::MAX || diff < i64::MIN {
        Err(DrvError::ArithmeticOverflow)
    } else if (0 - diff) > i64::MAX || (0 - diff) < i64::MIN {
        Err(DrvError::ArithmeticOverflow)
    } else {
        let ct = (0 - diff) as i64;
        let cm_wide = stf.sum as int - stf.total_fees as int;
        if cm_wide > i64::MAX || cm_wide < i64::MIN {
            Err(DrvError::ArithmeticOverflow)
        } else {
            let cm = cm_wide as i64;
            if ct == 0 || cm == 0 {
                Err(DrvError::SwapFailed)
            } else {
                Ok(Quote {
                    in_amount: as_u64_mod(-(ct as int)),
                    out_amount: as_u64_mod(cm as int),
                    fee_amount: as_u64_mod(stf.total_fees as int),
                    fee_pct: decimal_ratio_of(stf.total_fees as int, cm as int),
                })
            }
        }
    }
}

/// Assembly of a buy quote: the budget is the requested amount net of fees,
/// the net currency delta is the consumed budget (negated) less fees, the
/// net asset delta is the received quantity; the fee ratio is over the
/// input-side notional.
pub open spec fn quote_buy_spec(d: Deriverse, amount_i: i64, price: i64, px: i64)
    -> Result<Quote, DrvError> {
    let input_sum = (amount_i as int * FEE_DENOM as int) / (FEE_DENOM as int
        + d.fee_num as int);
    let st0 = BuyState {
        amm: d.amm,
        remaining_sum: input_sum as i64,
        qty: 0,
        total_fees: 0,
    };
    let active = price > px || d.order_book.cross_spec(price, OrderSide::Ask);
    let walked = if active {
        buy_walk(d.order_book.asks_spec(), 0, st0, price, d.fee_num)
    } else {
        Ok(st0)
    };
    match walked {
        Err(e) => Err(e),
        Ok(stf) => buy_assemble_spec(amount_i, stf),
    }
}

/// The buy quote built from the final walk state.
pub open spec fn buy_assemble_spec(amount_i: i64, stf: BuyState) -> Result<Quote, DrvError> {
    let ct = stf.qty;
    let diff = amount_i as int - stf.remaining_sum as int;
    if diff > i64::MAX || diff < i64::MIN {
        Err(DrvError::ArithmeticOverflow)
    } else if (0 - diff) > i64::MAX || (0 - diff) < i64::MIN {
        Err(DrvError::ArithmeticOverflow)
    } else {
        let cm_wide = (0 - diff) - stf.total_fees as int;
        if cm_wide > i64::MAX || cm_wide < i64::MIN {
            Err(DrvError::ArithmeticOverflow)
        } else {
            let cm = cm_wide as i64;
            if ct == 0 || cm == 0 {
                Err(DrvError::SwapFailed)
            } else if cm == i64::MIN {
                Err(DrvError::ArithmeticOverflow)
            } else {
                Ok(Quote {
                    in_amount: as_u64_mod(-(cm as int)),
                    out_amount: as_u64_mod(ct as int),
                    fee_amount: as_u64_mod(stf.total_fees as int),
                    fee_pct: decimal_ratio_of(stf.total_fees as int, -(cm as int)),
                })
            }
        }
    }
}

/// What `Deriverse::quote` returns, for every input: a pure function of the
/// snapshot state and the request.
pub open spec fn quote_spec(d: Deriverse, p: QuoteParams) -> Result<Quote, DrvError> {
    if p.swap_mode == SwapMode::ExactOut {
        Err(DrvError::UnsupportedMode)
    } else if p.amount > i64::MAX {
        Err(DrvError::ArithmeticOverflow)
    } else {
        let buy = d.b_token_state.address@ == p.input_mint@;
        let amount_i = p.amount as i64;
        let px = d.instr_header.market_px_spec();
        let md = px >> 3;
        if buy {
            if px as int + md as int > i64::MAX || (px as int + md as int) < i64::MIN {
                Err(DrvError::ArithmeticOverflow)
            } else {
                quote_buy_spec(d, amount_i, (px + md) as i64, px)
            }
        } else {
            if px as int - md as int > i64::MAX || (px as int - md as int) < i64::MIN {
                Err(DrvError::ArithmeticOverflow)
            } else {
                quote_sell_spec(d, amount_i, (px - md) as i64, px)
            }
        }
    }
}

/// A step that continues to the next level leaves the curve reserves
/// untouched: only whole-level consumptions continue the walk.
proof fn lemma_sell_step_next_amm(
    st: SellState,
    line_opt: Option<PxOrders>,
    bound_px: i64,
    fee_num: i64,
)
    ensures
        match sell_step_spec(st, line_opt, bound_px, fee_num) {
            StepOutcome::Next(s) => s.amm == st.amm,
            _ => true,
        },
{
}

/// A step that continues to the next level leaves the curve reserves
/// untouched: only whole-level consumptions continue the walk.
proof fn lemma_buy_step_next_amm(
    st: BuyState,
    line_opt: Option<PxOrders>,
    bound_px: i64,
    fee_num: i64,
)
    ensures
        match buy_step_spec(st, line_opt, bound_px, fee_num) {
            StepOutcome::Next(s) => s.amm == st.amm,
            _ => true,
        },
{
}

impl Deriverse {
    fn quote_sell(&self, amount_i: i64, price: i64, px: i64) -> (r: Result<Quote, DrvError>)
        requires
            self.wf(),
        ensures
            r == quote_sell_spec(*self, amount_i, price, px),
    {
        let ghost st0 = SellState {
            amm: self.amm,
            remaining_qty: amount_i,
            sum: 0,
            total_fees: 0,
        };
        let active = price < px || self.order_book.cross(price, OrderSide::Bid);
        let walked: Result<SellState, DrvError> = if !active {
            Ok(SellState { amm: self.amm, remaining_qty: amount_i, sum: 0, total_fees: 0 })
        } else {
            let levels = self.order_book.iter_bids();
            let ghost lv = self.order_book.bids_spec();
            let mut st = SellState {
                amm: self.amm,
                remaining_qty: amount_i,
                sum: 0,
                total_fees: 0,
            };
            let mut i: usize = 0;
            let mut res: Result<SellState, DrvError> = Ok(st);
            loop
                invariant_except_break
                    self.wf(),
                    st.amm == self.amm,
                    levels@ == lv,
                    i <= levels@.len(),
                    sell_walk(lv, i as int, st, price, self.fee_num) == sell_walk(
                        lv,
                        0,
                        st0,
                        price,
                        self.fee_num,
                    ),
                ensures
                    res == sell_walk(lv, 0, st0, price, self.fee_num),
                decreases levels@.len() - i,
            {
                let line_opt: Option<PxOrders> = if i < levels.len() {
                    Some(levels[i].1)
                } else {
                    None
                };
                match sell_step(st, line_opt, price, self.fee_num) {
                    StepOutcome::Fail => {
                        res = Err(DrvError::ArithmeticOverflow);
                        break;
                    },
                    StepOutcome::Stop(s) => {
                        res = Ok(s);
                        break;
                    },
                    StepOutcome::Next(s) => {
                        if i < levels.len() {
                            proof {
                                lemma_sell_step_next_amm(st, line_opt, price, self.fee_num);
                            }
                            st = s;
                            i = i + 1;
                        } else {
                            res = Ok(s);
                            break;
                        }
                    },
                }
            }
            res
        };
        match walked {
            Err(e) => Err(e),
            Ok(stf) => {
                let diff = match amount_i.checked_sub(stf.remaining_qty) {
                    Some(v) => v,
                    None => {
                        return Err(DrvError::ArithmeticOverflow);
                    },
                };
                let ct = match 0i64.checked_sub(diff) {
                    Some(v) => v,
                    None => {
                        return Err(DrvError::ArithmeticOverflow);
                    },
                };
                let cm = match stf.sum.checked_sub(stf.total_fees) {
                    Some(v) => v,
                    None => {
                        return Err(DrvError::ArithmeticOverflow);
                    },
                };
                if ct == 0 || cm == 0 {
                    return Err(DrvError::SwapFailed);
                }
                let in_amount = i64_neg_as_u64(ct);
                let out_amount = i64_as_u64_mod(cm);
                let fee_amount = i64_as_u64_mod(stf.total_fees);
                let fee_pct = decimal_ratio(stf.total_fees, cm);
                Ok(Quote { in_amount, out_amount, fee_amount, fee_pct })
            },
        }
    }

    fn quote_buy(&self, amount_i: i64, price: i64, px: i64) -> (r: Result<Quote, DrvError>)
        requires
            self.wf(),
            amount_i >= 0,
        ensures
            r == quote_buy_spec(*self, amount_i, price, px),
    {
        let den: i128 = (FEE_DENOM as i128) + (self.fee_num as i128);
        let num: i128 = (amount_i as i128) * (FEE_DENOM as i128);
        let isum128: i128 = ((num as u128) / (den as u128)) as i128;
        proof {
            vstd::arithmetic::div_mod::lemma_div_is_ordered_by_denominator(
                num as int,
                FEE_DENOM as int,
                den as int,
            );
            vstd::arithmetic::div_mod::lemma_div_multiples_vanish(
                amount_i as int,
                FEE_DENOM as int,
            );
        }
        let input_sum: i64 = isum128 as i64;
        let ghost st0 = BuyState {
            amm: self.amm,
            remaining_sum: input_sum,
            qty: 0,
            total_fees: 0,
        };
        let active = price > px || self.order_book.cross(price, OrderSide::Ask);
        let walked: Result<BuyState, DrvError> = if !active {
            Ok(BuyState { amm: self.amm, remaining_sum: input_sum, qty: 0, total_fees: 0 })
        } else {
            let levels = self.order_book.iter_asks();
            let ghost lv = self.order_book.asks_spec();
            let mut st = BuyState {
                amm: self.amm,
                remaining_sum: input_sum,
                qty: 0,
                total_fees: 0,
            };
            let mut i: usize = 0;
            let mut res: Result<BuyState, DrvError> = Ok(st);
            loop
                invariant_except_break
                    self.wf(),
                    st.amm == self.amm,
                    levels@ == lv,
                    i <= levels@.len(),
                    buy_walk(lv, i as int, st, price, self.fee_num) == buy_walk(
                        lv,
                        0,
                        st0,
                        price,
                        self.fee_num,
                    ),
                ensures
                    res == buy_walk(lv, 0, st0, price, self.fee_num),
                decreases levels@.len() - i,
            {
                let line_opt: Option<PxOrders> = if i < levels.len() {
                    Some(levels[i].1)
                } else {
                    None
                };
                match buy_step(st, line_opt, price, self.fee_num) {
                    StepOutcome::Fail => {
                        res = Err(DrvError::ArithmeticOverflow);
                        break;
                    },
                    StepOutcome::Stop(s) => {
                        res = Ok(s);
                        break;
                    },
                    StepOutcome::Next(s) => {
                        if i < levels.len() {
                            proof {
                                lemma_buy_step_next_amm(st, line_opt, price, self.fee_num);
                            }
                            st = s;
                            i = i + 1;
                        } else {
                            res = Ok(s);
                            break;
                        }
                    },
                }
            }
            res
        };
        match walked {
            Err(e) => Err(e),
            Ok(stf) => {
                let ct = stf.qty;
                let diff = match amount_i.checked_sub(stf.remaining_sum) {
                    Some(v) => v,
                    None => {
                        return Err(DrvError::ArithmeticOverflow);
                    },
                };
                let cm1 = match 0i64.checked_sub(diff) {
                    Some(v) => v,
                    None => {
                        return Err(DrvError::ArithmeticOverflow);
                    },
                };
                let cm = match cm1.checked_sub(stf.total_fees) {
                    Some(v) => v,
                    None => {
                        return Err(DrvError::ArithmeticOverflow);
                    },
                };
                if ct == 0 || cm == 0 {
                    return Err(DrvError::SwapFailed);
                }
                if cm == i64::MIN {
                    return Err(DrvError::ArithmeticOverflow);
                }
                let in_amount = i64_neg_as_u64(cm);
                let out_amount = i64_as_u64_mod(ct);
                let fee_amount = i64_as_u64_mod(stf.total_fees);
                let fee_pct = decimal_ratio(stf.total_fees, -cm);
                Ok(Quote { in_amount, out_amount, fee_amount, fee_pct })
            },
        }
    }

    /// Price the requested swap against the snapshot: reject any mode other
    /// than exact-input, direct the request by which token is supplied, cap
    /// the simulated fill at one eighth away from the market price, and walk
    /// the book and the curve.  The result is a pure function of the
    /// snapshot and the request (`quote_spec`); no state is mutated.
    pub fn quote(&self, params: &QuoteParams) -> (r: Result<Quote, DrvError>)
        requires
            self.wf(),
        ensures
            r == quote_spec(*self, *params),
    {
        if params.swap_mode == SwapMode::ExactOut {
            return Err(DrvError::UnsupportedMode);
        }
        if params.amount > i64::MAX as u64 {
            return Err(DrvError::ArithmeticOverflow);
        }
        let buy = bytes_eq(&self.b_token_state.address, &params.input_mint);
        let amount_i = params.amount as i64;
        let px = self.instr_header.market_px();
        let md = px >> 3;
        if buy {
            let price = match px.checked_add(md) {
                Some(v) => v,
                None => {
                    return Err(DrvError::ArithmeticOverflow);
                },
            };
            self.quote_buy(amount_i, price, px)
        } else {
            let price = match px.checked_sub(md) {
                Some(v) => v,
                None => {
                    return Err(DrvError::ArithmeticOverflow);
                },
            };
            self.quote_sell(amount_i, price, px)
        }
    }
}


/// All validity conditions a snapshot must meet: every buffer long enough
/// for its record, a positive decimal factor, nonnegative reserves and day
/// volatility, and a fee-rate product that fits a 64-bit value.
pub open spec fn snapshot_ok(
    instr: Seq<u8>,
    a_token: Seq<u8>,
    b_token: Seq<u8>,
    community: Seq<u8>,
) -> bool {
    &&& instr.len() >= INSTR_HEADER_SIZE
    &&& a_token.len() >= crate::decode::TOKEN_STATE_SIZE
    &&& b_token.len() >= crate::decode::TOKEN_STATE_SIZE
    &&& community.len() >= crate::decode::COMMUNITY_HEADER_SIZE
    &&& spec_i64_from_le_bytes(instr.subrange(120, 128)) >= 1
    &&& spec_i64_from_le_bytes(instr.subrange(104, 112)) >= 0
    &&& spec_i64_from_le_bytes(instr.subrange(112, 120)) >= 0
    &&& spec_i64_from_le_bytes(instr.subrange(152, 160)) >= 0
    &&& spec_i64_from_le_bytes(instr.subrange(152, 160)) * spec_u32_from_le_bytes(
        community.subrange(0, 4),
    ) as int <= i64::MAX
}

/// The assembled engine state `d` is exactly what the five snapshot buffers
/// describe.
pub open spec fn deriverse_matches(
    d: Deriverse,
    instr: Seq<u8>,
    a_token: Seq<u8>,
    b_token: Seq<u8>,
    community: Seq<u8>,
    lines: Seq<u8>,
) -> bool {
    &&& header_matches(d.instr_header, instr)
    &&& token_matches(d.a_token_state, a_token)
    &&& token_matches(d.b_token_state, b_token)
    &&& book_matches(d.order_book, d.instr_header, lines)
    &&& d.amm.k == d.instr_header.asset_tokens as int * d.instr_header.crncy_tokens as int
    &&& d.amm.a_tokens == d.instr_header.asset_tokens
    &&& d.amm.b_tokens == d.instr_header.crncy_tokens
    &&& d.amm.df == d.instr_header.dec_factor
    &&& d.fee_num == d.instr_header.day_volatility as int * spec_u32_from_le_bytes(
        community.subrange(0, 4),
    ) as int
}

impl Deriverse {
    /// Assemble the engine from the raw byte snapshots of the instrument
    /// header, both token-state records, the community-fee header, and the
    /// lines account.  Rejects with `InvalidAccount` exactly when a buffer
    /// is shorter than its record or a decoded field violates a validity
    /// bound (see `snapshot_ok`).
    pub fn from_snapshot(
        instr_data: &[u8],
        a_token_data: &[u8],
        b_token_data: &[u8],
        community_data: &[u8],
        lines_data: &[u8],
    ) -> (r: Result<Deriverse, DrvError>)
        ensures
            r is Ok <==> snapshot_ok(instr_data@, a_token_data@, b_token_data@, community_data@),
            r matches Err(e) ==> e == DrvError::InvalidAccount,
            r matches Ok(d) ==> d.wf() && deriverse_matches(
                d,
                instr_data@,
                a_token_data@,
                b_token_data@,
                community_data@,
                lines_data@,
            ),
    {
        let instr_header = match crate::decode::decode_instr_header(instr_data) {
            Ok(h) => h,
            Err(e) => {
                return Err(e);
            },
        };
        let a_token_state = match crate::decode::decode_token_state(a_token_data) {
            Ok(t) => t,
            Err(e) => {
                return Err(e);
            },
        };
        let b_token_state = match crate::decode::decode_token_state(b_token_data) {
            Ok(t) => t,
            Err(e) => {
                return Err(e);
            },
        };
        let fee_rate = match crate::decode::decode_community_fee_rate(community_data) {
            Ok(v) => v,
            Err(e) => {
                return Err(e);
            },
        };
        if instr_header.dec_factor < 1 || instr_header.asset_tokens < 0
            || instr_header.crncy_tokens < 0 || instr_header.day_volatility < 0 {
            return Err(DrvError::InvalidAccount);
        }
        let fee_num = match instr_header.day_volatility.checked_mul(fee_rate as i64) {
            Some(v) => v,
            None => {
                proof {
                    assert(instr_header.day_volatility as int * fee_rate as int > i64::MAX)
                        by (nonlinear_arith)
                        requires
                            instr_header.day_volatility >= 0,
                            fee_rate >= 0,
                            !(i64::MIN <= instr_header.day_volatility as int
                                * fee_rate as int <= i64::MAX),
                    ;
                }
                return Err(DrvError::InvalidAccount);
            },
        };
        proof {
            assert(fee_num >= 0) by (nonlinear_arith)
                requires
                    fee_num == instr_header.day_volatility as int * fee_rate as int,
                    instr_header.day_volatility >= 0,
                    fee_rate >= 0,
            ;
        }
        let amm = DeriverseAmm::new(&instr_header);
        proof {
            assert(amm.k >= 0) by (nonlinear_arith)
                requires
                    amm.k == instr_header.asset_tokens as int
                        * instr_header.crncy_tokens as int,
                    instr_header.asset_tokens >= 0,
                    instr_header.crncy_tokens >= 0,
            ;
        }
        let order_book = OrderBook::new(&instr_header, lines_data);
        Ok(Deriverse { instr_header, a_token_state, b_token_state, order_book, amm, fee_num })
    }

    /// The venue can trade at all: the book has a nonzero declared line
    /// count and the instrument's trading flag is set.
    pub fn is_active(&self) -> (r: bool)
        ensures
            r == (self.order_book.total_lines_count != 0 && self.instr_header.ps != 0),
    {
        self.order_book.total_lines_count != 0 && self.instr_header.ps != 0
    }
}


/// A nonzero value whose magnitude is below 2^64 stays nonzero when reduced
/// modulo 2^64.
proof fn lemma_as_u64_mod_nonzero(x: int)
    requires
        x != 0,
        -0x1_0000_0000_0000_0000 < x < 0x1_0000_0000_0000_0000,
    ensures
        as_u64_mod(x) != 0,
{
    let m: int = 0x1_0000_0000_0000_0000;
    if x > 0 {
        vstd::arithmetic::div_mod::lemma_small_mod(x as nat, m as nat);
    } else {
        vstd::arithmetic::div_mod::lemma_mod_add_multiples_vanish(x, m);
        vstd::arithmetic::div_mod::lemma_small_mod((x + m) as nat, m as nat);
    }
}

proof fn lemma_quote_sell_nonzero(d: Deriverse, amount_i: i64, price: i64, px: i64)
    ensures
        match quote_sell_spec(d, amount_i, price, px) {
            Ok(q) => q.in_amount != 0 && q.out_amount != 0,
            Err(_) => true,
        },
{
    let st0 = SellState { amm: d.amm, remaining_qty: amount_i, sum: 0, total_fees: 0 };
    let active = price < px || d.order_book.cross_spec(price, OrderSide::Bid);
    let walked = if active {
        sell_walk(d.order_book.bids_spec(), 0, st0, price, d.fee_num)
    } else {
        Ok::<SellState, DrvError>(st0)
    };
    match walked {
        Err(_) => {},
        Ok(stf) => {
            let diff = amount_i as int - stf.remaining_qty as int;
            if i64::MIN <= diff <= i64::MAX && i64::MIN <= (0 - diff) <= i64::MAX {
                let ct = (0 - diff) as i64;
                let cm_wide = stf.sum as int - stf.total_fees as int;
                if i64::MIN <= cm_wide <= i64::MAX {
                    let cm = cm_wide as i64;
                    if ct != 0 && cm != 0 {
                        lemma_as_u64_mod_nonzero(-(ct as int));
                        lemma_as_u64_mod_nonzero(cm as int);
                    }
                }
            }
        },
    }
}

proof fn lemma_quote_buy_nonzero(d: Deriverse, amount_i: i64, price: i64, px: i64)
    ensures
        match quote_buy_spec(d, amount_i, price, px) {
            Ok(q) => q.in_amount != 0 && q.out_amount != 0,
            Err(_) => true,
        },
{
    let input_sum = (amount_i as int * FEE_DENOM as int) / (FEE_DENOM as int
        + d.fee_num as int);
    let st0 = BuyState { amm: d.amm, remaining_sum: input_sum as i64, qty: 0, total_fees: 0 };
    let active = price > px || d.order_book.cross_spec(price, OrderSide::Ask);
    let walked = if active {
        buy_walk(d.order_book.asks_spec(), 0, st0, price, d.fee_num)
    } else {
        Ok::<BuyState, DrvError>(st0)
    };
    match walked {
        Err(_) => {},
        Ok(stf) => {
            let diff = amount_i as int - stf.remaining_sum as int;
            if i64::MIN <= diff <= i64::MAX && i64::MIN <= (0 - diff) <= i64::MAX {
                let cm_wide = (0 - diff) - stf.total_fees as int;
                if i64::MIN <= cm_wide <= i64::MAX {
                    let cm = cm_wide as i64;
                    if stf.qty != 0 && cm != 0 && cm != i64::MIN {
                        lemma_as_u64_mod_nonzero(-(cm as int));
                        lemma_as_u64_mod_nonzero(stf.qty as int);
                    }
                }
            }
        },
    }
}

/// For every snapshot and every requested amount, a successful quote never
/// reports a zero input or output amount: a simulation with a zero net
/// transfer on either side fails with `SwapFailed` instead.
pub proof fn lemma_quote_never_zero(d: Deriverse, p: QuoteParams)
    ensures
        match quote_spec(d, p) {
            Ok(q) => q.in_amount != 0 && q.out_amount != 0,
            Err(_) => true,
        },
{
    if p.swap_mode == SwapMode::ExactOut {
    } else if p.amount > i64::MAX {
    } else {
        let amount_i = p.amount as i64;
        let px = d.instr_header.market_px_spec();
        let md = px >> 3;
        if d.b_token_state.address@ == p.input_mint@ {
            if !(px as int + md as int > i64::MAX || (px as int + md as int) < i64::MIN) {
                lemma_quote_buy_nonzero(d, amount_i, (px + md) as i64, px);
            }
        } else {
            if !(px as int - md as int > i64::MAX || (px as int - md as int) < i64::MIN) {
                lemma_quote_sell_nonzero(d, amount_i, (px - md) as i64, px);
            }
        }
    }
}

/// A request for any fill mode other than exact-input always fails with
/// `UnsupportedMode`, regardless of every other parameter.
pub proof fn lemma_exact_out_unsupported(d: Deriverse, p: QuoteParams)
    requires
        p.swap_mode == SwapMode::ExactOut,
    ensures
        quote_spec(d, p) == Err::<Quote, DrvError>(DrvError::UnsupportedMode),
{
}

/// Pure-AMM settlement of a sell: what one walk step decides when no level
/// is left, written over the curve conversions alone.
pub open spec fn sell_amm_only_spec(st: SellState, bound_px: i64, fee_num: i64)
    -> Result<SellState, DrvError> {
    match st.amm.amm_px_spec(st.remaining_qty, OrderSide::Bid) {
        Err(_) => Err(DrvError::ArithmeticOverflow),
        Ok(amm_px) => match sell_no_line_spec(st, amm_px, bound_px, fee_num) {
            StepOutcome::Fail => Err(DrvError::ArithmeticOverflow),
            StepOutcome::Stop(s) => Ok(s),
            StepOutcome::Next(s) => Ok(s),
        },
    }
}

/// Pure-AMM settlement of a buy: what one walk step decides when no level
/// is left, written over the curve conversions alone.
pub open spec fn buy_amm_only_spec(st: BuyState, bound_px: i64, fee_num: i64)
    -> Result<BuyState, DrvError> {
    match st.amm.rev_px_spec(st.remaining_sum) {
        Err(_) => Err(DrvError::ArithmeticOverflow),
        Ok(amm_px) => match buy_no_line_spec(st, amm_px, bound_px, fee_num) {
            StepOutcome::Fail => Err(DrvError::ArithmeticOverflow),
            StepOutcome::Stop(s) => Ok(s),
            StepOutcome::Next(s) => Ok(s),
        },
    }
}

/// An order book with no levels degenerates to pure-AMM pricing: the sell
/// walk reduces to the closed-form constant-product settlement.
pub proof fn lemma_sell_walk_empty_book(
    levels: Seq<(u32, PxOrders)>,
    st: SellState,
    bound_px: i64,
    fee_num: i64,
)
    requires
        levels.len() == 0,
    ensures
        sell_walk(levels, 0, st, bound_px, fee_num) == sell_amm_only_spec(st, bound_px, fee_num),
{
}

/// An order book with no levels degenerates to pure-AMM pricing: the buy
/// walk reduces to the closed-form constant-product settlement.
pub proof fn lemma_buy_walk_empty_book(
    levels: Seq<(u32, PxOrders)>,
    st: BuyState,
    bound_px: i64,
    fee_num: i64,
)
    requires
        levels.len() == 0,
    ensures
        buy_walk(levels, 0, st, bound_px, fee_num) == buy_amm_only_spec(st, bound_px, fee_num),
{
}

/// An empty backing array yields no levels on either side, whatever the
/// head indices and the declared counts say.
pub proof fn lemma_empty_lines_no_levels(book: OrderBook)
    requires
        book.lines@.len() == 0,
    ensures
        book.bids_spec().len() == 0,
        book.asks_spec().len() == 0,
{
}

/// With no backing levels at all, a sell quote is priced by the
/// constant-product curve alone: the walk degenerates to one pure-AMM
/// settlement step.
pub proof fn lemma_empty_book_sell_quote(d: Deriverse, amount_i: i64, price: i64, px: i64)
    requires
        d.order_book.lines@.len() == 0,
    ensures
        quote_sell_spec(d, amount_i, price, px) == ({
            let st0 = SellState { amm: d.amm, remaining_qty: amount_i, sum: 0, total_fees: 0 };
            let active = price < px || d.order_book.cross_spec(price, OrderSide::Bid);
            let walked = if active {
                sell_amm_only_spec(st0, price, d.fee_num)
            } else {
                Ok(st0)
            };
            match walked {
                Err(e) => Err(e),
                Ok(stf) => sell_assemble_spec(amount_i, stf),
            }
        }),
{
    lemma_empty_lines_no_levels(d.order_book);
    let st0 = SellState { amm: d.amm, remaining_qty: amount_i, sum: 0, total_fees: 0 };
    lemma_sell_walk_empty_book(d.order_book.bids_spec(), st0, price, d.fee_num);
}

/// With no backing levels at all, a buy quote is priced by the
/// constant-product curve alone: the walk degenerates to one pure-AMM
/// settlement step.
pub proof fn lemma_empty_book_buy_quote(d: Deriverse, amount_i: i64, price: i64, px: i64)
    requires
        d.order_book.lines@.len() == 0,
    ensures
        quote_buy_spec(d, amount_i, price, px) == ({
            let input_sum = (amount_i as int * FEE_DENOM as int) / (FEE_DENOM as int
                + d.fee_num as int);
            let st0 = BuyState {
                amm: d.amm,
                remaining_sum: input_sum as i64,
                qty: 0,
                total_fees: 0,
            };
            let active = price > px || d.order_book.cross_spec(price, OrderSide::Ask);
            let walked = if active {
                buy_amm_only_spec(st0, price, d.fee_num)
            } else {
                Ok(st0)
            };
            match walked {
                Err(e) => Err(e),
                Ok(stf) => buy_assemble_spec(amount_i, stf),
            }
        }),
{
    lemma_empty_lines_no_levels(d.order_book);
    let input_sum = (amount_i as int * FEE_DENOM as int) / (FEE_DENOM as int
        + d.fee_num as int);
    let st0 = BuyState { amm: d.amm, remaining_sum: input_sum as i64, qty: 0, total_fees: 0 };
    lemma_buy_walk_empty_book(d.order_book.asks_spec(), st0, price, d.fee_num);
}

/// A sell whose remaining amount exactly equals one level's quantity, when
/// the curve's price has not yet reached the level (neither dominating it
/// nor barred from it by the bound) and the curve contributes nothing at
/// the level's price, consumes exactly that level: the whole remainder
/// fills at the level's fixed price, the curve reserves stay untouched, and
/// the walk stops.
pub proof fn lemma_exact_level_sell(
    st: SellState,
    line: PxOrders,
    amm_px: i64,
    bound_px: i64,
    fee_num: i64,
)
    requires
        st.amm.wf(),
        st.amm.amm_px_spec(st.remaining_qty, OrderSide::Bid) == Ok::<i64, DrvError>(amm_px),
        st.remaining_qty == line.qty,
        st.remaining_qty > 0,
        !DeriverseAmm::last_line_spec(amm_px, line.price, OrderSide::Bid),
        !DeriverseAmm::line_is_unreachable_spec(bound_px, line.price, OrderSide::Bid),
        st.amm.amm_qty_spec(line.price, OrderSide::Bid) == Ok::<i64, DrvError>(0),
    ensures
        sell_step_spec(st, Some(line), bound_px, fee_num) == (match st.amm.trade_sum_spec(
            st.remaining_qty,
            line.price,
        ) {
            Err(_) => StepOutcome::<SellState>::Fail,
            Ok(fill_sum) => match add_fee_spec(st.total_fees, fill_sum, fee_num) {
                Err(_) => StepOutcome::<SellState>::Fail,
                Ok(f) => if st.sum as int + fill_sum as int > i64::MAX {
                    StepOutcome::<SellState>::Fail
                } else {
                    StepOutcome::Stop(SellState {
                        amm: st.amm,
                        remaining_qty: 0,
                        sum: (st.sum + fill_sum) as i64,
                        total_fees: f,
                    })
                },
            },
        }),
{
}


/// A buy whose remaining notional exactly equals one level's notional, when
/// the curve's price has not yet reached the level (neither dominating it
/// nor barred from it by the bound) and the curve contributes nothing at
/// the level's price, consumes exactly that level: the whole remainder
/// fills at the level's fixed price, the curve reserves stay untouched, and
/// the walk stops.
pub proof fn lemma_exact_level_buy(
    st: BuyState,
    line: PxOrders,
    line_sum: i64,
    amm_px: i64,
    bound_px: i64,
    fee_num: i64,
)
    requires
        st.amm.wf(),
        st.amm.rev_px_spec(st.remaining_sum) == Ok::<i64, DrvError>(amm_px),
        st.amm.trade_sum_spec(line.qty, line.price) == Ok::<i64, DrvError>(line_sum),
        st.remaining_sum == line_sum,
        st.remaining_sum > 0,
        line.price >= 1,
        !DeriverseAmm::last_line_spec(amm_px, line.price, OrderSide::Ask),
        !DeriverseAmm::line_is_unreachable_spec(bound_px, line.price, OrderSide::Ask),
        st.amm.amm_qty_spec(line.price, OrderSide::Ask) == Ok::<i64, DrvError>(0),
    ensures
        buy_step_spec(st, Some(line), bound_px, fee_num) == ({
            let fill = crate::math::trunc_div(
                st.remaining_sum as int * st.amm.df as int,
                line.price as int,
            );
            if fill > i64::MAX || fill < i64::MIN {
                StepOutcome::<BuyState>::Fail
            } else if st.qty as int + fill > i64::MAX {
                StepOutcome::<BuyState>::Fail
            } else {
                match add_fee_spec(st.total_fees, st.remaining_sum, fee_num) {
                    Err(_) => StepOutcome::<BuyState>::Fail,
                    Ok(f) => StepOutcome::Stop(BuyState {
                        amm: st.amm,
                        remaining_sum: 0,
                        qty: (st.qty as int + fill) as i64,
                        total_fees: f,
                    }),
                }
            }
        }),
{
}

/// Quoting is a pure function of the snapshot and the request: two calls
/// with identical state and parameters yield identical results (this is the
/// content of `quote`'s postcondition, which pins the result to
/// `quote_spec` alone).
pub proof fn lemma_quote_deterministic(
    d: Deriverse,
    p: QuoteParams,
    r1: Result<Quote, DrvError>,
    r2: Result<Quote, DrvError>,
)
    requires
        r1 == quote_spec(d, p),
        r2 == quote_spec(d, p),
    ensures
        r1 == r2,
{
}

} // verus!
