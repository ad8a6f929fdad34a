use vstd::prelude::*;

use crate::error::DrvError;
use crate::instrument::InstrAccountHeader;
use crate::math::{isqrt, isqrt_spec, lemma_isqrt_exists};

verus! {

/// Which side of the book a computation refers to: `Bid` when the traversal
/// walks resting bids (a sell request), `Ask` when it walks resting asks (a
/// buy request).
#[derive(Clone, Copy, Debug, PartialEq, Eq, Structural)]
pub enum OrderSide {
    Bid,
    Ask,
}

/// Maximum notional (in currency minor units) a single conversion may
/// produce; a larger result is treated as evidence of a corrupted snapshot
/// and fails with `ArithmeticOverflow`.
pub const MAX_SUM: i64 = 0x20_0000_0000_0000;

/// Capped "infinite" price sentinel, returned instead of dividing by a
/// non-positive reserve.
pub const PX_CAP: i64 = 0x3fff_ffff_ffff_ffff;

/// Constant-product curve state.
///
/// `k` is the invariant product, computed once from the snapshot reserves;
/// `a_tokens` and `b_tokens` are the current asset and currency reserves of
/// the quote engine's private simulation copy; `df` is the instrument's
/// decimal factor.  All price arguments and results are fixed-point values
/// scaled so that `notional == quantity * price / df`.
#[derive(Clone, Copy, Debug)]
pub struct DeriverseAmm {
    pub k: i128,
    pub a_tokens: i64,
    pub b_tokens: i64,
    pub df: i64,
}

impl DeriverseAmm {
    /// Validity of a curve state: nonnegative reserves and invariant, and a
    /// positive decimal factor.  Constructors establish it from a validated
    /// header; the quote engine's reserve updates preserve it.
    pub open spec fn wf(self) -> bool {
        &&& self.df >= 1
        &&& self.k >= 0
        &&& self.a_tokens >= 0
        &&& self.b_tokens >= 0
    }

    /// Build the curve state from a decoded instrument header.  The invariant
    /// product is fixed here and is not updated by later reserve mutations.
    pub fn new(instr_header: &InstrAccountHeader) -> (amm: DeriverseAmm)
        ensures
            amm.k == instr_header.asset_tokens as int * instr_header.crncy_tokens as int,
            amm.a_tokens == instr_header.asset_tokens,
            amm.b_tokens == instr_header.crncy_tokens,
            amm.df == instr_header.dec_factor,
    {
        let a = instr_header.asset_tokens;
        let b = instr_header.crncy_tokens;
        assert((a as int) * (b as int) <= i128::MAX && (a as int) * (b as int) >= i128::MIN)
            by (nonlinear_arith)
            requires
                i64::MIN <= a <= i64::MAX,
                i64::MIN <= b <= i64::MAX,
        ;
        DeriverseAmm {
            k: (a as i128) * (b as i128),
            a_tokens: a,
            b_tokens: b,
            df: instr_header.dec_factor,
        }
    }

    /// The notional of `a` quantity at price `b`: `a * b / df`, truncated
    /// toward zero.  Fails when the product is negative or the result
    /// exceeds `MAX_SUM`.
    pub open spec fn trade_sum_spec(self, a: i64, b: i64) -> Result<i64, DrvError> {
        let p = a as int * b as int;
        if p < 0 {
            Err(DrvError::ArithmeticOverflow)
        } else if p / self.df as int > MAX_SUM as int {
            Err(DrvError::ArithmeticOverflow)
        } else {
            Ok((p / self.df as int) as i64)
        }
    }

    pub fn trade_sum(&self, a: i64, b: i64) -> (r: Result<i64, DrvError>)
        requires
            self.df >= 1,
        ensures
            r == self.trade_sum_spec(a, b),
    {
        assert((a as int) * (b as int) <= i128::MAX && (a as int) * (b as int) >= i128::MIN)
            by (nonlinear_arith)
            requires
                i64::MIN <= a <= i64::MAX,
                i64::MIN <= b <= i64::MAX,
        ;
        let p: i128 = (a as i128) * (b as i128);
        if p < 0 {
            return Err(DrvError::ArithmeticOverflow);
        }
        let q: u128 = (p as u128) / (self.df as u128);
        assert(q <= p as u128) by {
            vstd::arithmetic::div_mod::lemma_div_is_ordered_by_denominator(
                p as int, 1, self.df as int);
        }
        if q > MAX_SUM as u128 {
            Err(DrvError::ArithmeticOverflow)
        } else {
            Ok(q as i64)
        }
    }

    /// The quantity the curve absorbs before its instantaneous price reaches
    /// `price`: the distance between the current asset reserve and
    /// `isqrt(k * df / price)` (toward growth for bids, toward depletion for
    /// asks), floored at zero.  The square root is capped at `i64::MAX`.
    /// Fails when `price` is not positive or `k * df` exceeds the 128-bit
    /// range.
    pub open spec fn amm_qty_spec(self, price: i64, side: OrderSide) -> Result<i64, DrvError> {
        if price <= 0 {
            Err(DrvError::ArithmeticOverflow)
        } else if self.k as int * self.df as int > i128::MAX {
            Err(DrvError::ArithmeticOverflow)
        } else {
            let s = isqrt_spec(self.k as int * self.df as int / price as int);
            let sc: int = if s > i64::MAX { i64::MAX as int } else { s };
            match side {
                OrderSide::Bid => Ok(
                    (if sc - self.a_tokens > 0 { sc - self.a_tokens } else { 0 }) as i64,
                ),
                OrderSide::Ask => Ok(
                    (if self.a_tokens - sc > 0 { self.a_tokens - sc } else { 0 }) as i64,
                ),
            }
        }
    }

    pub fn get_amm_qty(&self, price: i64, side: OrderSide) -> (r: Result<i64, DrvError>)
        requires
            self.wf(),
        ensures
            r == self.amm_qty_spec(price, side),
    {
        if price <= 0 {
            return Err(DrvError::ArithmeticOverflow);
        }
        let kd = match self.k.checked_mul(self.df as i128) {
            Some(v) => v,
            None => {
                proof {
                    assert(self.k as int * self.df as int > i128::MAX) by (nonlinear_arith)
                        requires
                            self.k >= 0,
                            self.df >= 1,
                            !(i128::MIN <= self.k as int * self.df as int <= i128::MAX),
                    ;
                }
                return Err(DrvError::ArithmeticOverflow);
            },
        };
        assert(kd >= 0) by (nonlinear_arith)
            requires
                kd == self.k as int * self.df as int,
                self.k >= 0,
                self.df >= 1,
        ;
        let m: u128 = (kd as u128) / (price as u128);
        let s = isqrt(m);
        let sc: i64 = if s > i64::MAX as u128 {
            i64::MAX
        } else {
            s as i64
        };
        match side {
            OrderSide::Bid => {
                if sc > self.a_tokens {
                    Ok(sc - self.a_tokens)
                } else {
                    Ok(0)
                }
            },
            OrderSide::Ask => {
                if self.a_tokens > sc {
                    Ok(self.a_tokens - sc)
                } else {
                    Ok(0)
                }
            },
        }
    }

    /// The curve price once the reserve has moved to `new_reserve`:
    /// `k * df / new_reserve^2`, truncated, saturated at `i64::MAX`.
    pub open spec fn px_from_reserve_spec(self, new_reserve: int) -> Result<i64, DrvError>
        recommends
            new_reserve != 0,
    {
        if self.k as int * self.df as int > i128::MAX {
            Err(DrvError::ArithmeticOverflow)
        } else {
            let px = self.k as int * self.df as int / (new_reserve * new_reserve);
            Ok((if px > i64::MAX { i64::MAX as int } else { px }) as i64)
        }
    }

    fn px_from_reserve(&self, new_reserve: i64) -> (r: Result<i64, DrvError>)
        requires
            self.wf(),
            new_reserve != 0,
        ensures
            r == self.px_from_reserve_spec(new_reserve as int),
    {
        let kd = match self.k.checked_mul(self.df as i128) {
            Some(v) => v,
            None => {
                proof {
                    assert(self.k as int * self.df as int > i128::MAX) by (nonlinear_arith)
                        requires
                            self.k >= 0,
                            self.df >= 1,
                            !(i128::MIN <= self.k as int * self.df as int <= i128::MAX),
                    ;
                }
                return Err(DrvError::ArithmeticOverflow);
            },
        };
        assert(kd >= 0) by (nonlinear_arith)
            requires
                kd == self.k as int * self.df as int,
                self.k >= 0,
                self.df >= 1,
        ;
        let mag: u128 = if new_reserve > 0 {
            new_reserve as u128
        } else {
            (-(new_reserve as i128)) as u128
        };
        assert(mag * mag <= 0x8000_0000_0000_0000u128 * 0x8000_0000_0000_0000u128)
            by (nonlinear_arith)
            requires
                mag <= 0x8000_0000_0000_0000u128,
        ;
        let n2: u128 = mag * mag;
        assert(n2 as int == new_reserve as int * new_reserve as int && n2 >= 1)
            by (nonlinear_arith)
            requires
                n2 == mag as int * mag as int,
                mag >= 1,
                mag == new_reserve as int || mag as int == -(new_reserve as int),
        ;
        let px: u128 = (kd as u128) / n2;
        if px > i64::MAX as u128 {
            Ok(i64::MAX)
        } else {
            Ok(px as i64)
        }
    }

    /// Forward curve price after hypothetically trading `q`: the reserve
    /// grows by `q` for a bid and shrinks by `q` for an ask.  An ask of the
    /// whole reserve or more yields the capped sentinel `PX_CAP`, as does a
    /// bid that leaves a zero reserve.  Fails when the reserve adjustment
    /// leaves the 64-bit range or `k * df` exceeds the 128-bit range.
    pub open spec fn amm_px_spec(self, q: i64, side: OrderSide) -> Result<i64, DrvError> {
        match side {
            OrderSide::Bid => {
                let new = self.a_tokens as int + q as int;
                if new > i64::MAX || new < i64::MIN {
                    Err(DrvError::ArithmeticOverflow)
                } else if new == 0 {
                    Ok(PX_CAP)
                } else {
                    self.px_from_reserve_spec(new)
                }
            },
            OrderSide::Ask => {
                if q >= self.a_tokens {
                    Ok(PX_CAP)
                } else {
                    let new = self.a_tokens as int - q as int;
                    if new > i64::MAX {
                        Err(DrvError::ArithmeticOverflow)
                    } else {
                        self.px_from_reserve_spec(new)
                    }
                }
            },
        }
    }

    pub fn get_amm_px(&self, q: i64, side: OrderSide) -> (r: Result<i64, DrvError>)
        requires
            self.wf(),
        ensures
            r == self.amm_px_spec(q, side),
    {
        match side {
            OrderSide::Bid => {
                let new = match self.a_tokens.checked_add(q) {
                    Some(v) => v,
                    None => {
                        return Err(DrvError::ArithmeticOverflow);
                    },
                };
                if new == 0 {
                    Ok(PX_CAP)
                } else {
                    self.px_from_reserve(new)
                }
            },
            OrderSide::Ask => {
                if q >= self.a_tokens {
                    Ok(PX_CAP)
                } else {
                    let new = match self.a_tokens.checked_sub(q) {
                        Some(v) => v,
                        None => {
                            return Err(DrvError::ArithmeticOverflow);
                        },
                    };
                    self.px_from_reserve(new)
                }
            },
        }
    }

    /// The notional realized by trading `q` quantity against the curve:
    /// `b - k / (a + q)` for a bid, `k / (a - q) - b` for an ask, floored at
    /// zero; zero when the adjusted reserve would be non-positive.  The ask
    /// result saturates at `i64::MAX`.  Fails when the bid divisor would be
    /// non-positive with a nonzero reserve, or the ask reserve adjustment
    /// leaves the 64-bit range.
    pub open spec fn amm_sum_spec(self, q: i64, side: OrderSide) -> Result<i64, DrvError> {
        match side {
            OrderSide::Bid => {
                if self.a_tokens == 0 {
                    Ok(0)
                } else if self.a_tokens as int + q as int <= 0 {
                    Err(DrvError::ArithmeticOverflow)
                } else {
                    let v = self.b_tokens as int - self.k as int / (self.a_tokens as int
                        + q as int);
                    Ok((if v > 0 { v } else { 0 }) as i64)
                }
            },
            OrderSide::Ask => {
                let new = self.a_tokens as int - q as int;
                if new > i64::MAX || new < i64::MIN {
                    Err(DrvError::ArithmeticOverflow)
                } else if new <= 0 {
                    Ok(0)
                } else {
                    let v = self.k as int / new - self.b_tokens as int;
                    let f = if v > 0 { v } else { 0 };
                    Ok((if f > i64::MAX { i64::MAX as int } else { f }) as i64)
                }
            },
        }
    }

    pub fn get_amm_sum(&self, q: i64, side: OrderSide) -> (r: Result<i64, DrvError>)
        requires
            self.wf(),
        ensures
            r == self.amm_sum_spec(q, side),
    {
        match side {
            OrderSide::Bid => {
                if self.a_tokens == 0 {
                    return Ok(0);
                }
                let new: i128 = self.a_tokens as i128 + q as i128;
                if new <= 0 {
                    return Err(DrvError::ArithmeticOverflow);
                }
                let d: u128 = (self.k as u128) / (new as u128);
                let v: i128 = self.b_tokens as i128 - d as i128;
                if v > 0 {
                    assert(v <= self.b_tokens as int);
                    Ok(v as i64)
                } else {
                    Ok(0)
                }
            },
            OrderSide::Ask => {
                let new: i128 = self.a_tokens as i128 - q as i128;
                if new > i64::MAX as i128 || new < i64::MIN as i128 {
                    return Err(DrvError::ArithmeticOverflow);
                }
                if new <= 0 {
                    return Ok(0);
                }
                let d: u128 = (self.k as u128) / (new as u128);
                if d > self.b_tokens as u128 {
                    let v: u128 = d - self.b_tokens as u128;
                    if v > i64::MAX as u128 {
                        Ok(i64::MAX)
                    } else {
                        Ok(v as i64)
                    }
                } else {
                    Ok(0)
                }
            },
        }
    }

    /// The curve price after absorbing `sum` currency notional:
    /// `(b + sum)^2 * df / k`, truncated, saturated at `i64::MAX`.  A zero
    /// currency reserve yields `PX_CAP`; a zero invariant yields `i64::MAX`.
    /// Fails when the adjusted currency reserve leaves the 64-bit range or
    /// `k * df` exceeds the 128-bit range.
    pub open spec fn rev_px_spec(self, sum: i64) -> Result<i64, DrvError> {
        if self.b_tokens == 0 {
            Ok(PX_CAP)
        } else {
            let new = self.b_tokens as int + sum as int;
            if new > i64::MAX || new < i64::MIN {
                Err(DrvError::ArithmeticOverflow)
            } else if self.k == 0 {
                Ok(i64::MAX)
            } else if self.k as int * self.df as int > i128::MAX {
                Err(DrvError::ArithmeticOverflow)
            } else {
                let px = new * new * self.df as int / self.k as int;
                Ok((if px > i64::MAX { i64::MAX as int } else { px }) as i64)
            }
        }
    }

    pub fn get_reversed_amm_px(&self, sum: i64) -> (r: Result<i64, DrvError>)
        requires
            self.wf(),
        ensures
            r == self.rev_px_spec(sum),
    {
        if self.b_tokens == 0 {
            return Ok(PX_CAP);
        }
        let new = match self.b_tokens.checked_add(sum) {
            Some(v) => v,
            None => {
                return Err(DrvError::ArithmeticOverflow);
            },
        };
        if self.k == 0 {
            return Ok(i64::MAX);
        }
        if self.k.checked_mul(self.df as i128).is_none() {
            proof {
                assert(self.k as int * self.df as int > i128::MAX) by (nonlinear_arith)
                    requires
                        self.k >= 1,
                        self.df >= 1,
                        !(i128::MIN <= self.k as int * self.df as int <= i128::MAX),
                ;
            }
            return Err(DrvError::ArithmeticOverflow);
        }
        let mag: u128 = if new > 0 {
            new as u128
        } else {
            (-(new as i128)) as u128
        };
        assert(mag * mag <= 0x8000_0000_0000_0000u128 * 0x8000_0000_0000_0000u128)
            by (nonlinear_arith)
            requires
                mag <= 0x8000_0000_0000_0000u128,
        ;
        let n2: u128 = mag * mag;
        assert(n2 as int == new as int * new as int) by (nonlinear_arith)
            requires
                n2 == mag as int * mag as int,
                mag == new as int || mag as int == -(new as int),
        ;
        let ku: u128 = self.k as u128;
        let dfu: u128 = self.df as u128;
        let q0: u128 = n2 / ku;
        let r0: u128 = n2 % ku;
        proof {
            vstd::arithmetic::div_mod::lemma_fundamental_div_mod(n2 as int, ku as int);
            assert((r0 as int * dfu as int) < (ku as int * dfu as int)) by (nonlinear_arith)
                requires
                    0 <= (r0 as int) && (r0 as int) < (ku as int),
                    dfu as int >= 1,
            ;
            assert(self.k as int * self.df as int <= i128::MAX);
        }
        let t2: u128 = (r0 * dfu) / ku;
        let value: u128 = match q0.checked_mul(dfu) {
            Some(t1) => {
                match t1.checked_add(t2) {
                    Some(v) => v,
                    None => u128::MAX,
                }
            },
            None => u128::MAX,
        };
        proof {
            assert(n2 as int == q0 as int * ku as int + r0 as int) by (nonlinear_arith)
                requires
                    n2 as int == ku as int * q0 as int + r0 as int,
            ;
            lemma_muldivmod_quotient(n2 as int, dfu as int, ku as int, q0 as int, r0 as int);
            if q0 as int * dfu as int > u128::MAX || q0 as int * dfu as int + (r0 as int
                * dfu as int) / ku as int > u128::MAX {
                assert(n2 as int * dfu as int / ku as int > i64::MAX);
            } else {
                assert(value == n2 as int * dfu as int / ku as int);
            }
        }
        if value > i64::MAX as u128 {
            Ok(i64::MAX)
        } else {
            Ok(value as i64)
        }
    }

    /// The quantity received for `sum` currency notional:
    /// `a - k / (b + sum)`, where the division result is saturated at
    /// `i64::MAX`; zero when the currency reserve is zero.  Fails when the
    /// adjusted currency reserve leaves the 64-bit range or is not positive.
    pub open spec fn rev_qty_spec(self, sum: i64) -> Result<i64, DrvError> {
        if self.b_tokens == 0 {
            Ok(0)
        } else {
            let new = self.b_tokens as int + sum as int;
            if new > i64::MAX || new < i64::MIN {
                Err(DrvError::ArithmeticOverflow)
            } else if new <= 0 {
                Err(DrvError::ArithmeticOverflow)
            } else {
                let c = self.k as int / new;
                let cc = if c > i64::MAX { i64::MAX as int } else { c };
                Ok((self.a_tokens as int - cc) as i64)
            }
        }
    }

    pub fn get_reversed_amm_qty(&self, sum: i64) -> (r: Result<i64, DrvError>)
        requires
            self.wf(),
        ensures
            r == self.rev_qty_spec(sum),
    {
        if self.b_tokens == 0 {
            return Ok(0);
        }
        let new = match self.b_tokens.checked_add(sum) {
            Some(v) => v,
            None => {
                return Err(DrvError::ArithmeticOverflow);
            },
        };
        if new <= 0 {
            return Err(DrvError::ArithmeticOverflow);
        }
        let c: u128 = (self.k as u128) / (new as u128);
        let cc: i64 = if c > i64::MAX as u128 {
            i64::MAX
        } else {
            c as i64
        };
        Ok(self.a_tokens - cc)
    }

    /// The notional the curve yields down to price `price`, as the on-chain
    /// settlement logic computes it: the negation of
    /// `max(b - isqrt(k * price / df), 0)` (capping the square root at
    /// `i64::MAX`, and reading it as zero when `k * price` is negative).
    /// The result is never positive.  Zero when the currency reserve is
    /// zero; fails when `k * price` exceeds the 128-bit range.
    pub open spec fn rev_sum_spec(self, price: i64) -> Result<i64, DrvError> {
        if self.b_tokens == 0 {
            Ok(0)
        } else if self.k as int * price as int > i128::MAX {
            Err(DrvError::ArithmeticOverflow)
        } else {
            let sq: int = if (self.k as int * price as int) < 0 {
                0
            } else {
                let s = isqrt_spec(self.k as int * price as int / self.df as int);
                if s > i64::MAX {
                    i64::MAX as int
                } else {
                    s
                }
            };
            let inner = self.b_tokens as int - sq;
            Ok((if inner > 0 { -inner } else { 0 }) as i64)
        }
    }

    pub fn get_reversed_amm_sum(&self, price: i64) -> (r: Result<i64, DrvError>)
        requires
            self.wf(),
        ensures
            r == self.rev_sum_spec(price),
    {
        if self.b_tokens == 0 {
            return Ok(0);
        }
        let sq: i64 = match self.k.checked_mul(price as i128) {
            Some(kp) => {
                if kp < 0 {
                    0
                } else {
                    let m: u128 = (kp as u128) / (self.df as u128);
                    let s = isqrt(m);
                    if s > i64::MAX as u128 {
                        i64::MAX
                    } else {
                        s as i64
                    }
                }
            },
            None => {
                if price >= 0 {
                    proof {
                        assert(self.k as int * price as int > i128::MAX) by (nonlinear_arith)
                            requires
                                self.k >= 0,
                                price >= 0,
                                !(i128::MIN <= self.k as int * price as int <= i128::MAX),
                        ;
                    }
                    return Err(DrvError::ArithmeticOverflow);
                } else {
                    proof {
                        assert((self.k as int * price as int) < 0) by (nonlinear_arith)
                            requires
                                self.k >= 0,
                                price < 0,
                                !(i128::MIN <= self.k as int * price as int <= i128::MAX),
                        ;
                    }
                    0
                }
            },
        };
        let inner: i64 = self.b_tokens - sq;
        if inner > 0 {
            Ok(-inner)
        } else {
            Ok(0)
        }
    }

    /// The bound price is stricter than the curve's natural price: the fill
    /// must stop at the bound rather than consume the whole budget.
    pub open spec fn partial_fill_spec(amm_px: i64, price: i64, side: OrderSide) -> bool {
        match side {
            OrderSide::Bid => amm_px < price,
            OrderSide::Ask => amm_px > price,
        }
    }

    pub fn partial_fill(amm_px: i64, price: i64, side: OrderSide) -> (r: bool)
        ensures
            r == Self::partial_fill_spec(amm_px, price, side),
    {
        match side {
            OrderSide::Bid => amm_px < price,
            OrderSide::Ask => amm_px > price,
        }
    }

    /// The curve's price already dominates the level: the level need not be
    /// consumed at all.
    pub open spec fn last_line_spec(amm_px: i64, line_px: i64, side: OrderSide) -> bool {
        match side {
            OrderSide::Bid => amm_px >= line_px,
            OrderSide::Ask => amm_px <= line_px,
        }
    }

    pub fn last_line(amm_px: i64, line_px: i64, side: OrderSide) -> (r: bool)
        ensures
            r == Self::last_line_spec(amm_px, line_px, side),
    {
        match side {
            OrderSide::Bid => amm_px >= line_px,
            OrderSide::Ask => amm_px <= line_px,
        }
    }

    /// Both the curve price and the bound stay on the favourable side of the
    /// level: the whole level can be consumed.
    pub open spec fn cover_line_spec(amm_px: i64, price: i64, line_px: i64, side: OrderSide)
        -> bool {
        match side {
            OrderSide::Bid => (if amm_px > price { amm_px } else { price }) <= line_px,
            OrderSide::Ask => (if amm_px < price { amm_px } else { price }) >= line_px,
        }
    }

    pub fn cover_line(amm_px: i64, price: i64, line_px: i64, side: OrderSide) -> (r: bool)
        ensures
            r == Self::cover_line_spec(amm_px, price, line_px, side),
    {
        match side {
            OrderSide::Bid => (if amm_px > price { amm_px } else { price }) <= line_px,
            OrderSide::Ask => (if amm_px < price { amm_px } else { price }) >= line_px,
        }
    }

    /// The execution-price bound is strictly worse than the level's price:
    /// the level cannot be reached.
    pub open spec fn line_is_unreachable_spec(price: i64, line_px: i64, side: OrderSide)
        -> bool {
        match side {
            OrderSide::Bid => price > line_px,
            OrderSide::Ask => price < line_px,
        }
    }

    pub fn line_is_unreachable(price: i64, line_px: i64, side: OrderSide) -> (r: bool)
        ensures
            r == Self::line_is_unreachable_spec(price, line_px, side),
    {
        match side {
            OrderSide::Bid => price > line_px,
            OrderSide::Ask => price < line_px,
        }
    }
}

/// For `n == q * d + r` with `0 <= r < d`, the quotient of `n * f` by `d` is
/// `q * f` plus the quotient of `r * f` by `d`.
proof fn lemma_muldivmod_quotient(n: int, f: int, d: int, q: int, r: int)
    requires
        d >= 1,
        f >= 0,
        n == q * d + r,
        0 <= r < d,
        q >= 0,
    ensures
        n * f / d == q * f + r * f / d,
{
    assert(n * f == r * f + (q * f) * d) by (nonlinear_arith)
        requires
            n == q * d + r,
    ;
    vstd::arithmetic::div_mod::lemma_hoist_over_denominator(r * f, q * f, d as nat);
}


/// For `s` the integer square root of `kdf / px`: the price `px` brackets
/// the invariant product between `px * s^2` and `px * (s + 1)^2`.
proof fn lemma_px_root_bounds(kdf: int, px: int, s: int)
    requires
        px >= 1,
        kdf >= 0,
        s == isqrt_spec(kdf / px),
        s >= 1,
    ensures
        px * (s * s) <= kdf,
        kdf < px * ((s + 1) * (s + 1)),
{
    let m = kdf / px;
    lemma_isqrt_exists(m);
    assert(s * s <= m && m < (s + 1) * (s + 1));
    vstd::arithmetic::div_mod::lemma_fundamental_div_mod(kdf, px);
    assert(kdf == px * m + kdf % px);
    assert(0 <= kdf % px < px) by {
        vstd::arithmetic::div_mod::lemma_mod_division_less_than_divisor(kdf, px);
    }
    assert(px * (s * s) <= px * m) by (nonlinear_arith)
        requires
            s * s <= m,
            px >= 1,
    ;
    assert(px * m <= kdf);
    assert(kdf < px * (m + 1)) by (nonlinear_arith)
        requires
            kdf == px * m + kdf % px,
            kdf % px < px,
    ;
    assert(px * (m + 1) <= px * ((s + 1) * (s + 1))) by (nonlinear_arith)
        requires
            m + 1 <= (s + 1) * (s + 1),
            px >= 1,
    ;
}

/// Quantity-for-price and price-after-quantity are approximate inverses on
/// the bid side: when the curve can absorb quantity up to a target price
/// `px` (the root `s` of the curve equation is at least the current asset
/// reserve), the price after trading exactly that quantity is at least `px`
/// and exceeds it by a relative error below `(2s + 1) / s^2`.
pub proof fn lemma_qty_px_inverse_bid(amm: DeriverseAmm, px: i64, s: int)
    requires
        amm.wf(),
        1 <= px <= i64::MAX / 4,
        amm.k as int * amm.df as int <= i128::MAX,
        s == isqrt_spec(amm.k as int * amm.df as int / px as int),
        amm.a_tokens as int <= s <= i64::MAX,
        s >= 1,
    ensures
        amm.amm_qty_spec(px, OrderSide::Bid) == Ok::<i64, DrvError>(
            (s - amm.a_tokens as int) as i64,
        ),
        match amm.amm_px_spec((s - amm.a_tokens as int) as i64, OrderSide::Bid) {
            Ok(px2) => px <= px2 && (px2 as int) * (s * s) < (px as int) * ((s + 1) * (s
                + 1)),
            Err(_) => false,
        },
{
    let kdf = amm.k as int * amm.df as int;
    assert(kdf >= 0) by (nonlinear_arith)
        requires
            kdf == amm.k as int * amm.df as int,
            amm.k >= 0,
            amm.df >= 1,
    ;
    lemma_px_root_bounds(kdf, px as int, s);
    let q = (s - amm.a_tokens as int) as i64;
    assert(amm.amm_qty_spec(px, OrderSide::Bid) == Ok::<i64, DrvError>(q));
    let new = amm.a_tokens as int + q as int;
    assert(new == s);
    let px2v = kdf / (s * s);
    assert(s * s >= 1) by (nonlinear_arith)
        requires
            s >= 1,
    ;
    assert(px as int <= px2v) by {
        vstd::arithmetic::div_mod::lemma_div_multiples_vanish(px as int, s * s);
        vstd::arithmetic::div_mod::lemma_div_is_ordered(
            (px as int) * (s * s),
            kdf,
            s * s,
        );
        assert((px as int) * (s * s) / (s * s) == px as int);
    }
    assert(px2v * (s * s) <= kdf) by {
        vstd::arithmetic::div_mod::lemma_fundamental_div_mod(kdf, s * s);
        assert(kdf == (s * s) * px2v + kdf % (s * s));
        assert(kdf % (s * s) >= 0) by {
            vstd::arithmetic::div_mod::lemma_mod_division_less_than_divisor(kdf, s * s);
        }
        assert((s * s) * px2v == px2v * (s * s)) by (nonlinear_arith);
    }
    match amm.amm_px_spec(q, OrderSide::Bid) {
        Ok(px2) => {
            if px2v > i64::MAX {
                assert(px2 == i64::MAX);
                assert((px2 as int) * (s * s) <= px2v * (s * s)) by (nonlinear_arith)
                    requires
                        px2 as int <= px2v,
                        s * s >= 1,
                ;
                assert(kdf < (px as int) * ((s + 1) * (s + 1)));
            } else {
                assert(px2 == px2v);
            }
            assert((px2 as int) * (s * s) <= kdf);
            assert(kdf < (px as int) * ((s + 1) * (s + 1)));
        },
        Err(_) => {
            assert(false);
        },
    }
}

/// Quantity-for-price and price-after-quantity are approximate inverses on
/// the ask side: when the target price `px` is reachable by depleting the
/// asset reserve (the root `s` of the curve equation is at most the current
/// reserve), the price after trading exactly that quantity is at least `px`
/// and exceeds it by a relative error below `(2s + 1) / s^2`.
pub proof fn lemma_qty_px_inverse_ask(amm: DeriverseAmm, px: i64, s: int)
    requires
        amm.wf(),
        1 <= px <= i64::MAX / 4,
        amm.k as int * amm.df as int <= i128::MAX,
        s == isqrt_spec(amm.k as int * amm.df as int / px as int),
        1 <= s <= amm.a_tokens as int,
    ensures
        amm.amm_qty_spec(px, OrderSide::Ask) == Ok::<i64, DrvError>(
            (amm.a_tokens as int - s) as i64,
        ),
        match amm.amm_px_spec(
            (amm.a_tokens as int - s) as i64,
            OrderSide::Ask,
        ) {
            Ok(px2) => px <= px2 && (px2 as int) * (s * s) < (px as int) * ((s + 1) * (s
                + 1)),
            Err(_) => false,
        },
{
    let kdf = amm.k as int * amm.df as int;
    assert(kdf >= 0) by (nonlinear_arith)
        requires
            kdf == amm.k as int * amm.df as int,
            amm.k >= 0,
            amm.df >= 1,
    ;
    lemma_px_root_bounds(kdf, px as int, s);
    let q = (amm.a_tokens as int - s) as i64;
    assert(amm.amm_qty_spec(px, OrderSide::Ask) == Ok::<i64, DrvError>(q));
    assert(q < amm.a_tokens);
    {
        let new = amm.a_tokens as int - q as int;
        assert(new == s);
        let px2v = kdf / (s * s);
        assert(s * s >= 1) by (nonlinear_arith)
            requires
                s >= 1,
        ;
        assert(px as int <= px2v) by {
            vstd::arithmetic::div_mod::lemma_div_multiples_vanish(px as int, s * s);
            vstd::arithmetic::div_mod::lemma_div_is_ordered(
                (px as int) * (s * s),
                kdf,
                s * s,
            );
            assert((px as int) * (s * s) / (s * s) == px as int);
        }
        assert(px2v * (s * s) <= kdf) by {
            vstd::arithmetic::div_mod::lemma_fundamental_div_mod(kdf, s * s);
            assert(kdf == (s * s) * px2v + kdf % (s * s));
            assert(kdf % (s * s) >= 0) by {
                vstd::arithmetic::div_mod::lemma_mod_division_less_than_divisor(
                    kdf,
                    s * s,
                );
            }
            assert((s * s) * px2v == px2v * (s * s)) by (nonlinear_arith);
        }
        match amm.amm_px_spec(q, OrderSide::Ask) {
            Ok(px2) => {
                if px2v > i64::MAX {
                    assert(px2 == i64::MAX);
                    assert((px2 as int) * (s * s) <= px2v * (s * s)) by (nonlinear_arith)
                        requires
                            px2 as int <= px2v,
                            s * s >= 1,
                    ;
                } else {
                    assert(px2 == px2v);
                }
                assert((px2 as int) * (s * s) <= kdf);
            },
            Err(_) => {
                assert(false);
            },
        }
    }
}

} // verus!
