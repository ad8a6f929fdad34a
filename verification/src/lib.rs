//! Off-chain quote engine for a trading venue that combines a constant-product
//! automated market maker with a price-ordered limit order book stored as a
//! linked list embedded in a flat record array.
//!
//! The engine is a pure function of a point-in-time snapshot of venue state:
//! it decodes fixed-layout account bytes into an instrument header, token
//! records, a fee header and an order book, then simulates a requested swap
//! against both liquidity sources and reports the resulting quote.  It never
//! mutates persisted state and performs no I/O.

pub mod amm;
pub mod decode;
pub mod error;
pub mod helper;
pub mod instrument;
pub mod lines_linked_list;
pub mod math;
pub mod quote;
