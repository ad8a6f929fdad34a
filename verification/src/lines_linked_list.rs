use vstd::prelude::*;

use crate::amm::OrderSide;
use crate::decode::{decode_lines, px_orders_of, PX_ORDERS_SIZE, SPOT_TRADE_ACCOUNT_HEADER_SIZE};
use crate::instrument::InstrAccountHeader;

verus! {

/// Reserved sentinel index: "no link" in a record's `next`/`prev` field, and
/// "empty slot" in its origin tag.
pub const NULL_ORDER: u32 = 0xffff_ffff;

/// One resting order-book level: a fixed-point price, a quantity in asset
/// minor units, forward and backward links (array indices), and the origin
/// tag `sref` whose sentinel value marks an unallocated slot.
#[derive(Clone, Copy, Debug, PartialEq, Eq, Structural)]
pub struct PxOrders {
    pub price: i64,
    pub qty: i64,
    pub next: u32,
    pub prev: u32,
    pub sref: u32,
}

pub type Lines = Vec<PxOrders>;

/// The sequence of `(index, record)` pairs visited by following forward
/// links from `cur`, for at most `remaining` steps.  Traversal stops at the
/// sentinel, at an out-of-range index, or at a self-link, so it is total
/// even on cyclic or corrupt link data.
pub open spec fn traversal(lines: Seq<PxOrders>, cur: u32, remaining: nat) -> Seq<(u32, PxOrders)>
    decreases remaining,
{
    if remaining == 0 {
        Seq::empty()
    } else if cur == NULL_ORDER || cur as int >= lines.len() {
        Seq::empty()
    } else {
        let entry = lines[cur as int];
        let rest = if entry.next == NULL_ORDER || entry.next == cur {
            Seq::<(u32, PxOrders)>::empty()
        } else {
            traversal(lines, entry.next, (remaining - 1) as nat)
        };
        seq![(cur, entry)] + rest
    }
}

/// Walk the linked list starting at `start_idx`, visiting at most
/// `lines_count` records.
pub fn iter_from(lines: &Lines, start_idx: u32, lines_count: usize) -> (r: Vec<(u32, PxOrders)>)
    ensures
        r@ == traversal(lines@, start_idx, lines_count as nat),
{
    let ghost full = traversal(lines@, start_idx, lines_count as nat);
    let mut out: Vec<(u32, PxOrders)> = Vec::new();
    let mut cur: u32 = start_idx;
    let mut remaining: usize = lines_count;
    loop
        invariant_except_break
            out@ + traversal(lines@, cur, remaining as nat) == full,
        ensures
            out@ == full,
        decreases remaining,
    {
        if remaining == 0 {
            proof {
                assert(out@ + traversal(lines@, cur, 0) =~= out@);
            }
            break;
        }
        if cur == NULL_ORDER || cur as usize >= lines.len() {
            proof {
                assert(out@ + traversal(lines@, cur, remaining as nat) =~= out@);
            }
            break;
        }
        let entry = lines[cur as usize];
        let ghost prev_out = out@;
        out.push((cur, entry));
        remaining = remaining - 1;
        if entry.next == NULL_ORDER || entry.next == cur {
            proof {
                assert(traversal(lines@, cur, (remaining + 1) as nat)
                    =~= seq![(cur, entry)]);
                assert(out@ =~= prev_out + traversal(lines@, cur, (remaining + 1) as nat));
            }
            break;
        }
        proof {
            assert(traversal(lines@, cur, (remaining + 1) as nat)
                =~= seq![(cur, entry)] + traversal(lines@, entry.next, remaining as nat));
            assert(out@ + traversal(lines@, entry.next, remaining as nat)
                =~= prev_out + traversal(lines@, cur, (remaining + 1) as nat));
        }
        cur = entry.next;
    }
    out
}

/// Read-only view of the order book: two head indices, the shared backing
/// array of levels, and the traversal bound taken from the header's declared
/// per-side counts.
#[derive(Clone, Debug)]
pub struct OrderBook {
    pub lines: Lines,
    pub bid_begin_line: u32,
    pub ask_begin_line: u32,
    pub total_lines_count: usize,
}

/// The rebuilt book view `book` is exactly what the header and the raw
/// lines-account bytes describe: the two head indices and the traversal
/// bound come from the header, and the backing array holds the level
/// records that follow the account header segment (empty when the buffer is
/// no longer than that segment; a trailing partial record is ignored).
pub open spec fn book_matches(book: OrderBook, h: InstrAccountHeader, data: Seq<u8>) -> bool {
    &&& book.bid_begin_line == h.bid_lines_begin
    &&& book.ask_begin_line == h.ask_lines_begin
    &&& book.total_lines_count == (if h.ask_lines_count > h.bid_lines_count {
        h.ask_lines_count
    } else {
        h.bid_lines_count
    }) as usize
    &&& data.len() <= SPOT_TRADE_ACCOUNT_HEADER_SIZE ==> book.lines@ == Seq::<
        PxOrders,
    >::empty()
    &&& data.len() > SPOT_TRADE_ACCOUNT_HEADER_SIZE ==> {
        let body = data.skip(SPOT_TRADE_ACCOUNT_HEADER_SIZE as int);
        &&& book.lines@.len() as int == body.len() as int / PX_ORDERS_SIZE as int
        &&& forall|i: int|
            0 <= i < book.lines@.len() ==> book.lines@[i] == px_orders_of(
                body,
                i * PX_ORDERS_SIZE as int,
            )
    }
}

impl OrderBook {
    /// Rebuild the book view from a decoded instrument header and the raw
    /// bytes of the lines account (see `book_matches`).
    pub fn new(instr_header: &InstrAccountHeader, lines_data: &[u8]) -> (book: OrderBook)
        ensures
            book_matches(book, *instr_header, lines_data@),
    {
        let lines: Lines = if lines_data.len() <= SPOT_TRADE_ACCOUNT_HEADER_SIZE {
            Vec::new()
        } else {
            let body = vstd::slice::slice_subrange(
                lines_data,
                SPOT_TRADE_ACCOUNT_HEADER_SIZE,
                lines_data.len(),
            );
            decode_lines(body)
        };
        let total = if instr_header.ask_lines_count > instr_header.bid_lines_count {
            instr_header.ask_lines_count
        } else {
            instr_header.bid_lines_count
        };
        OrderBook {
            bid_begin_line: instr_header.bid_lines_begin,
            ask_begin_line: instr_header.ask_lines_begin,
            total_lines_count: total as usize,
            lines,
        }
    }

    pub open spec fn begin_index_spec(self, side: OrderSide) -> u32 {
        match side {
            OrderSide::Bid => self.bid_begin_line,
            OrderSide::Ask => self.ask_begin_line,
        }
    }

    /// The best-priced level of a side: the record at the side's head index,
    /// or nothing when the index is out of range or the slot carries the
    /// empty-slot origin tag.
    pub open spec fn begin_spec(self, side: OrderSide) -> Option<PxOrders> {
        let idx = self.begin_index_spec(side);
        if idx as int >= self.lines@.len() {
            None
        } else if self.lines@[idx as int].sref == NULL_ORDER {
            None
        } else {
            Some(self.lines@[idx as int])
        }
    }

    pub fn begin(&self, side: OrderSide) -> (r: Option<PxOrders>)
        ensures
            r == self.begin_spec(side),
    {
        let idx = match side {
            OrderSide::Bid => self.bid_begin_line,
            OrderSide::Ask => self.ask_begin_line,
        };
        if idx as usize >= self.lines.len() {
            None
        } else {
            let line = self.lines[idx as usize];
            if line.sref == NULL_ORDER {
                None
            } else {
                Some(line)
            }
        }
    }

    /// A hypothetical order at `price` trades immediately against the
    /// side's best level: at or below the best ask for a bid, at or above
    /// the best bid for an ask.  (The side argument names the book side
    /// whose head is examined.)
    pub open spec fn cross_spec(self, price: i64, side: OrderSide) -> bool {
        match self.begin_spec(side) {
            Some(line) => match side {
                OrderSide::Bid => price <= line.price,
                OrderSide::Ask => price >= line.price,
            },
            None => false,
        }
    }

    pub fn cross(&self, price: i64, side: OrderSide) -> (r: bool)
        ensures
            r == self.cross_spec(price, side),
    {
        match self.begin(side) {
            Some(line) => match side {
                OrderSide::Bid => price <= line.price,
                OrderSide::Ask => price >= line.price,
            },
            None => false,
        }
    }

    /// The sequence of bid levels, best first, as linked.
    pub open spec fn bids_spec(self) -> Seq<(u32, PxOrders)> {
        traversal(self.lines@, self.bid_begin_line, self.total_lines_count as nat)
    }

    /// The sequence of ask levels, best first, as linked.
    pub open spec fn asks_spec(self) -> Seq<(u32, PxOrders)> {
        traversal(self.lines@, self.ask_begin_line, self.total_lines_count as nat)
    }

    /// All bid levels reachable from the bid head, bounded by the declared
    /// line count.
    pub fn iter_bids(&self) -> (r: Vec<(u32, PxOrders)>)
        ensures
            r@ == self.bids_spec(),
    {
        iter_from(&self.lines, self.bid_begin_line, self.total_lines_count)
    }

    /// All ask levels reachable from the ask head, bounded by the declared
    /// line count.
    pub fn iter_asks(&self) -> (r: Vec<(u32, PxOrders)>)
        ensures
            r@ == self.asks_spec(),
    {
        iter_from(&self.lines, self.ask_begin_line, self.total_lines_count)
    }
}

} // verus!
