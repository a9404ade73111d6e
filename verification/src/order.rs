//! Order and market-data types shared by the pair executor and the
//! mismatch resolver.

use vstd::prelude::*;

verus! {

/// Side of an order.
#[derive(Clone, Copy, Debug, PartialEq, Eq, Structural)]
pub enum Side {
    Buy,
    Sell,
}

/// Time-in-force of an order. A fill-or-kill order executes in full
/// immediately or is cancelled in full; an immediate-or-cancel order
/// executes what is immediately available and cancels the remainder.
#[derive(Clone, Copy, Debug, PartialEq, Eq, Structural)]
pub enum TimeInForce {
    FillOrKill,
    ImmediateOrCancel,
}

/// One order to be submitted: token id, side, limit price (thousandths),
/// size (shares) and time-in-force. Constructed fresh for every submission
/// and never mutated after construction.
#[derive(Clone, Debug)]
pub struct OrderIntent {
    pub token_id: String,
    pub side: Side,
    pub price: u64,
    pub size: u64,
    pub tif: TimeInForce,
}

/// Mathematical image of an [`OrderIntent`]: the token id as a character
/// sequence, the numeric fields as they stand.
pub struct IntentView {
    pub token_id: Seq<char>,
    pub side: Side,
    pub price: u64,
    pub size: u64,
    pub tif: TimeInForce,
}

impl View for OrderIntent {
    type V = IntentView;

    open spec fn view(&self) -> IntentView {
        IntentView {
            token_id: self.token_id@,
            side: self.side,
            price: self.price,
            size: self.size,
            tif: self.tif,
        }
    }
}

/// Top-of-book snapshot for one token: optional (best bid price, size) and
/// optional (best ask price, size), prices in thousandths. Supplied by the
/// external quote feed and read-only to this crate; a token with no
/// snapshot is treated as a snapshot with neither side quoted.
#[derive(Clone, Copy, Debug)]
pub struct TopOfBook {
    pub bid: Option<(u64, u64)>,
    pub ask: Option<(u64, u64)>,
}

impl TopOfBook {
    /// A book with neither side quoted.
    pub fn empty() -> (r: TopOfBook)
        ensures
            r.bid is None,
            r.ask is None,
    {
        TopOfBook { bid: None, ask: None }
    }
}

} // verus!
