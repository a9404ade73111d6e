//! Mismatch resolver: classifies the two leg outcomes of a pair submission
//! and, when exactly one leg filled, decides the compensating recovery
//! sequence — a refill of the missing leg when its ask is within the
//! combined price cap, else a delayed best-effort unwind of the filled leg.
//!
//! The resolver is a single-pass state machine. The surrounding application
//! drives it: it performs each returned action (a submission, or the fixed
//! recovery delay) and feeds the action's result into the next transition.
//! No transition re-evaluates an earlier decision, and the machine
//! terminates after at most one refill attempt and one unwind attempt.

use vstd::prelude::*;

use crate::order::{IntentView, OrderIntent, Side, TimeInForce, TopOfBook};

verus! {

/// Floor for the unwind sell price, in thousandths: a sell is never quoted
/// at a zero or negative price.
pub const MIN_SELL_PRICE: u64 = 1;

/// Per-order outcome record handed back by the venue for one leg, reduced
/// to the fields that classification reads: the reported status and the
/// order identifier, when present.
#[derive(Clone, Debug)]
pub struct LegResponse {
    pub status: Option<String>,
    pub order_id: Option<String>,
}

/// Mathematical image of a [`LegResponse`].
pub struct LegResponseView {
    pub status: Option<Seq<char>>,
    pub order_id: Option<Seq<char>>,
}

impl View for LegResponse {
    type V = LegResponseView;

    open spec fn view(&self) -> LegResponseView {
        LegResponseView { status: self.status.deep_view(), order_id: self.order_id.deep_view() }
    }
}

/// A leg counts as filled when the venue reported the status `matched`, or
/// returned an order identifier for it.
pub open spec fn spec_is_filled(r: LegResponseView) -> bool {
    r.status == Some("matched"@) || r.order_id is Some
}

/// Classify one leg outcome as filled or not-filled.
pub fn is_filled(resp: &LegResponse) -> (r: bool)
    ensures
        r == spec_is_filled(resp@),
{
    let matched = match &resp.status {
        Some(s) => {
            let m = String::from_str("matched");
            *s == m
        },
        None => false,
    };
    matched || resp.order_id.is_some()
}

/// Where the resolver stands between transitions.
#[derive(Clone, Debug)]
pub enum ResolverState {
    /// Terminal: nothing (further) to do for this pair.
    Done,
    /// A refill buy for the missing leg has been handed out for submission;
    /// the filled leg is kept in case the refill fails and must be unwound.
    RefillPending { filled_token: String, shares: u64 },
    /// The refill was not viable or failed; after the recovery delay the
    /// filled leg is to be sold at its current bid.
    UnwindPending { filled_token: String, shares: u64 },
}

/// Mathematical image of a [`ResolverState`].
pub enum StateView {
    Done,
    RefillPending { filled_token: Seq<char>, shares: u64 },
    UnwindPending { filled_token: Seq<char>, shares: u64 },
}

impl View for ResolverState {
    type V = StateView;

    open spec fn view(&self) -> StateView {
        match self {
            ResolverState::Done => StateView::Done,
            ResolverState::RefillPending { filled_token, shares } => StateView::RefillPending {
                filled_token: filled_token@,
                shares: *shares,
            },
            ResolverState::UnwindPending { filled_token, shares } => StateView::UnwindPending {
                filled_token: filled_token@,
                shares: *shares,
            },
        }
    }
}

/// What the application must do next on the resolver's behalf.
#[derive(Clone, Debug)]
pub enum ResolverAction {
    /// Nothing: no submission and no wait.
    NoAction,
    /// Submit this fill-or-kill buy of the missing leg, then report the
    /// submission's outcome through [`on_refill_result`].
    SubmitRefill(OrderIntent),
    /// Wait the fixed recovery delay, then look up the filled token's
    /// top-of-book and continue through [`on_unwind_quote`].
    Delay,
    /// Submit this immediate-or-cancel sell of the filled leg; its outcome
    /// is recorded only, never acted upon.
    SubmitUnwind(OrderIntent),
}

/// Mathematical image of a [`ResolverAction`].
pub enum ActionView {
    NoAction,
    SubmitRefill(IntentView),
    Delay,
    SubmitUnwind(IntentView),
}

impl View for ResolverAction {
    type V = ActionView;

    open spec fn view(&self) -> ActionView {
        match self {
            ResolverAction::NoAction => ActionView::NoAction,
            ResolverAction::SubmitRefill(o) => ActionView::SubmitRefill(o@),
            ResolverAction::Delay => ActionView::Delay,
            ResolverAction::SubmitUnwind(o) => ActionView::SubmitUnwind(o@),
        }
    }
}

/// A refill of the missing leg is viable when an ask is quoted and the ask
/// price plus the filled leg's price stays within the combined price cap.
pub open spec fn spec_refill_viable(ask: Option<(u64, u64)>, filled_px: u64, cap: u64) -> bool {
    match ask {
        Some(q) => q.0 + filled_px <= cap,
        None => false,
    }
}

/// The refill order: a fill-or-kill buy of the missing token at the quoted
/// ask for the original size.
pub open spec fn spec_refill_intent(missing: Seq<char>, ask_px: u64, shares: u64) -> IntentView {
    IntentView {
        token_id: missing,
        side: Side::Buy,
        price: ask_px,
        size: shares,
        tif: TimeInForce::FillOrKill,
    }
}

/// The unwind sell price: the quoted bid, floored at the minimum positive
/// price.
pub open spec fn spec_unwind_price(bid_px: u64) -> u64 {
    if bid_px >= MIN_SELL_PRICE {
        bid_px
    } else {
        MIN_SELL_PRICE
    }
}

/// The unwind order: an immediate-or-cancel sell of the filled token at the
/// floored bid for the original size.
pub open spec fn spec_unwind_intent(filled: Seq<char>, bid_px: u64, shares: u64) -> IntentView {
    IntentView {
        token_id: filled,
        side: Side::Sell,
        price: spec_unwind_price(bid_px),
        size: shares,
        tif: TimeInForce::ImmediateOrCancel,
    }
}

/// First transition, entered once per completed submission: classify the
/// two leg outcomes and decide between no action, a refill attempt, and the
/// delayed unwind path. `book_a` and `book_b` are the current top-of-book
/// snapshots of the two tokens.
pub open spec fn spec_resolve_outcomes(
    tok_a: Seq<char>,
    tok_b: Seq<char>,
    px_a: u64,
    px_b: u64,
    a_filled: bool,
    b_filled: bool,
    book_a: TopOfBook,
    book_b: TopOfBook,
    cap: u64,
    shares: u64,
) -> (StateView, ActionView) {
    if a_filled == b_filled {
        (StateView::Done, ActionView::NoAction)
    } else {
        let filled = if a_filled {
            tok_a
        } else {
            tok_b
        };
        let missing = if a_filled {
            tok_b
        } else {
            tok_a
        };
        let filled_px = if a_filled {
            px_a
        } else {
            px_b
        };
        let missing_book = if a_filled {
            book_b
        } else {
            book_a
        };
        match missing_book.ask {
            Some(q) => if q.0 + filled_px <= cap {
                (
                    (StateView::RefillPending { filled_token: filled, shares }),
                    ActionView::SubmitRefill(spec_refill_intent(missing, q.0, shares)),
                )
            } else {
                ((StateView::UnwindPending { filled_token: filled, shares }), ActionView::Delay)
            },
            None => (
                (StateView::UnwindPending { filled_token: filled, shares }),
                ActionView::Delay,
            ),
        }
    }
}

/// Transition after a refill submission: success ends the resolver; a
/// failed submission falls back to the delayed unwind path. Any other
/// state is left as it stands.
pub open spec fn spec_on_refill_result(st: StateView, ok: bool) -> (StateView, ActionView) {
    match st {
        StateView::RefillPending { filled_token, shares } => {
            if ok {
                (StateView::Done, ActionView::NoAction)
            } else {
                ((StateView::UnwindPending { filled_token, shares }), ActionView::Delay)
            }
        },
        _ => (st, ActionView::NoAction),
    }
}

/// Transition after the recovery delay, given the filled token's current
/// top-of-book: sell at the floored bid when one is quoted, else give up.
/// Either way the resolver terminates; the unwind submission's outcome is
/// never acted upon. Any other state is left as it stands.
pub open spec fn spec_on_unwind_quote(st: StateView, book: TopOfBook) -> (StateView, ActionView) {
    match st {
        StateView::UnwindPending { filled_token, shares } => {
            match book.bid {
                Some(q) => (
                    StateView::Done,
                    ActionView::SubmitUnwind(spec_unwind_intent(filled_token, q.0, shares)),
                ),
                None => (StateView::Done, ActionView::NoAction),
            }
        },
        _ => (st, ActionView::NoAction),
    }
}

/// Enter the resolver for one completed pair submission. `outcomes` holds
/// the per-leg outcome records aligned to (leg A, leg B); fewer than two
/// records means no confirmed pair was produced and nothing is done.
pub fn resolve_outcomes(
    token_a: &str,
    token_b: &str,
    px_a: u64,
    px_b: u64,
    outcomes: &Vec<LegResponse>,
    book_a: &TopOfBook,
    book_b: &TopOfBook,
    cap: u64,
    shares: u64,
) -> (r: (ResolverState, ResolverAction))
    ensures
        outcomes@.len() < 2 ==> r.0@ == StateView::Done && r.1@ == ActionView::NoAction,
        outcomes@.len() >= 2 ==> (r.0@, r.1@) == spec_resolve_outcomes(
            token_a@,
            token_b@,
            px_a,
            px_b,
            spec_is_filled(outcomes@[0]@),
            spec_is_filled(outcomes@[1]@),
            *book_a,
            *book_b,
            cap,
            shares,
        ),
{
    if outcomes.len() < 2 {
        return (ResolverState::Done, ResolverAction::NoAction);
    }
    let a_ok = is_filled(&outcomes[0]);
    let b_ok = is_filled(&outcomes[1]);
    if a_ok == b_ok {
        return (ResolverState::Done, ResolverAction::NoAction);
    }
    let filled_token = if a_ok {
        token_a
    } else {
        token_b
    };
    let missing_token = if a_ok {
        token_b
    } else {
        token_a
    };
    let filled_px = if a_ok {
        px_a
    } else {
        px_b
    };
    let missing_book = if a_ok {
        book_b
    } else {
        book_a
    };
    match missing_book.ask {
        Some(q) => {
            let ask_px = q.0;
            if filled_px <= cap && ask_px <= cap - filled_px {
                let intent = OrderIntent {
                    token_id: missing_token.to_owned(),
                    side: Side::Buy,
                    price: ask_px,
                    size: shares,
                    tif: TimeInForce::FillOrKill,
                };
                (
                    ResolverState::RefillPending { filled_token: filled_token.to_owned(), shares },
                    ResolverAction::SubmitRefill(intent),
                )
            } else {
                (
                    ResolverState::UnwindPending { filled_token: filled_token.to_owned(), shares },
                    ResolverAction::Delay,
                )
            }
        },
        None => (
            ResolverState::UnwindPending { filled_token: filled_token.to_owned(), shares },
            ResolverAction::Delay,
        ),
    }
}

/// Report the outcome of the refill submission handed out by
/// [`resolve_outcomes`].
pub fn on_refill_result(state: ResolverState, ok: bool) -> (r: (ResolverState, ResolverAction))
    ensures
        (r.0@, r.1@) == spec_on_refill_result(state@, ok),
{
    match state {
        ResolverState::RefillPending { filled_token, shares } => {
            if ok {
                (ResolverState::Done, ResolverAction::NoAction)
            } else {
                (ResolverState::UnwindPending { filled_token, shares }, ResolverAction::Delay)
            }
        },
        other => (other, ResolverAction::NoAction),
    }
}

/// Continue after the recovery delay with the filled token's current
/// top-of-book.
pub fn on_unwind_quote(state: ResolverState, book: &TopOfBook) -> (r: (
    ResolverState,
    ResolverAction,
))
    ensures
        (r.0@, r.1@) == spec_on_unwind_quote(state@, *book),
{
    match state {
        ResolverState::UnwindPending { filled_token, shares } => {
            match book.bid {
                Some(q) => {
                    let bid_px = q.0;
                    let px = if bid_px >= MIN_SELL_PRICE {
                        bid_px
                    } else {
                        MIN_SELL_PRICE
                    };
                    let intent = OrderIntent {
                        token_id: filled_token,
                        side: Side::Sell,
                        price: px,
                        size: shares,
                        tif: TimeInForce::ImmediateOrCancel,
                    };
                    (ResolverState::Done, ResolverAction::SubmitUnwind(intent))
                },
                None => (ResolverState::Done, ResolverAction::NoAction),
            }
        },
        other => (other, ResolverAction::NoAction),
    }
}

/// Law: a symmetric outcome — both legs filled, or both not filled — ends
/// the resolver at once with no compensating action.
pub proof fn lemma_symmetric_outcome_no_action(
    tok_a: Seq<char>,
    tok_b: Seq<char>,
    px_a: u64,
    px_b: u64,
    filled: bool,
    book_a: TopOfBook,
    book_b: TopOfBook,
    cap: u64,
    shares: u64,
)
    ensures
        spec_resolve_outcomes(tok_a, tok_b, px_a, px_b, filled, filled, book_a, book_b, cap, shares)
            == (StateView::Done, ActionView::NoAction),
{
}

/// Law: when exactly one leg filled and the missing leg's ask price `p`
/// satisfies `p + filled_price <= cap`, the resolver's one action is a
/// single fill-or-kill buy of the missing token at `p` for the original
/// size; a successful refill then ends it with no further action, and a
/// failed refill falls back to the delayed unwind path.
pub proof fn lemma_one_leg_refill(
    tok_a: Seq<char>,
    tok_b: Seq<char>,
    px_a: u64,
    px_b: u64,
    a_filled: bool,
    b_filled: bool,
    book_a: TopOfBook,
    book_b: TopOfBook,
    cap: u64,
    shares: u64,
    p: u64,
    sz: u64,
)
    requires
        a_filled != b_filled,
        (if a_filled {
            book_b
        } else {
            book_a
        }).ask == Some((p, sz)),
        p + (if a_filled {
            px_a
        } else {
            px_b
        }) <= cap,
    ensures
        ({
            let filled = if a_filled {
                tok_a
            } else {
                tok_b
            };
            let missing = if a_filled {
                tok_b
            } else {
                tok_a
            };
            let (st, act) = spec_resolve_outcomes(
                tok_a,
                tok_b,
                px_a,
                px_b,
                a_filled,
                b_filled,
                book_a,
                book_b,
                cap,
                shares,
            );
            &&& act == ActionView::SubmitRefill(spec_refill_intent(missing, p, shares))
            &&& st == (StateView::RefillPending { filled_token: filled, shares })
            &&& spec_on_refill_result(st, true) == (StateView::Done, ActionView::NoAction)
            &&& spec_on_refill_result(st, false) == (
                (StateView::UnwindPending { filled_token: filled, shares }),
                ActionView::Delay,
            )
        }),
{
}

/// Law: when exactly one leg filled and the refill is not viable — no ask
/// quoted, or the combined price cap would be exceeded — the resolver first
/// waits the recovery delay, and then, given the filled token's bid, its
/// one action is a single immediate-or-cancel sell of the filled token at
/// that bid floored at the minimum positive price; it terminates regardless
/// of that submission's outcome.
pub proof fn lemma_one_leg_unwind(
    tok_a: Seq<char>,
    tok_b: Seq<char>,
    px_a: u64,
    px_b: u64,
    a_filled: bool,
    b_filled: bool,
    book_a: TopOfBook,
    book_b: TopOfBook,
    cap: u64,
    shares: u64,
    unwind_book: TopOfBook,
    bid_px: u64,
    bid_sz: u64,
)
    requires
        a_filled != b_filled,
        !spec_refill_viable(
            (if a_filled {
                book_b
            } else {
                book_a
            }).ask,
            if a_filled {
                px_a
            } else {
                px_b
            },
            cap,
        ),
        unwind_book.bid == Some((bid_px, bid_sz)),
    ensures
        ({
            let filled = if a_filled {
                tok_a
            } else {
                tok_b
            };
            let (st, act) = spec_resolve_outcomes(
                tok_a,
                tok_b,
                px_a,
                px_b,
                a_filled,
                b_filled,
                book_a,
                book_b,
                cap,
                shares,
            );
            &&& act == ActionView::Delay
            &&& st == (StateView::UnwindPending { filled_token: filled, shares })
            &&& spec_on_unwind_quote(st, unwind_book) == (
                StateView::Done,
                ActionView::SubmitUnwind(spec_unwind_intent(filled, bid_px, shares)),
            )
        }),
{
}

} // verus!
