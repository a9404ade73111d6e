//! Pair executor: plans the dual-leg fill-or-kill submission.
//!
//! Both submission strategies — signing each order at submission time, or
//! pre-signing both legs locally before one batched call — submit the same
//! pair of buy orders; pre-signing only moves the signing work off the
//! critical path. The plan below is therefore common to both: the
//! surrounding application builds, signs and transmits the two intents of a
//! [`PairPlan::Submit`] as a single fill-or-kill batch, and must make no
//! venue call at all for a [`PairPlan::DryRun`].
//!
//! A fill-or-kill order executes in full immediately or is cancelled in
//! full, but the two legs of one batch are matched independently: one leg
//! can fill while the other is killed. Such asymmetric outcomes are
//! expected and are reconciled by the mismatch resolver, never here.

use vstd::prelude::*;

use crate::order::{IntentView, OrderIntent, Side, TimeInForce};

verus! {

/// The planned submission for one trading cycle.
#[derive(Clone, Debug)]
pub enum PairPlan {
    /// Dry-run mode: no signing and no network call may happen; the
    /// submission reports an immediate success with no leg outcomes.
    DryRun,
    /// Submit these two buy orders, aligned as (leg A, leg B), in one
    /// fill-or-kill batch.
    Submit(OrderIntent, OrderIntent),
}

/// Mathematical image of a [`PairPlan`].
pub enum PairPlanView {
    DryRun,
    Submit(IntentView, IntentView),
}

impl View for PairPlan {
    type V = PairPlanView;

    open spec fn view(&self) -> PairPlanView {
        match self {
            PairPlan::DryRun => PairPlanView::DryRun,
            PairPlan::Submit(a, b) => PairPlanView::Submit(a@, b@),
        }
    }
}

/// One leg of the pair: a fill-or-kill buy of `token` at `price` for
/// `size` shares.
pub open spec fn spec_leg_intent(token: Seq<char>, price: u64, size: u64) -> IntentView {
    IntentView {
        token_id: token,
        side: Side::Buy,
        price,
        size,
        tif: TimeInForce::FillOrKill,
    }
}

/// Plan the two-leg submission for one cycle.
///
/// Law: with `dry_run` set the plan is always [`PairPlan::DryRun`] — no
/// order intent is handed out, so no venue call can follow; otherwise the
/// plan is exactly the two fill-or-kill buys at the given prices and size,
/// aligned to (leg A, leg B).
pub fn plan_fok_pair(
    token_a: &str,
    token_b: &str,
    price_a: u64,
    price_b: u64,
    size: u64,
    dry_run: bool,
) -> (r: PairPlan)
    ensures
        dry_run ==> r@ == PairPlanView::DryRun,
        !dry_run ==> r@ == PairPlanView::Submit(
            spec_leg_intent(token_a@, price_a, size),
            spec_leg_intent(token_b@, price_b, size),
        ),
{
    if dry_run {
        return PairPlan::DryRun;
    }
    let oa = OrderIntent {
        token_id: token_a.to_owned(),
        side: Side::Buy,
        price: price_a,
        size,
        tif: TimeInForce::FillOrKill,
    };
    let ob = OrderIntent {
        token_id: token_b.to_owned(),
        side: Side::Buy,
        price: price_b,
        size,
        tif: TimeInForce::FillOrKill,
    };
    PairPlan::Submit(oa, ob)
}

} // verus!
