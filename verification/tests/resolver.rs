use pair_exec::execution::{plan_fok_pair, PairPlan};
use pair_exec::hedge::{
    is_filled, on_refill_result, on_unwind_quote, resolve_outcomes, LegResponse, ResolverAction,
    ResolverState, MIN_SELL_PRICE,
};
use pair_exec::order::{Side, TimeInForce, TopOfBook};

fn filled_leg() -> LegResponse {
    LegResponse { status: Some("matched".to_string()), order_id: None }
}

fn killed_leg() -> LegResponse {
    LegResponse { status: Some("killed".to_string()), order_id: None }
}

fn book(bid: Option<(u64, u64)>, ask: Option<(u64, u64)>) -> TopOfBook {
    TopOfBook { bid, ask }
}

#[test]
fn dry_run_hands_out_no_orders() {
    let plan = plan_fok_pair("tokA", "tokB", 420, 580, 10, true);
    assert!(matches!(plan, PairPlan::DryRun));
}

#[test]
fn live_plan_is_two_fok_buys() {
    let plan = plan_fok_pair("tokA", "tokB", 420, 580, 10, false);
    match plan {
        PairPlan::Submit(a, b) => {
            assert_eq!(a.token_id, "tokA");
            assert_eq!(a.side, Side::Buy);
            assert_eq!(a.price, 420);
            assert_eq!(a.size, 10);
            assert_eq!(a.tif, TimeInForce::FillOrKill);
            assert_eq!(b.token_id, "tokB");
            assert_eq!(b.side, Side::Buy);
            assert_eq!(b.price, 580);
            assert_eq!(b.size, 10);
            assert_eq!(b.tif, TimeInForce::FillOrKill);
        },
        PairPlan::DryRun => panic!("expected a live submission plan"),
    }
}

#[test]
fn outcome_classification() {
    assert!(is_filled(&filled_leg()));
    assert!(is_filled(&LegResponse { status: None, order_id: Some("oid-1".to_string()) }));
    assert!(!is_filled(&killed_leg()));
    assert!(!is_filled(&LegResponse { status: None, order_id: None }));
}

#[test]
fn symmetric_outcomes_take_no_action() {
    for legs in [
        vec![filled_leg(), filled_leg()],
        vec![killed_leg(), killed_leg()],
    ] {
        let (st, act) = resolve_outcomes(
            "tokA",
            "tokB",
            420,
            580,
            &legs,
            &book(Some((400, 5)), None),
            &book(None, Some((550, 5))),
            1000,
            10,
        );
        assert!(matches!(st, ResolverState::Done));
        assert!(matches!(act, ResolverAction::NoAction));
    }
}

#[test]
fn short_outcome_list_takes_no_action() {
    let legs = vec![filled_leg()];
    let (st, act) = resolve_outcomes(
        "tokA",
        "tokB",
        420,
        580,
        &legs,
        &book(None, None),
        &book(None, None),
        1000,
        10,
    );
    assert!(matches!(st, ResolverState::Done));
    assert!(matches!(act, ResolverAction::NoAction));
}

#[test]
fn refill_within_cap_buys_missing_leg() {
    // leg A filled at 0.42, leg B missing, B's ask 0.55, cap 1.00
    let legs = vec![filled_leg(), killed_leg()];
    let (st, act) = resolve_outcomes(
        "tokA",
        "tokB",
        420,
        580,
        &legs,
        &book(Some((400, 5)), None),
        &book(None, Some((550, 5))),
        1000,
        10,
    );
    match act {
        ResolverAction::SubmitRefill(o) => {
            assert_eq!(o.token_id, "tokB");
            assert_eq!(o.side, Side::Buy);
            assert_eq!(o.price, 550);
            assert_eq!(o.size, 10);
            assert_eq!(o.tif, TimeInForce::FillOrKill);
        },
        _ => panic!("expected a refill submission"),
    }
    match &st {
        ResolverState::RefillPending { filled_token, shares } => {
            assert_eq!(filled_token, "tokA");
            assert_eq!(*shares, 10);
        },
        _ => panic!("expected the refill-pending state"),
    }
    // a successful refill ends the resolver: no unwind occurs
    let (st2, act2) = on_refill_result(st, true);
    assert!(matches!(st2, ResolverState::Done));
    assert!(matches!(act2, ResolverAction::NoAction));
}

#[test]
fn refill_when_second_leg_fills() {
    // mirror case: leg B filled at 0.58, leg A missing, A's ask within cap
    let legs = vec![killed_leg(), filled_leg()];
    let (st, act) = resolve_outcomes(
        "tokA",
        "tokB",
        420,
        580,
        &legs,
        &book(None, Some((410, 3))),
        &book(Some((570, 4)), None),
        1000,
        7,
    );
    match act {
        ResolverAction::SubmitRefill(o) => {
            assert_eq!(o.token_id, "tokA");
            assert_eq!(o.price, 410);
            assert_eq!(o.size, 7);
        },
        _ => panic!("expected a refill submission"),
    }
    assert!(matches!(st, ResolverState::RefillPending { .. }));
}

#[test]
fn cap_breach_delays_then_unwinds_at_bid() {
    // leg A filled at 0.42, B's ask 0.65, cap 1.00: 0.65 + 0.42 > 1.00
    let legs = vec![filled_leg(), killed_leg()];
    let (st, act) = resolve_outcomes(
        "tokA",
        "tokB",
        420,
        580,
        &legs,
        &book(Some((400, 5)), None),
        &book(None, Some((650, 5))),
        1000,
        10,
    );
    assert!(matches!(act, ResolverAction::Delay));
    match &st {
        ResolverState::UnwindPending { filled_token, shares } => {
            assert_eq!(filled_token, "tokA");
            assert_eq!(*shares, 10);
        },
        _ => panic!("expected the unwind-pending state"),
    }
    // after the delay: sell the filled leg at its bid, immediate-or-cancel
    let (st2, act2) = on_unwind_quote(st, &book(Some((400, 5)), None));
    assert!(matches!(st2, ResolverState::Done));
    match act2 {
        ResolverAction::SubmitUnwind(o) => {
            assert_eq!(o.token_id, "tokA");
            assert_eq!(o.side, Side::Sell);
            assert_eq!(o.price, 400);
            assert_eq!(o.size, 10);
            assert_eq!(o.tif, TimeInForce::ImmediateOrCancel);
        },
        _ => panic!("expected an unwind submission"),
    }
}

#[test]
fn missing_ask_goes_straight_to_unwind_path() {
    let legs = vec![filled_leg(), killed_leg()];
    let (st, act) = resolve_outcomes(
        "tokA",
        "tokB",
        420,
        580,
        &legs,
        &book(Some((400, 5)), None),
        &book(None, None),
        1000,
        10,
    );
    assert!(matches!(act, ResolverAction::Delay));
    assert!(matches!(st, ResolverState::UnwindPending { .. }));
}

#[test]
fn failed_refill_falls_back_to_unwind() {
    let st = ResolverState::RefillPending { filled_token: "tokA".to_string(), shares: 10 };
    let (st2, act2) = on_refill_result(st, false);
    assert!(matches!(act2, ResolverAction::Delay));
    assert!(matches!(st2, ResolverState::UnwindPending { .. }));
}

#[test]
fn unwind_price_floored_at_minimum() {
    let st = ResolverState::UnwindPending { filled_token: "tokA".to_string(), shares: 10 };
    let (_, act) = on_unwind_quote(st, &book(Some((0, 5)), None));
    match act {
        ResolverAction::SubmitUnwind(o) => assert_eq!(o.price, MIN_SELL_PRICE),
        _ => panic!("expected an unwind submission"),
    }
}

#[test]
fn unwind_without_bid_gives_up_quietly() {
    let st = ResolverState::UnwindPending { filled_token: "tokA".to_string(), shares: 10 };
    let (st2, act2) = on_unwind_quote(st, &book(None, None));
    assert!(matches!(st2, ResolverState::Done));
    assert!(matches!(act2, ResolverAction::NoAction));
}
