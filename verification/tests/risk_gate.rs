use pair_exec::risk::{RiskLimits, RiskState};

fn limits(loss: i64, inv: i64) -> RiskLimits {
    RiskLimits { max_daily_loss: loss, max_inventory_per_token: inv }
}

#[test]
fn fresh_state_trades() {
    let s = RiskState::new();
    assert!(s.can_trade(&limits(1000, 100), "tokA", "tokB"));
    assert_eq!(s.position("tokA"), 0);
}

#[test]
fn daily_loss_kill_switch() {
    let mut s = RiskState::new();
    s.apply_pnl(-999);
    assert!(s.can_trade(&limits(1000, 100), "tokA", "tokB"));
    s.apply_pnl(-1);
    // realized_pnl == -max_daily_loss: trading halts.
    assert!(!s.can_trade(&limits(1000, 100), "tokA", "tokB"));
    s.apply_pnl(-5);
    assert!(!s.can_trade(&limits(1000, 100), "tokA", "tokB"));
}

#[test]
fn inventory_ceiling_blocks_either_leg() {
    let mut s = RiskState::new();
    s.apply_fill("tokA", 100);
    // at the ceiling is still admissible
    assert!(s.can_trade(&limits(1000, 100), "tokA", "tokB"));
    s.apply_fill("tokA", 1);
    assert!(!s.can_trade(&limits(1000, 100), "tokA", "tokB"));
    // the breach blocks the pair whichever leg carries it
    assert!(!s.can_trade(&limits(1000, 100), "tokB", "tokA"));
    // but an unrelated pair still trades
    assert!(s.can_trade(&limits(1000, 100), "tokC", "tokD"));
}

#[test]
fn negative_inventory_counts_absolutely() {
    let mut s = RiskState::new();
    s.apply_fill("tokA", -101);
    assert!(!s.can_trade(&limits(1000, 100), "tokA", "tokB"));
}

#[test]
fn apply_fill_accumulates_per_token() {
    let mut s = RiskState::new();
    s.apply_fill("tokA", 7);
    s.apply_fill("tokB", -3);
    s.apply_fill("tokA", 5);
    assert_eq!(s.position("tokA"), 12);
    assert_eq!(s.position("tokB"), -3);
    assert_eq!(s.position("tokC"), 0);
    assert_eq!(s.realized_pnl, 0);
}

#[test]
fn apply_fill_commutes() {
    let mut s1 = RiskState::new();
    s1.apply_fill("tokA", 4);
    s1.apply_fill("tokA", -9);
    let mut s2 = RiskState::new();
    s2.apply_fill("tokA", -9);
    s2.apply_fill("tokA", 4);
    assert_eq!(s1.position("tokA"), s2.position("tokA"));
    assert_eq!(s1.position("tokA"), -5);
}

#[test]
fn apply_fill_round_trip() {
    let mut s = RiskState::new();
    s.apply_fill("tokA", 3);
    let before = s.position("tokA");
    s.apply_fill("tokA", 11);
    s.apply_fill("tokA", -11);
    assert_eq!(s.position("tokA"), before);
}

#[test]
fn apply_pnl_accumulates() {
    let mut s = RiskState::new();
    s.apply_pnl(250);
    s.apply_pnl(-100);
    assert_eq!(s.realized_pnl, 150);
    assert_eq!(s.position("tokA"), 0);
}
