//! Risk gate: pre-trade admission check plus post-fill bookkeeping of
//! realized profit/loss and per-token inventory.

use vstd::prelude::*;

verus! {

/// Running risk ledger: realized profit/loss and signed inventory per token.
///
/// The inventory is an association list keyed by token id; a token with no
/// entry holds position zero. Entries are created lazily on the first fill
/// and never removed: zero is a valid steady state, not an absence. The
/// ledger is global across symbols and must be mutated only through
/// [`RiskState::apply_fill`] and [`RiskState::apply_pnl`], exactly once per
/// confirmed fill or realized profit/loss event.
pub struct RiskState {
    pub realized_pnl: i64,
    pub inventory: Vec<(String, i64)>,
}

/// Immutable per-run risk configuration: the daily-loss threshold (a
/// positive bound on accumulated losses) and the per-token ceiling on
/// absolute inventory.
pub struct RiskLimits {
    pub max_daily_loss: i64,
    pub max_inventory_per_token: i64,
}

impl RiskLimits {
    /// Both limits are non-negative bounds.
    pub open spec fn wf(&self) -> bool {
        self.max_daily_loss >= 0 && self.max_inventory_per_token >= 0
    }
}

/// Position of `tok` in an inventory association list: the value of the
/// first entry whose key reads `tok`, or zero when no entry carries it.
pub open spec fn position_of(inv: Seq<(String, i64)>, tok: Seq<char>) -> int
    decreases inv.len(),
{
    if inv.len() == 0 {
        0
    } else if inv[0].0@ == tok {
        inv[0].1 as int
    } else {
        position_of(inv.drop_first(), tok)
    }
}

/// Effect of one fill on the inventory model: add `delta` to the position
/// held under `tok`, leaving every other token's position unchanged.
pub open spec fn spec_fill(m: Map<Seq<char>, int>, tok: Seq<char>, delta: int) -> Map<
    Seq<char>,
    int,
> {
    m.insert(tok, m[tok] + delta)
}

impl RiskState {
    /// The inventory as a total mapping from token id to signed position.
    pub open spec fn inv_map(&self) -> Map<Seq<char>, int> {
        Map::new(|t: Seq<char>| true, |t: Seq<char>| position_of(self.inventory@, t))
    }

    /// A ledger that has recorded nothing: zero profit/loss, all positions
    /// zero.
    pub fn new() -> (r: RiskState)
        ensures
            r.realized_pnl == 0,
            forall|t: Seq<char>| r.inv_map()[t] == 0,
    {
        RiskState { realized_pnl: 0, inventory: Vec::new() }
    }

    /// Current signed position for `token` (zero when never filled).
    pub fn position(&self, token: &str) -> (r: i64)
        ensures
            r as int == self.inv_map()[token@],
    {
        let tok: String = token.to_owned();
        let n = self.inventory.len();
        let mut i: usize = 0;
        proof {
            assert(self.inventory@.skip(0) =~= self.inventory@);
        }
        while i < n
            invariant
                i <= n,
                n == self.inventory@.len(),
                tok@ == token@,
                position_of(self.inventory@, token@) == position_of(
                    self.inventory@.skip(i as int),
                    token@,
                ),
            decreases n - i,
        {
            proof {
                assert(self.inventory@.skip(i as int)[0] == self.inventory@[i as int]);
            }
            if self.inventory[i].0 == tok {
                return self.inventory[i].1;
            }
            proof {
                assert(self.inventory@.skip(i as int).drop_first() =~= self.inventory@.skip(
                    i as int + 1,
                ));
            }
            i = i + 1;
        }
        0
    }

    /// Pre-trade admission check for a token pair. Trading is admitted only
    /// while the realized loss has not reached the daily-loss threshold (a
    /// one-way kill switch until the profit/loss is externally reset) and
    /// the absolute inventory of each leg's token is within the per-token
    /// ceiling. Pure: reads the state, changes nothing.
    ///
    /// Law: the result is `false` if and only if
    /// `realized_pnl <= -max_daily_loss`, or either token's absolute
    /// position exceeds `max_inventory_per_token`.
    pub fn can_trade(&self, limits: &RiskLimits, token_a: &str, token_b: &str) -> (r: bool)
        requires
            limits.wf(),
        ensures
            r == (self.realized_pnl > -(limits.max_daily_loss as int)
                && vstd::math::abs(self.inv_map()[token_a@]) <= limits.max_inventory_per_token
                && vstd::math::abs(self.inv_map()[token_b@]) <= limits.max_inventory_per_token),
    {
        if self.realized_pnl <= -limits.max_daily_loss {
            return false;
        }
        let ia = self.position(token_a);
        let ib = self.position(token_b);
        ia >= -limits.max_inventory_per_token && ia <= limits.max_inventory_per_token && ib
            >= -limits.max_inventory_per_token && ib <= limits.max_inventory_per_token
    }

    /// Record one confirmed fill: add the signed quantity `delta` (positive
    /// for a buy fill, negative for a sell fill) to `token`'s inventory
    /// entry, creating the entry if absent. Must be called exactly once per
    /// confirmed fill. The realized profit/loss is untouched.
    pub fn apply_fill(&mut self, token: &str, delta: i64)
        requires
            i64::MIN <= old(self).inv_map()[token@] + delta <= i64::MAX,
        ensures
            final(self).realized_pnl == old(self).realized_pnl,
            final(self).inv_map() == spec_fill(old(self).inv_map(), token@, delta as int),
    {
        let ghost m0 = self.inv_map();
        let ghost m1 = spec_fill(m0, token@, delta as int);
        let tok: String = token.to_owned();
        let n = self.inventory.len();
        let mut i: usize = 0;
        proof {
            assert(self.inventory@.skip(0) =~= self.inventory@);
        }
        while i < n
            invariant
                i <= n,
                n == self.inventory@.len(),
                tok@ == token@,
                *self == *old(self),
                m0 == self.inv_map(),
                m1 == spec_fill(m0, token@, delta as int),
                i64::MIN <= m0[token@] + delta <= i64::MAX,
                forall|j: int| 0 <= j < i ==> self.inventory@[j].0@ != token@,
                position_of(self.inventory@, token@) == position_of(
                    self.inventory@.skip(i as int),
                    token@,
                ),
            decreases n - i,
        {
            proof {
                assert(self.inventory@.skip(i as int)[0] == self.inventory@[i as int]);
            }
            if self.inventory[i].0 == tok {
                let ghost s0 = self.inventory@;
                let cur = self.inventory[i].1;
                proof {
                    assert(position_of(s0, token@) == cur as int);
                    assert(m0[token@] == cur as int);
                }
                self.inventory[i] = (tok, cur + delta);
                proof {
                    let e = self.inventory@[i as int];
                    assert(self.inventory@ =~= s0.update(i as int, e));
                    assert forall|t: Seq<char>| self.inv_map()[t] == m1[t] by {
                        lemma_position_of_update(s0, i as int, e, t);
                    }
                    assert(self.inv_map() =~= m1);
                }
                return ;
            }
            proof {
                assert(self.inventory@.skip(i as int).drop_first() =~= self.inventory@.skip(
                    i as int + 1,
                ));
            }
            i = i + 1;
        }
        let ghost s0 = self.inventory@;
        proof {
            assert(self.inventory@.skip(n as int) =~= Seq::<(String, i64)>::empty());
            assert(position_of(s0, token@) == 0);
            assert(m0[token@] == 0);
        }
        self.inventory.push((tok, delta));
        proof {
            let e = self.inventory@.last();
            assert(self.inventory@ =~= s0.push(e));
            assert forall|t: Seq<char>| self.inv_map()[t] == m1[t] by {
                lemma_position_of_push(s0, e, t);
            }
            assert(self.inv_map() =~= m1);
        }
    }

    /// Record a realized profit/loss delta (a closed position or a recovery
    /// action that resolved at a different price than planned). The
    /// inventory is untouched.
    pub fn apply_pnl(&mut self, pnl: i64)
        requires
            i64::MIN <= old(self).realized_pnl + pnl <= i64::MAX,
        ensures
            final(self).realized_pnl == old(self).realized_pnl + pnl,
            final(self).inventory == old(self).inventory,
    {
        self.realized_pnl = self.realized_pnl + pnl;
    }
}

impl Default for RiskState {
    /// Same as [`RiskState::new`]: a ledger that has recorded nothing.
    fn default() -> (r: RiskState)
        ensures
            r.realized_pnl == 0,
            forall|t: Seq<char>| r.inv_map()[t] == 0,
    {
        RiskState::new()
    }
}

/// Updating the first entry that carries a key changes that key's position
/// to the entry's value and no other key's position.
proof fn lemma_position_of_update(s: Seq<(String, i64)>, i: int, e: (String, i64), t: Seq<char>)
    requires
        0 <= i < s.len(),
        forall|j: int| 0 <= j < i ==> s[j].0@ != e.0@,
        s[i].0@ == e.0@,
    ensures
        position_of(s.update(i, e), t) == if t == e.0@ {
            e.1 as int
        } else {
            position_of(s, t)
        },
    decreases i,
{
    assert(s.update(i, e)[0] == if i == 0 {
        e
    } else {
        s[0]
    });
    if i == 0 {
        if t != e.0@ {
            assert(s.update(0, e).drop_first() =~= s.drop_first());
        }
    } else {
        lemma_position_of_update(s.drop_first(), i - 1, e, t);
        assert(s.update(i, e).drop_first() =~= s.drop_first().update(i - 1, e));
    }
}

/// Appending an entry under a key that no entry carries yet gives that key
/// the entry's value and leaves every other key's position unchanged.
proof fn lemma_position_of_push(s: Seq<(String, i64)>, e: (String, i64), t: Seq<char>)
    requires
        forall|j: int| 0 <= j < s.len() ==> s[j].0@ != e.0@,
    ensures
        position_of(s.push(e), t) == if t == e.0@ {
            e.1 as int
        } else {
            position_of(s, t)
        },
    decreases s.len(),
{
    if s.len() == 0 {
        assert(s.push(e)[0] == e);
        assert(s.push(e).drop_first() =~= Seq::<(String, i64)>::empty());
        assert(position_of(Seq::<(String, i64)>::empty(), t) == 0);
    } else {
        lemma_position_of_push(s.drop_first(), e, t);
        assert(s.push(e)[0] == s[0]);
        assert(s.push(e).drop_first() =~= s.drop_first().push(e));
    }
}

/// Law: fills are additive and commutative across calls on the same token;
/// applying deltas `d1` then `d2` yields the same inventory as `d2` then
/// `d1`.
pub proof fn lemma_apply_fill_commutative(m: Map<Seq<char>, int>, tok: Seq<char>, d1: int, d2: int)
    ensures
        spec_fill(spec_fill(m, tok, d1), tok, d2) == spec_fill(spec_fill(m, tok, d2), tok, d1),
{
    assert(spec_fill(spec_fill(m, tok, d1), tok, d2) =~= spec_fill(
        spec_fill(m, tok, d2),
        tok,
        d1,
    ));
}

/// Law: applying `+x` then `-x` to the same token returns the inventory to
/// its prior value.
pub proof fn lemma_apply_fill_round_trip(m: Map<Seq<char>, int>, tok: Seq<char>, x: int)
    requires
        m.dom().contains(tok),
    ensures
        spec_fill(spec_fill(m, tok, x), tok, -x) == m,
{
    assert(spec_fill(spec_fill(m, tok, x), tok, -x) =~= m);
}

} // verus!
