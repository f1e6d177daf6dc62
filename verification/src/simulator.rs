//! The simulated per-symbol portfolio: a cash/position ledger that applies
//! trade decisions at a given price. Cash is held in integer cents and the
//! position in whole units, so every update is exact.

use vstd::prelude::*;
use crate::strategy::TradeDecision;

verus! {

/// What one decision does to a `(cash, position)` pair at a given price.
///
/// * `Buy` at a positive price converts as much cash as the price divides
///   into position units; the indivisible remainder stays as cash. A zero
///   price is never divided into: the trade is a no-op.
/// * `Sell` converts the entire position back into cash at the price.
/// * `Hold` changes nothing.
///
/// A trade whose result would not fit in the 64-bit ledger is skipped
/// entirely rather than applied partially.
pub open spec fn apply_decision(cash: int, position: int, decision: TradeDecision, price: int) -> (
    int,
    int,
) {
    match decision {
        TradeDecision::Buy => {
            if price > 0 && position + cash / price <= u64::MAX {
                (cash % price, position + cash / price)
            } else {
                (cash, position)
            }
        },
        TradeDecision::Sell => {
            if position > 0 && cash + position * price <= u64::MAX {
                (cash + position * price, 0)
            } else {
                (cash, position)
            }
        },
        TradeDecision::Hold => (cash, position),
    }
}

/// The per-symbol portfolio ledger.
pub struct Simulator {
    balance: u64,
    position: u64,
}

impl Simulator {
    /// Cash balance, in cents.
    pub closed spec fn cash(self) -> int {
        self.balance as int
    }

    /// Held position, in whole units.
    pub closed spec fn units(self) -> int {
        self.position as int
    }

    pub fn new(balance: u64) -> (s: Self)
        ensures
            s.cash() == balance,
            s.units() == 0,
    {
        Self { balance, position: 0 }
    }

    /// Applies one decision at the given price, exactly as `apply_decision`
    /// describes.
    pub fn execute_trade(&mut self, decision: TradeDecision, price: u64)
        ensures
            (final(self).cash(), final(self).units()) == apply_decision(
                old(self).cash(),
                old(self).units(),
                decision,
                price as int,
            ),
    {
        match decision {
            TradeDecision::Buy => {
                if price > 0 {
                    let amount = self.balance / price;
                    if amount <= u64::MAX - self.position {
                        self.position = self.position + amount;
                        self.balance = self.balance % price;
                    }
                }
            },
            TradeDecision::Sell => {
                if self.position > 0 {
                    proof {
                        vstd::arithmetic::mul::lemma_mul_upper_bound(
                            self.position as int,
                            u64::MAX as int,
                            price as int,
                            u64::MAX as int,
                        );
                    }
                    let proceeds: u128 = (self.position as u128) * (price as u128);
                    if proceeds <= (u64::MAX - self.balance) as u128 {
                        self.balance = self.balance + (proceeds as u64);
                        self.position = 0;
                    }
                }
            },
            TradeDecision::Hold => {},
        }
    }

    /// The cash balance, in cents.
    pub fn cash_cents(&self) -> (c: u64)
        ensures
            c == self.cash(),
    {
        self.balance
    }

    /// The held position, in whole units.
    pub fn position_units(&self) -> (p: u64)
        ensures
            p == self.units(),
    {
        self.position
    }

    /// Mark-to-market value of the portfolio at the given price:
    /// cash plus the position valued at that price.
    pub fn get_balance(&self, current_price: u64) -> (value: u128)
        ensures
            value == self.cash() + self.units() * current_price,
    {
        proof {
            vstd::arithmetic::mul::lemma_mul_upper_bound(
                self.position as int,
                u64::MAX as int,
                current_price as int,
                u64::MAX as int,
            );
        }
        (self.balance as u128) + (self.position as u128) * (current_price as u128)
    }
}

/// Folds `apply_decision` over a sequence of `(decision, price)` pairs.
pub open spec fn apply_all(cash: int, position: int, trades: Seq<(TradeDecision, int)>) -> (
    int,
    int,
)
    decreases trades.len(),
{
    if trades.len() == 0 {
        (cash, position)
    } else {
        let stepped = apply_decision(cash, position, trades[0].0, trades[0].1);
        apply_all(stepped.0, stepped.1, trades.drop_first())
    }
}

/// One applied decision at a nonnegative price keeps both cash and
/// position nonnegative.
pub proof fn lemma_apply_decision_nonnegative(
    cash: int,
    position: int,
    decision: TradeDecision,
    price: int,
)
    requires
        cash >= 0,
        position >= 0,
        price >= 0,
    ensures
        apply_decision(cash, position, decision, price).0 >= 0,
        apply_decision(cash, position, decision, price).1 >= 0,
{
    match decision {
        TradeDecision::Buy => {
            if price > 0 && position + cash / price <= u64::MAX {
                vstd::arithmetic::div_mod::lemma_mod_bound(cash, price);
                vstd::arithmetic::div_mod::lemma_div_pos_is_pos(cash, price);
            }
        },
        TradeDecision::Sell => {
            if position > 0 && cash + position * price <= u64::MAX {
                vstd::arithmetic::mul::lemma_mul_nonnegative(position, price);
            }
        },
        TradeDecision::Hold => {},
    }
}

/// Portfolio invariant: starting from nonnegative cash and a nonnegative
/// position, any sequence of applied decisions at nonnegative prices
/// leaves both cash and position nonnegative.
pub proof fn lemma_portfolio_invariant(cash: int, position: int, trades: Seq<(TradeDecision, int)>)
    requires
        cash >= 0,
        position >= 0,
        forall|i: int| 0 <= i < trades.len() ==> #[trigger] trades[i].1 >= 0,
    ensures
        apply_all(cash, position, trades).0 >= 0,
        apply_all(cash, position, trades).1 >= 0,
    decreases trades.len(),
{
    if trades.len() > 0 {
        lemma_apply_decision_nonnegative(cash, position, trades[0].0, trades[0].1);
        let stepped = apply_decision(cash, position, trades[0].0, trades[0].1);
        lemma_portfolio_invariant(stepped.0, stepped.1, trades.drop_first());
    }
}

/// Idempotence of `Hold`: applying it never changes cash or position.
pub proof fn lemma_hold_is_noop(cash: int, position: int, price: int)
    ensures
        apply_decision(cash, position, TradeDecision::Hold, price) == (cash, position),
{
}

/// Round trip: from a flat portfolio, a `Buy` followed by a `Sell` at the
/// same price restores the original cash exactly, with the position back
/// at zero.
pub proof fn lemma_buy_sell_round_trip(cash: u64, price: u64)
    ensures
        ({
            let bought = apply_decision(cash as int, 0, TradeDecision::Buy, price as int);
            let sold = apply_decision(bought.0, bought.1, TradeDecision::Sell, price as int);
            sold == (cash as int, 0int)
        }),
{
    if price > 0 {
        let c = cash as int;
        let p = price as int;
        let units = c / p;
        let rest = c % p;
        vstd::arithmetic::div_mod::lemma_fundamental_div_mod(c, p);
        vstd::arithmetic::div_mod::lemma_mod_bound(c, p);
        vstd::arithmetic::div_mod::lemma_div_pos_is_pos(c, p);
        vstd::arithmetic::div_mod::lemma_div_nonincreasing(c, p);
        vstd::arithmetic::mul::lemma_mul_is_commutative(p, units);
        vstd::arithmetic::mul::lemma_mul_by_zero_is_zero(p);
        assert(rest + units * p == c);
    }
}

} // verus!
