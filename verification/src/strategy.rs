//! The moving-average crossover decision rule.

use vstd::prelude::*;
use crate::series::StockData;
use crate::series::closes_of;

verus! {

/// Sum of a sequence of prices.
pub open spec fn sum_seq(s: Seq<u64>) -> int
    decreases s.len(),
{
    if s.len() == 0 {
        0
    } else {
        sum_seq(s.drop_last()) + s.last()
    }
}

/// Sum of the last `w` elements of `s`.
pub open spec fn trailing_sum(s: Seq<u64>, w: int) -> int {
    sum_seq(s.subrange(s.len() - w, s.len() as int))
}

/// The crossover decision for a series of closes under window sizes
/// `short <= long`.
///
/// The moving average of window `w` over the series is the sequence of
/// means of each `w`-wide sliding window; its last value is the mean of
/// the last `w` closes, `trailing_sum(closes, w) / w`. The rule compares
/// the last short-window mean with the last long-window mean; multiplying
/// both sides by `short * long` makes the comparison exact over the
/// integers:
/// `trailing_sum(s, short) / short <> trailing_sum(s, long) / long`
/// holds precisely when
/// `trailing_sum(s, short) * long <> trailing_sum(s, long) * short`.
///
/// A series shorter than the long window yields no decision; otherwise a
/// higher short mean means `Buy`, a lower one `Sell`, and equal means
/// `Hold`.
pub open spec fn decision_of(closes: Seq<u64>, short: int, long: int) -> Option<TradeDecision> {
    if closes.len() < long {
        None
    } else {
        let short_scaled = trailing_sum(closes, short) * long;
        let long_scaled = trailing_sum(closes, long) * short;
        if short_scaled > long_scaled {
            Some(TradeDecision::Buy)
        } else if short_scaled < long_scaled {
            Some(TradeDecision::Sell)
        } else {
            Some(TradeDecision::Hold)
        }
    }
}

/// The three possible outcomes of a trading decision.
#[derive(Debug, Clone, Copy, PartialEq, Eq, Structural)]
pub enum TradeDecision {
    Buy,
    Sell,
    Hold,
}

/// A trading strategy: a pure rule from a price series to an optional
/// decision. Each implementor names its own well-formedness condition
/// and the decision it computes, and `decide` must return exactly that.
pub trait TradingStrategy {
    /// When the strategy's configuration is usable.
    spec fn strategy_wf(&self) -> bool;

    /// The decision the strategy owes for a series of closes.
    spec fn strategy_decision(&self, closes: Seq<u64>) -> Option<TradeDecision>;

    /// Computes the owed decision for the series.
    fn decide(&self, data: &Vec<StockData>) -> (r: Option<TradeDecision>)
        requires
            self.strategy_wf(),
        ensures
            r == self.strategy_decision(closes_of(data@)),
    ;
}

/// Largest window size the strategy accepts; keeps every intermediate
/// product of the crossover comparison within `u128`.
pub const MAX_WINDOW: usize = 0x8000_0000;

/// A stateless crossover strategy, parameterized by its two window sizes.
pub struct MovingAverageStrategy {
    short_window: usize,
    long_window: usize,
}

impl MovingAverageStrategy {
    /// Well-formed window configuration: both windows positive, the short
    /// one no longer than the long one, and both small enough that the
    /// crossover arithmetic cannot overflow.
    pub closed spec fn wf(self) -> bool {
        1 <= self.short_window <= self.long_window <= MAX_WINDOW
    }

    pub closed spec fn short(self) -> int {
        self.short_window as int
    }

    pub closed spec fn long(self) -> int {
        self.long_window as int
    }

    pub fn new(short_window: usize, long_window: usize) -> (s: Self)
        requires
            1 <= short_window <= long_window <= MAX_WINDOW,
        ensures
            s.wf(),
            s.short() == short_window,
            s.long() == long_window,
    {
        Self { short_window, long_window }
    }
}

impl TradingStrategy for MovingAverageStrategy {
    open spec fn strategy_wf(&self) -> bool {
        self.wf()
    }

    open spec fn strategy_decision(&self, closes: Seq<u64>) -> Option<TradeDecision> {
        decision_of(closes, self.short(), self.long())
    }

    /// The crossover decision for this series: exactly `decision_of` on
    /// the series' close prices.
    fn decide(&self, data: &Vec<StockData>) -> (r: Option<TradeDecision>) {
        let ghost closes = closes_of(data@);
        if data.len() < self.long_window {
            return None;
        }
        let len = data.len();
        let start_long = len - self.long_window;
        let start_short = len - self.short_window;
        let mut sum_long: u128 = 0;
        let mut sum_short: u128 = 0;
        let mut i = start_long;
        while i < len
            invariant
                closes == closes_of(data@),
                closes.len() == len,
                len == data.len(),
                start_long <= i <= len,
                start_long == len - self.long_window,
                start_short == len - self.short_window,
                self.wf(),
                self.long() == self.long_window,
                self.short() == self.short_window,
                sum_long == sum_seq(closes.subrange(start_long as int, i as int)),
                i <= start_short ==> sum_short == 0,
                i >= start_short ==> sum_short == sum_seq(
                    closes.subrange(start_short as int, i as int),
                ),
                sum_short <= sum_long,
                sum_long <= (i - start_long) * (u64::MAX as int),
            decreases len - i,
        {
            let c = data[i].close;
            proof {
                assert(closes.subrange(start_long as int, i + 1).drop_last() =~= closes.subrange(
                    start_long as int,
                    i as int,
                ));
                assert(closes.subrange(start_long as int, i + 1).last() == closes[i as int]);
                if i >= start_short {
                    assert(closes.subrange(start_short as int, i + 1).drop_last()
                        =~= closes.subrange(start_short as int, i as int));
                    assert(closes.subrange(start_short as int, i + 1).last() == closes[i as int]);
                } else if i + 1 == start_short {
                    assert(closes.subrange(start_short as int, start_short as int) =~= Seq::<
                        u64,
                    >::empty());
                }
            }
            sum_long = sum_long + c as u128;
            if i >= start_short {
                sum_short = sum_short + c as u128;
            }
            i = i + 1;
        }
        proof {
            assert(closes.subrange(start_long as int, len as int) =~= closes.subrange(
                closes.len() - self.long(),
                closes.len() as int,
            ));
            assert(closes.subrange(start_short as int, len as int) =~= closes.subrange(
                closes.len() - self.short(),
                closes.len() as int,
            ));
            let bound = (MAX_WINDOW as int) * (u64::MAX as int);
            vstd::arithmetic::mul::lemma_mul_upper_bound(
                sum_long as int,
                bound,
                self.short(),
                MAX_WINDOW as int,
            );
            vstd::arithmetic::mul::lemma_mul_upper_bound(
                sum_short as int,
                bound,
                self.long(),
                MAX_WINDOW as int,
            );
        }
        let short_scaled: u128 = sum_short * (self.long_window as u128);
        let long_scaled: u128 = sum_long * (self.short_window as u128);
        if short_scaled > long_scaled {
            Some(TradeDecision::Buy)
        } else if short_scaled < long_scaled {
            Some(TradeDecision::Sell)
        } else {
            Some(TradeDecision::Hold)
        }
    }
}

/// The numerator of the sliding moving average at window position `i`:
/// the sum of the `w` closes starting there. The moving-average sequence
/// of window `w` is this divided by `w`, for `i` in
/// `0 ..= closes.len() - w`.
pub open spec fn window_sum(closes: Seq<u64>, i: int, w: int) -> int {
    sum_seq(closes.subrange(i, i + w))
}

/// The last value of the sliding moving-average sequence is the trailing
/// mean: its window is exactly the last `w` closes.
pub proof fn lemma_last_window_is_trailing(closes: Seq<u64>, w: int)
    requires
        1 <= w <= closes.len(),
    ensures
        window_sum(closes, closes.len() - w, w) == trailing_sum(closes, w),
{
    assert(closes.subrange(closes.len() - w, closes.len() - w + w) =~= closes.subrange(
        closes.len() - w,
        closes.len() as int,
    ));
}

/// Insufficient history: whenever the series is shorter than the long
/// window, the rule yields no decision, for every window pair with
/// `short <= long`.
pub proof fn lemma_short_series_no_decision(closes: Seq<u64>, short: int, long: int)
    requires
        short <= long,
        closes.len() < long,
    ensures
        decision_of(closes, short, long) is None,
{
}

/// Sufficient history: whenever the series is at least as long as the
/// long window, the rule yields exactly one decision, and which one is
/// determined by how the last short-window mean compares with the last
/// long-window mean (compared exactly, by cross-multiplication).
pub proof fn lemma_decision_matches_crossover(closes: Seq<u64>, short: int, long: int)
    requires
        1 <= short <= long <= closes.len(),
    ensures
        ({
            let d = decision_of(closes, short, long);
            let short_scaled = trailing_sum(closes, short) * long;
            let long_scaled = trailing_sum(closes, long) * short;
            &&& d is Some
            &&& (d == Some(TradeDecision::Buy) <==> short_scaled > long_scaled)
            &&& (d == Some(TradeDecision::Sell) <==> short_scaled < long_scaled)
            &&& (d == Some(TradeDecision::Hold) <==> short_scaled == long_scaled)
        }),
{
}

} // verus!
