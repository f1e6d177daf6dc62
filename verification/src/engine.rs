//! One poll cycle of the tracking loop: for every tracked symbol, take
//! the outcome of its data fetch, run the decision rule, apply any
//! decision to that symbol's portfolio, and report what was traded.
//!
//! Fetching itself is I/O and happens outside the library; the cycle here
//! consumes one fetch outcome per entry, so each symbol's fate is a
//! function of its own entry and its own outcome alone — one symbol's
//! failed fetch can never disturb another's update.

use vstd::prelude::*;
use crate::registry::Registry;
use crate::registry::TrackedSymbol;
use crate::series::StockData;
use crate::series::closes_of;
use crate::simulator::apply_decision;
use crate::strategy::TradeDecision;
use crate::strategy::TradingStrategy;
use crate::strategy::decision_of;

verus! {

/// What fetching one symbol's data produced: a decoded series (possibly
/// empty, which covers upstream errors and malformed payloads), or a
/// transport-level failure.
pub enum FetchOutcome {
    Data(Vec<StockData>),
    FetchError,
}

/// One executed decision: the symbol, what was decided, and the
/// portfolio's mark-to-market balance right after the trade.
#[derive(Debug)]
pub struct TradeRecord {
    pub symbol: String,
    pub decision: TradeDecision,
    pub balance: u128,
}

/// Whether an entry trades this cycle: its fetch produced a non-empty
/// series long enough for the decision rule to fire.
pub open spec fn entry_trades(e: TrackedSymbol, o: FetchOutcome) -> bool {
    o matches FetchOutcome::Data(d) && d@.len() > 0 && decision_of(
        closes_of(d@),
        e.strategy.short(),
        e.strategy.long(),
    ) is Some
}

/// The `(cash, units)` of an entry's portfolio after the cycle: the
/// decision applied at the last close when the entry trades, and the
/// portfolio untouched otherwise.
pub open spec fn polled_portfolio(e: TrackedSymbol, o: FetchOutcome) -> (int, int) {
    if entry_trades(e, o) {
        let d = o->0;
        let dec = decision_of(closes_of(d@), e.strategy.short(), e.strategy.long())->0;
        apply_decision(e.simulator.cash(), e.simulator.units(), dec, d@.last().close as int)
    } else {
        (e.simulator.cash(), e.simulator.units())
    }
}

/// The `(symbol, decision, balance)` reported for an entry this cycle:
/// one record when it trades, none otherwise.
pub open spec fn polled_record(e: TrackedSymbol, o: FetchOutcome) -> Option<
    (Seq<char>, TradeDecision, int),
> {
    if entry_trades(e, o) {
        let d = o->0;
        let dec = decision_of(closes_of(d@), e.strategy.short(), e.strategy.long())->0;
        let price = d@.last().close as int;
        let after = apply_decision(e.simulator.cash(), e.simulator.units(), dec, price);
        Some((e.symbol@, dec, after.0 + after.1 * price))
    } else {
        None
    }
}

impl Registry {
    /// Runs one poll cycle over every tracked entry, given one fetch
    /// outcome per entry in registry order. Each entry's portfolio and
    /// report are exactly `polled_portfolio` and `polled_record` of that
    /// entry and its own outcome; symbols, strategies, configuration and
    /// order are untouched.
    pub fn run_poll_cycle(&mut self, outcomes: &Vec<FetchOutcome>) -> (records: Vec<
        Option<TradeRecord>,
    >)
        requires
            old(self).wf(),
            outcomes@.len() == old(self).entry_seq().len(),
        ensures
            final(self).wf(),
            old(self).same_config(*final(self)),
            final(self).entry_seq().len() == old(self).entry_seq().len(),
            forall|i: int|
                0 <= i < old(self).entry_seq().len() ==> {
                    &&& (#[trigger] final(self).entry_seq()[i]).symbol == old(self).entry_seq()[i].symbol
                    &&& final(self).entry_seq()[i].strategy == old(self).entry_seq()[i].strategy
                    &&& (final(self).entry_seq()[i].simulator.cash(),
                    final(self).entry_seq()[i].simulator.units()) == polled_portfolio(
                        old(self).entry_seq()[i],
                        outcomes@[i],
                    )
                },
            records@.len() == old(self).entry_seq().len(),
            forall|i: int|
                0 <= i < records@.len() ==> match polled_record(
                    old(self).entry_seq()[i],
                    outcomes@[i],
                ) {
                    Some(t) => {
                        &&& #[trigger] records@[i] matches Some(rec)
                        &&& rec.symbol@ == t.0
                        &&& rec.decision == t.1
                        &&& rec.balance == t.2
                    },
                    None => records@[i] is None,
                },
    {
        let ghost pre = *self;
        let mut records: Vec<Option<TradeRecord>> = Vec::new();
        let mut i: usize = 0;
        let n = self.entries_len();
        while i < n
            invariant
                pre.wf(),
                0 <= i <= n,
                n == pre.entry_seq().len(),
                outcomes@.len() == n,
                self.entry_seq().len() == n,
                pre.same_config(*self),
                forall|j: int| i <= j < n ==> self.entry_seq()[j] == pre.entry_seq()[j],
                forall|j: int|
                    0 <= j < i ==> {
                        &&& (#[trigger] self.entry_seq()[j]).symbol == pre.entry_seq()[j].symbol
                        &&& self.entry_seq()[j].strategy == pre.entry_seq()[j].strategy
                        &&& (self.entry_seq()[j].simulator.cash(),
                        self.entry_seq()[j].simulator.units()) == polled_portfolio(
                            pre.entry_seq()[j],
                            outcomes@[j],
                        )
                    },
                records@.len() == i,
                forall|j: int|
                    0 <= j < i ==> match polled_record(pre.entry_seq()[j], outcomes@[j]) {
                        Some(t) => {
                            &&& #[trigger] records@[j] matches Some(rec)
                            &&& rec.symbol@ == t.0
                            &&& rec.decision == t.1
                            &&& rec.balance == t.2
                        },
                        None => records@[j] is None,
                    },
            decreases n - i,
        {
            let mut record: Option<TradeRecord> = None;
            match &outcomes[i] {
                FetchOutcome::Data(d) => {
                    if d.len() > 0 {
                        proof {
                            assert(self.entry_seq()[i as int] == pre.entry_seq()[i as int]);
                            assert((pre.entry_seq()[i as int]).strategy.wf());
                        }
                        if let Some(dec) = self.entry_strategy(i).decide(d) {
                            let last_price = d[d.len() - 1].close;
                            self.entry_execute_trade(i, dec, last_price);
                            let balance = self.entry_balance(i, last_price);
                            record = Some(
                                TradeRecord {
                                    symbol: self.entry_symbol(i),
                                    decision: dec,
                                    balance,
                                },
                            );
                        }
                    }
                },
                FetchOutcome::FetchError => {},
            }
            records.push(record);
            i = i + 1;
        }
        proof {
            assert(self.symbols() =~= pre.symbols());
        }
        records
    }
}

/// Per-symbol isolation, failure side: a transport failure or an empty
/// or too-short series leaves that entry's portfolio untouched and
/// produces no record.
pub proof fn lemma_poll_skips_when_not_trading(e: TrackedSymbol, o: FetchOutcome)
    requires
        !entry_trades(e, o),
    ensures
        polled_portfolio(e, o) == (e.simulator.cash(), e.simulator.units()),
        polled_record(e, o) is None,
{
}

/// Per-symbol isolation, success side: an entry whose own fetch yields a
/// series with a decision is updated and reported, no matter what any
/// other entry's outcome was — its fate is a function of its own entry
/// and outcome alone.
pub proof fn lemma_poll_applies_when_trading(e: TrackedSymbol, d: Vec<StockData>)
    requires
        d@.len() > 0,
        decision_of(closes_of(d@), e.strategy.short(), e.strategy.long()) is Some,
    ensures
        ({
            let dec = decision_of(closes_of(d@), e.strategy.short(), e.strategy.long())->0;
            let price = d@.last().close as int;
            &&& polled_portfolio(e, FetchOutcome::Data(d)) == apply_decision(
                e.simulator.cash(),
                e.simulator.units(),
                dec,
                price,
            )
            &&& polled_record(e, FetchOutcome::Data(d)) is Some
        }),
{
}

/// An empty series yields no decision, no portfolio change, and no
/// record.
pub proof fn lemma_empty_series_no_action(e: TrackedSymbol, d: Vec<StockData>)
    requires
        d@.len() == 0,
    ensures
        polled_portfolio(e, FetchOutcome::Data(d)) == (e.simulator.cash(), e.simulator.units()),
        polled_record(e, FetchOutcome::Data(d)) is None,
{
}

} // verus!
