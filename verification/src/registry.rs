//! The registry of tracked symbols and the command state machine that
//! mutates it. Each tracked symbol owns its simulated portfolio and its
//! strategy; the registry is mutated only by the commands below, applied
//! one at a time.

use vstd::prelude::*;
use crate::simulator::Simulator;
use crate::strategy::MAX_WINDOW;
use crate::strategy::MovingAverageStrategy;
use crate::strategy::TradeDecision;

verus! {

/// One tracked symbol: its name, its simulated portfolio, and its
/// strategy configuration.
pub struct TrackedSymbol {
    pub symbol: String,
    pub simulator: Simulator,
    pub strategy: MovingAverageStrategy,
}

/// A control request for the tracking loop.
pub enum Command {
    AddStock(String),
    RemoveStock(String),
    List,
    Exit,
}

/// What handling one command produced.
pub enum CommandOutcome {
    /// The symbol was not tracked and has been added.
    Added,
    /// The symbol was already tracked; the registry is unchanged.
    AlreadyTracked,
    /// The symbol was tracked and has been removed.
    Removed,
    /// The symbol was not tracked; the registry is unchanged.
    NotTracked,
    /// The tracked symbols, in insertion order.
    Listing(Vec<String>),
    /// The loop should stop accepting further work.
    Exiting,
}

/// The mapping from symbol to tracked state, plus the fixed configuration
/// every fresh entry starts from.
pub struct Registry {
    entries: Vec<TrackedSymbol>,
    starting_cash: u64,
    short_window: usize,
    long_window: usize,
}

impl Registry {
    /// The tracked entries, in insertion order.
    pub closed spec fn entry_seq(self) -> Seq<TrackedSymbol> {
        self.entries@
    }

    /// The tracked symbol names, in insertion order.
    pub open spec fn symbols(self) -> Seq<Seq<char>> {
        self.entry_seq().map(|i: int, e: TrackedSymbol| e.symbol@)
    }

    pub open spec fn tracks(self, sym: Seq<char>) -> bool {
        self.symbols().contains(sym)
    }

    /// Cash every fresh entry starts with, in cents.
    pub closed spec fn cash_config(self) -> int {
        self.starting_cash as int
    }

    /// Short window every fresh entry's strategy uses.
    pub closed spec fn short_config(self) -> int {
        self.short_window as int
    }

    /// Long window every fresh entry's strategy uses.
    pub closed spec fn long_config(self) -> int {
        self.long_window as int
    }

    pub open spec fn same_config(self, other: Registry) -> bool {
        &&& self.cash_config() == other.cash_config()
        &&& self.short_config() == other.short_config()
        &&& self.long_config() == other.long_config()
    }

    /// Well-formed registry: no symbol tracked twice, a valid window
    /// configuration, and every entry's strategy carrying exactly the
    /// configured windows.
    pub open spec fn wf(self) -> bool {
        &&& (forall|i: int, j: int|
            0 <= i < j < self.symbols().len() ==> self.symbols()[i] != self.symbols()[j])
        &&& 1 <= self.short_config() <= self.long_config() <= MAX_WINDOW
        &&& (forall|i: int|
            0 <= i < self.entry_seq().len() ==> {
                &&& (#[trigger] self.entry_seq()[i]).strategy.wf()
                &&& self.entry_seq()[i].strategy.short() == self.short_config()
                &&& self.entry_seq()[i].strategy.long() == self.long_config()
            })
    }

    /// What the entry created for a newly added symbol looks like: the
    /// symbol itself, a portfolio of the configured starting cash and no
    /// position, and a strategy with the configured windows.
    pub open spec fn fresh_entry(self, e: TrackedSymbol, sym: Seq<char>) -> bool {
        &&& e.symbol@ == sym
        &&& e.simulator.cash() == self.cash_config()
        &&& e.simulator.units() == 0
        &&& e.strategy.short() == self.short_config()
        &&& e.strategy.long() == self.long_config()
    }

    /// How an `AddStock` command takes `pre` to `post`: a no-op when the
    /// symbol is already tracked, otherwise one fresh entry appended.
    pub open spec fn add_transition(pre: Registry, post: Registry, sym: Seq<char>) -> bool {
        &&& pre.same_config(post)
        &&& if pre.tracks(sym) {
            post.entry_seq() == pre.entry_seq()
        } else {
            &&& post.entry_seq().len() == pre.entry_seq().len() + 1
            &&& post.entry_seq().drop_last() == pre.entry_seq()
            &&& pre.fresh_entry(post.entry_seq().last(), sym)
        }
    }

    /// How a `RemoveStock` command takes `pre` to `post`: a no-op when the
    /// symbol is not tracked, otherwise exactly its entry deleted.
    pub open spec fn remove_transition(pre: Registry, post: Registry, sym: Seq<char>) -> bool {
        &&& pre.same_config(post)
        &&& if pre.tracks(sym) {
            exists|i: int|
                {
                    &&& 0 <= i < pre.entry_seq().len()
                    &&& pre.symbols()[i] == sym
                    &&& post.entry_seq() == pre.entry_seq().remove(i)
                }
        } else {
            post.entry_seq() == pre.entry_seq()
        }
    }

    /// An empty registry with the given starting cash (in cents) and
    /// window configuration for every symbol added later.
    pub fn new(starting_cash: u64, short_window: usize, long_window: usize) -> (r: Registry)
        requires
            1 <= short_window <= long_window <= MAX_WINDOW,
        ensures
            r.wf(),
            r.entry_seq() == Seq::<TrackedSymbol>::empty(),
            r.cash_config() == starting_cash,
            r.short_config() == short_window,
            r.long_config() == long_window,
    {
        Registry { entries: Vec::new(), starting_cash, short_window, long_window }
    }

    /// Number of tracked entries.
    pub fn entries_len(&self) -> (n: usize)
        ensures
            n == self.entry_seq().len(),
    {
        self.entries.len()
    }

    /// The strategy of the entry at `i`.
    pub(crate) fn entry_strategy(&self, i: usize) -> (s: &MovingAverageStrategy)
        requires
            i < self.entry_seq().len(),
        ensures
            *s == self.entry_seq()[i as int].strategy,
    {
        &self.entries[i].strategy
    }

    /// The symbol of the entry at `i`.
    pub(crate) fn entry_symbol(&self, i: usize) -> (s: String)
        requires
            i < self.entry_seq().len(),
        ensures
            s == self.entry_seq()[i as int].symbol,
    {
        self.entries[i].symbol.clone()
    }

    /// Mark-to-market balance of the entry at `i` at the given price.
    pub fn entry_balance(&self, i: usize, price: u64) -> (value: u128)
        requires
            i < self.entry_seq().len(),
        ensures
            value == self.entry_seq()[i as int].simulator.cash() + self.entry_seq()[
                i as int
            ].simulator.units() * price,
    {
        self.entries[i].simulator.get_balance(price)
    }

    /// Applies one decision at the given price to the portfolio of the
    /// entry at `i`, leaving every other entry and the configuration
    /// untouched.
    pub(crate) fn entry_execute_trade(&mut self, i: usize, decision: TradeDecision, price: u64)
        requires
            i < old(self).entry_seq().len(),
        ensures
            final(self).entry_seq().len() == old(self).entry_seq().len(),
            old(self).same_config(*final(self)),
            forall|j: int|
                0 <= j < old(self).entry_seq().len() && j != i ==> final(self).entry_seq()[j]
                    == old(self).entry_seq()[j],
            final(self).entry_seq()[i as int].symbol == old(self).entry_seq()[i as int].symbol,
            final(self).entry_seq()[i as int].strategy == old(self).entry_seq()[i as int].strategy,
            (final(self).entry_seq()[i as int].simulator.cash(), final(self).entry_seq()[
                i as int
            ].simulator.units()) == crate::simulator::apply_decision(
                old(self).entry_seq()[i as int].simulator.cash(),
                old(self).entry_seq()[i as int].simulator.units(),
                decision,
                price as int,
            ),
    {
        self.entries[i].simulator.execute_trade(decision, price);
    }

    /// The index of a symbol's entry, if it is tracked.
    fn index_of(&self, symbol: &String) -> (r: Option<usize>)
        ensures
            match r {
                Some(i) => 0 <= i < self.entry_seq().len() && self.symbols()[i as int] == symbol@,
                None => !self.tracks(symbol@),
            },
    {
        let mut i: usize = 0;
        while i < self.entries.len()
            invariant
                0 <= i <= self.entries.len(),
                forall|j: int| 0 <= j < i ==> self.symbols()[j] != symbol@,
            decreases self.entries.len() - i,
        {
            if self.entries[i].symbol == *symbol {
                return Some(i);
            }
            i = i + 1;
        }
        proof {
            assert(forall|j: int| 0 <= j < self.symbols().len() ==> self.symbols()[j] != symbol@);
        }
        None
    }

    /// Whether the symbol is currently tracked.
    pub fn contains(&self, symbol: &String) -> (r: bool)
        ensures
            r == self.tracks(symbol@),
    {
        match self.index_of(symbol) {
            Some(i) => {
                proof {
                    assert(self.symbols()[i as int] == symbol@);
                }
                true
            },
            None => false,
        }
    }

    /// Adds a fresh entry for the symbol; a no-op when the symbol is
    /// already tracked, so an in-progress simulation is never reset.
    pub fn add_symbol(&mut self, symbol: String)
        requires
            old(self).wf(),
        ensures
            final(self).wf(),
            Registry::add_transition(*old(self), *final(self), symbol@),
    {
        if self.contains(&symbol) {
            return ;
        }
        let entry = TrackedSymbol {
            symbol,
            simulator: Simulator::new(self.starting_cash),
            strategy: MovingAverageStrategy::new(self.short_window, self.long_window),
        };
        self.entries.push(entry);
        proof {
            assert(self.entry_seq().drop_last() =~= old(self).entry_seq());
            assert forall|i: int, j: int|
                0 <= i < j < self.symbols().len() implies self.symbols()[i]
                != self.symbols()[j] by {
                if j < self.symbols().len() - 1 {
                    assert(old(self).symbols()[i] != old(self).symbols()[j]);
                } else {
                    assert(!old(self).tracks(self.symbols()[j]) || old(self).symbols().contains(
                        old(self).symbols()[i],
                    ));
                }
            }
        }
    }

    /// Deletes the symbol's entry; a no-op when the symbol is not
    /// tracked.
    pub fn remove_symbol(&mut self, symbol: &String)
        requires
            old(self).wf(),
        ensures
            final(self).wf(),
            Registry::remove_transition(*old(self), *final(self), symbol@),
    {
        match self.index_of(symbol) {
            Some(i) => {
                self.entries.remove(i);
                proof {
                    assert(old(self).symbols()[i as int] == symbol@);
                    assert(old(self).tracks(symbol@));
                    assert(self.entry_seq() == old(self).entry_seq().remove(i as int));
                    assert forall|a: int, b: int|
                        0 <= a < b < self.symbols().len() implies self.symbols()[a]
                        != self.symbols()[b] by {
                        let a0 = if a < i { a } else { a + 1 };
                        let b0 = if b < i { b } else { b + 1 };
                        assert(self.entry_seq()[a] == old(self).entry_seq()[a0]);
                        assert(self.entry_seq()[b] == old(self).entry_seq()[b0]);
                        assert(old(self).symbols()[a0] != old(self).symbols()[b0]);
                    }
                }
            },
            None => {},
        }
    }

    /// The tracked symbol names, in insertion order.
    pub fn list(&self) -> (r: Vec<String>)
        ensures
            r@.map(|i: int, s: String| s@) == self.symbols(),
    {
        let mut r: Vec<String> = Vec::new();
        let mut i: usize = 0;
        while i < self.entries.len()
            invariant
                0 <= i <= self.entries.len(),
                r@.len() == i,
                forall|j: int| 0 <= j < i ==> #[trigger] r@[j]@ == self.symbols()[j],
            decreases self.entries.len() - i,
        {
            r.push(self.entries[i].symbol.clone());
            i = i + 1;
        }
        proof {
            assert(r@.map(|i: int, s: String| s@) =~= self.symbols());
        }
        r
    }

    /// Applies one command to the registry and reports what happened.
    /// `Exit` and `List` leave the registry unchanged; `Exit` is the only
    /// outcome after which the loop should stop.
    pub fn handle_command(&mut self, cmd: Command) -> (r: CommandOutcome)
        requires
            old(self).wf(),
        ensures
            final(self).wf(),
            cmd matches Command::AddStock(sym) ==> {
                &&& Registry::add_transition(*old(self), *final(self), sym@)
                &&& (r is Added <==> !old(self).tracks(sym@))
                &&& (r is AlreadyTracked <==> old(self).tracks(sym@))
            },
            cmd matches Command::RemoveStock(sym) ==> {
                &&& Registry::remove_transition(*old(self), *final(self), sym@)
                &&& (r is Removed <==> old(self).tracks(sym@))
                &&& (r is NotTracked <==> !old(self).tracks(sym@))
            },
            cmd is List ==> *final(self) == *old(self) && (r matches CommandOutcome::Listing(l)
                && l@.map(|i: int, s: String| s@) == old(self).symbols()),
            cmd is Exit ==> *final(self) == *old(self) && r is Exiting,
    {
        match cmd {
            Command::AddStock(symbol) => {
                let was_tracked = self.contains(&symbol);
                self.add_symbol(symbol);
                if was_tracked {
                    CommandOutcome::AlreadyTracked
                } else {
                    CommandOutcome::Added
                }
            },
            Command::RemoveStock(symbol) => {
                let was_tracked = self.contains(&symbol);
                self.remove_symbol(&symbol);
                if was_tracked {
                    CommandOutcome::Removed
                } else {
                    CommandOutcome::NotTracked
                }
            },
            Command::List => CommandOutcome::Listing(self.list()),
            Command::Exit => CommandOutcome::Exiting,
        }
    }
}

/// Adding a symbol makes it tracked: after an `AddStock` transition the
/// symbol is in the registry, whether or not it was there before.
pub proof fn lemma_add_makes_tracked(pre: Registry, post: Registry, sym: Seq<char>)
    requires
        Registry::add_transition(pre, post, sym),
    ensures
        post.tracks(sym),
{
    if pre.tracks(sym) {
        let i = choose|i: int| 0 <= i < pre.symbols().len() && pre.symbols()[i] == sym;
        assert(post.symbols()[i] == sym);
    } else {
        let last = post.entry_seq().len() - 1;
        assert(post.symbols()[last] == sym);
    }
}

/// Adding never disturbs existing entries: after an `AddStock`
/// transition every previously tracked symbol keeps its entry — and so
/// its portfolio — unchanged. Adding an already-tracked symbol is a
/// no-op rather than a reset.
pub proof fn lemma_add_preserves_existing(pre: Registry, post: Registry, sym: Seq<char>)
    requires
        Registry::add_transition(pre, post, sym),
    ensures
        forall|i: int|
            0 <= i < pre.entry_seq().len() ==> post.entry_seq()[i] == pre.entry_seq()[i],
{
    if !pre.tracks(sym) {
        assert(forall|i: int|
            0 <= i < pre.entry_seq().len() ==> post.entry_seq().drop_last()[i]
                == pre.entry_seq()[i]);
    }
}

/// Removing a symbol untracks it: after a `RemoveStock` transition on a
/// well-formed registry the symbol is gone, and removing an absent
/// symbol changes nothing.
pub proof fn lemma_remove_untracks(pre: Registry, post: Registry, sym: Seq<char>)
    requires
        pre.wf(),
        Registry::remove_transition(pre, post, sym),
    ensures
        !post.tracks(sym),
        !pre.tracks(sym) ==> post.entry_seq() == pre.entry_seq(),
{
    if pre.tracks(sym) {
        let i = choose|i: int|
            0 <= i < pre.entry_seq().len() && pre.symbols()[i] == sym && post.entry_seq()
                == pre.entry_seq().remove(i);
        if post.tracks(sym) {
            let j = choose|j: int| 0 <= j < post.symbols().len() && post.symbols()[j] == sym;
            let j0 = if j < i {
                j
            } else {
                j + 1
            };
            assert(post.entry_seq()[j] == pre.entry_seq()[j0]);
            assert(pre.symbols()[j0] == sym);
            assert(pre.symbols()[i] == pre.symbols()[j0]);
            assert(false);
        }
    } else {
        if post.tracks(sym) {
            let j = choose|j: int| 0 <= j < post.symbols().len() && post.symbols()[j] == sym;
            assert(pre.symbols()[j] == sym);
        }
    }
}

} // verus!
