use stock_tracker::simulator::Simulator;
use stock_tracker::strategy::TradeDecision;

#[test]
fn hold_is_a_noop() {
    let mut sim = Simulator::new(500);
    sim.execute_trade(TradeDecision::Hold, 77);
    assert_eq!(sim.cash_cents(), 500);
    assert_eq!(sim.position_units(), 0);
}

#[test]
fn buy_spends_all_divisible_cash() {
    let mut sim = Simulator::new(10_000);
    sim.execute_trade(TradeDecision::Buy, 7);
    assert_eq!(sim.position_units(), 1428);
    assert_eq!(sim.cash_cents(), 4);
}

#[test]
fn buy_then_sell_at_same_price_round_trips() {
    let mut sim = Simulator::new(10_000);
    sim.execute_trade(TradeDecision::Buy, 7);
    sim.execute_trade(TradeDecision::Sell, 7);
    assert_eq!(sim.cash_cents(), 10_000);
    assert_eq!(sim.position_units(), 0);
}

#[test]
fn buy_at_zero_price_is_a_noop() {
    let mut sim = Simulator::new(10_000);
    sim.execute_trade(TradeDecision::Buy, 0);
    assert_eq!(sim.cash_cents(), 10_000);
    assert_eq!(sim.position_units(), 0);
}

#[test]
fn sell_with_no_position_is_a_noop() {
    let mut sim = Simulator::new(10_000);
    sim.execute_trade(TradeDecision::Sell, 50);
    assert_eq!(sim.cash_cents(), 10_000);
    assert_eq!(sim.position_units(), 0);
}

#[test]
fn buy_with_cash_below_price_is_a_noop() {
    let mut sim = Simulator::new(5);
    sim.execute_trade(TradeDecision::Buy, 10);
    assert_eq!(sim.cash_cents(), 5);
    assert_eq!(sim.position_units(), 0);
}

#[test]
fn a_long_sequence_of_trades_keeps_the_ledger_exact() {
    let mut sim = Simulator::new(1_000);
    sim.execute_trade(TradeDecision::Buy, 3);
    assert_eq!((sim.cash_cents(), sim.position_units()), (1, 333));
    sim.execute_trade(TradeDecision::Hold, 9);
    assert_eq!((sim.cash_cents(), sim.position_units()), (1, 333));
    sim.execute_trade(TradeDecision::Sell, 2);
    assert_eq!((sim.cash_cents(), sim.position_units()), (667, 0));
    sim.execute_trade(TradeDecision::Buy, 500);
    assert_eq!((sim.cash_cents(), sim.position_units()), (167, 1));
    sim.execute_trade(TradeDecision::Sell, 1_000);
    assert_eq!((sim.cash_cents(), sim.position_units()), (1_167, 0));
    sim.execute_trade(TradeDecision::Buy, 1);
    assert_eq!((sim.cash_cents(), sim.position_units()), (0, 1_167));
    // Selling at price zero liquidates the position for nothing.
    sim.execute_trade(TradeDecision::Sell, 0);
    assert_eq!((sim.cash_cents(), sim.position_units()), (0, 0));
}

#[test]
fn mark_to_market_values_position_at_current_price() {
    let mut sim = Simulator::new(26);
    sim.execute_trade(TradeDecision::Buy, 7);
    assert_eq!(sim.cash_cents(), 5);
    assert_eq!(sim.position_units(), 3);
    assert_eq!(sim.get_balance(7), 26);
    // The balance must follow the latest observed price, not the buy price.
    assert_eq!(sim.get_balance(10), 35);
    assert_eq!(sim.get_balance(0), 5);
}

#[test]
fn sell_at_a_higher_price_realizes_the_gain() {
    let mut sim = Simulator::new(100);
    sim.execute_trade(TradeDecision::Buy, 10);
    assert_eq!(sim.position_units(), 10);
    sim.execute_trade(TradeDecision::Sell, 25);
    assert_eq!(sim.cash_cents(), 250);
    assert_eq!(sim.position_units(), 0);
}
