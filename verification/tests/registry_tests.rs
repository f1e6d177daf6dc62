use stock_tracker::engine::FetchOutcome;
use stock_tracker::registry::Command;
use stock_tracker::registry::CommandOutcome;
use stock_tracker::registry::Registry;
use stock_tracker::series::StockData;

#[test]
fn add_then_list_includes_the_symbol() {
    let mut reg = Registry::new(10_000, 10, 50);
    reg.add_symbol("AAPL".to_string());
    let listed = reg.list();
    assert!(listed.iter().any(|s| s == "AAPL"));
}

#[test]
fn remove_then_list_excludes_the_symbol() {
    let mut reg = Registry::new(10_000, 10, 50);
    reg.add_symbol("AAPL".to_string());
    reg.add_symbol("TSLA".to_string());
    reg.remove_symbol(&"AAPL".to_string());
    let listed = reg.list();
    assert!(!listed.iter().any(|s| s == "AAPL"));
    assert!(listed.iter().any(|s| s == "TSLA"));
}

#[test]
fn remove_of_absent_symbol_is_a_noop() {
    let mut reg = Registry::new(10_000, 10, 50);
    reg.add_symbol("AAPL".to_string());
    reg.remove_symbol(&"MSFT".to_string());
    let listed = reg.list();
    assert_eq!(listed.len(), 1);
    assert!(listed.iter().any(|s| s == "AAPL"));
}

#[test]
fn list_reports_insertion_order() {
    let mut reg = Registry::new(10_000, 10, 50);
    reg.add_symbol("AAPL".to_string());
    reg.add_symbol("TSLA".to_string());
    reg.add_symbol("MSFT".to_string());
    let listed = reg.list();
    assert_eq!(listed, vec!["AAPL", "TSLA", "MSFT"]);
}

#[test]
fn handle_command_reports_each_outcome() {
    let mut reg = Registry::new(10_000, 10, 50);
    let r = reg.handle_command(Command::AddStock("AAPL".to_string()));
    assert!(matches!(r, CommandOutcome::Added));
    let r = reg.handle_command(Command::AddStock("AAPL".to_string()));
    assert!(matches!(r, CommandOutcome::AlreadyTracked));
    let r = reg.handle_command(Command::List);
    match r {
        CommandOutcome::Listing(symbols) => assert_eq!(symbols, vec!["AAPL"]),
        _ => panic!("expected a listing"),
    }
    let r = reg.handle_command(Command::RemoveStock("AAPL".to_string()));
    assert!(matches!(r, CommandOutcome::Removed));
    let r = reg.handle_command(Command::RemoveStock("AAPL".to_string()));
    assert!(matches!(r, CommandOutcome::NotTracked));
    let r = reg.handle_command(Command::Exit);
    assert!(matches!(r, CommandOutcome::Exiting));
}

#[test]
fn adding_a_tracked_symbol_keeps_its_simulation() {
    let mut reg = Registry::new(10_000, 2, 3);
    reg.add_symbol("AAPL".to_string());
    // A rising series makes the entry buy, changing its portfolio.
    let closes: [u64; 3] = [10, 10, 40];
    let mut data = Vec::new();
    for (i, &c) in closes.iter().enumerate() {
        data.push(StockData { timestamp: i as i64, open: c, high: c, low: c, close: c, volume: 0 });
    }
    reg.run_poll_cycle(&vec![FetchOutcome::Data(data)]);
    let balance_after_trade = reg.entry_balance(0, 40);
    // Adding the same symbol again must not reset the simulation.
    reg.add_symbol("AAPL".to_string());
    assert_eq!(reg.entries_len(), 1);
    assert_eq!(reg.entry_balance(0, 40), balance_after_trade);
}
