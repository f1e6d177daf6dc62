use stock_tracker::commands::ParsedLine;
use stock_tracker::commands::parse_command;
use stock_tracker::registry::Command;

#[test]
fn parse_add_with_symbol() {
    match parse_command("add AAPL") {
        ParsedLine::Parsed(Command::AddStock(sym)) => assert_eq!(sym, "AAPL"),
        _ => panic!("expected an add command"),
    }
}

#[test]
fn parse_remove_with_symbol() {
    match parse_command("remove TSLA") {
        ParsedLine::Parsed(Command::RemoveStock(sym)) => assert_eq!(sym, "TSLA"),
        _ => panic!("expected a remove command"),
    }
}

#[test]
fn parse_list_and_exit() {
    assert!(matches!(parse_command("list"), ParsedLine::Parsed(Command::List)));
    assert!(matches!(parse_command("exit"), ParsedLine::Parsed(Command::Exit)));
}

#[test]
fn parse_tolerates_extra_whitespace() {
    match parse_command("  add \t MSFT  ") {
        ParsedLine::Parsed(Command::AddStock(sym)) => assert_eq!(sym, "MSFT"),
        _ => panic!("expected an add command"),
    }
    assert!(matches!(parse_command("\tlist\r"), ParsedLine::Parsed(Command::List)));
}

#[test]
fn parse_blank_lines() {
    assert!(matches!(parse_command(""), ParsedLine::Blank));
    assert!(matches!(parse_command("   \t  "), ParsedLine::Blank));
}

#[test]
fn parse_unknown_lines() {
    assert!(matches!(parse_command("frobnicate"), ParsedLine::Unknown));
    assert!(matches!(parse_command("add"), ParsedLine::Unknown));
    assert!(matches!(parse_command("add A B"), ParsedLine::Unknown));
    assert!(matches!(parse_command("ADD AAPL"), ParsedLine::Unknown));
    assert!(matches!(parse_command("list please"), ParsedLine::Unknown));
}
