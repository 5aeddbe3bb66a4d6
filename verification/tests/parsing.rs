use deet::command::{parse_command, Command};
use deet::resolve::{parse_dec, parse_hex, plan_break, resolve_break, BreakPlan};

#[test]
fn hex_parsing_exact_values() {
    assert_eq!(parse_hex("0"), Some(0));
    assert_eq!(parse_hex("1f"), Some(31));
    assert_eq!(parse_hex("1F"), Some(31));
    assert_eq!(parse_hex("401000"), Some(0x401000));
    assert_eq!(parse_hex("ffffffffffffffff"), Some(u64::MAX));
}

#[test]
fn hex_parsing_refusals() {
    assert_eq!(parse_hex(""), None);
    assert_eq!(parse_hex("0x10"), None); // the prefix is not a digit
    assert_eq!(parse_hex("xyz"), None);
    assert_eq!(parse_hex("12g4"), None);
    assert_eq!(parse_hex("10000000000000000"), None); // one past u64::MAX
}

#[test]
fn dec_parsing_exact_values() {
    assert_eq!(parse_dec("0"), Some(0));
    assert_eq!(parse_dec("42"), Some(42));
    assert_eq!(parse_dec("18446744073709551615"), Some(u64::MAX));
    assert_eq!(parse_dec("18446744073709551616"), None);
    assert_eq!(parse_dec(""), None);
    assert_eq!(parse_dec("4a"), None);
}

#[test]
fn break_token_precedence() {
    assert_eq!(plan_break("*0x400000"), BreakPlan::AtAddress(0x400000));
    assert_eq!(plan_break("0x10"), BreakPlan::AtAddress(16));
    assert_eq!(plan_break("0X10"), BreakPlan::AtAddress(16));
    assert_eq!(plan_break("12"), BreakPlan::TryLine(12));
    assert_eq!(plan_break("main"), BreakPlan::TryFunction);
    assert_eq!(plan_break("*0xzz"), BreakPlan::Malformed);
    assert_eq!(plan_break("0x"), BreakPlan::Malformed);
}

#[test]
fn resolution_falls_back_in_order() {
    assert_eq!(resolve_break(&BreakPlan::AtAddress(7), None, None), Some(7));
    assert_eq!(resolve_break(&BreakPlan::TryLine(3), Some(0x10), Some(0x20)), Some(0x10));
    assert_eq!(resolve_break(&BreakPlan::TryLine(3), None, Some(0x20)), Some(0x20));
    assert_eq!(resolve_break(&BreakPlan::TryLine(3), None, None), None);
    assert_eq!(resolve_break(&BreakPlan::TryFunction, Some(0x10), Some(0x20)), Some(0x20));
    assert_eq!(resolve_break(&BreakPlan::TryFunction, None, None), None);
    assert_eq!(resolve_break(&BreakPlan::Malformed, Some(0x10), Some(0x20)), None);
}

fn toks(words: &[&str]) -> Vec<String> {
    words.iter().map(|w| w.to_string()).collect()
}

#[test]
fn run_command_keeps_its_arguments() {
    match parse_command(&toks(&["run", "-v", "input.txt"])) {
        Some(Command::Run { args }) => assert_eq!(args, vec!["-v", "input.txt"]),
        _ => panic!("expected a run command"),
    }
    match parse_command(&toks(&["run"])) {
        Some(Command::Run { args }) => assert!(args.is_empty()),
        _ => panic!("expected a run command"),
    }
}

#[test]
fn single_word_commands() {
    assert!(matches!(parse_command(&toks(&["continue"])), Some(Command::Continue)));
    assert!(matches!(parse_command(&toks(&["backtrace"])), Some(Command::Backtrace)));
    assert!(matches!(parse_command(&toks(&["quit"])), Some(Command::Quit)));
}

#[test]
fn break_command_carries_the_token() {
    match parse_command(&toks(&["break", "main"])) {
        Some(Command::Break { loc }) => assert_eq!(loc, "main"),
        _ => panic!("expected a break command"),
    }
}

#[test]
fn unrecognized_input_yields_no_command() {
    assert!(parse_command(&toks(&[])).is_none());
    assert!(parse_command(&toks(&["step"])).is_none());
    assert!(parse_command(&toks(&["continue", "now"])).is_none());
    assert!(parse_command(&toks(&["break"])).is_none());
    assert!(parse_command(&toks(&["break", "a", "b"])).is_none());
    assert!(parse_command(&toks(&["quit", "now"])).is_none());
}
