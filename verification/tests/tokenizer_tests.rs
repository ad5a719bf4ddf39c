use terminal_portfolio::tokenizer::parse;

#[test]
fn parse_lowercases_command_and_keeps_args() {
    let p = parse("  Echo  Hello World ");
    assert_eq!(p.command, "echo");
    assert_eq!(p.args, vec!["Hello".to_string(), "World".to_string()]);
}

#[test]
fn parse_empty_input_gives_empty_command() {
    let p = parse("   ");
    assert_eq!(p.command, "");
    assert!(p.args.is_empty());
}

#[test]
fn parse_single_token() {
    let p = parse("LS");
    assert_eq!(p.command, "ls");
    assert!(p.args.is_empty());
}
