use whispernet::command::{char_is_whitespace, parse_command, split_words, Command};

#[test]
fn whitespace_matches_std() {
    for c in (0u32..0x3100).filter_map(char::from_u32) {
        assert_eq!(char_is_whitespace(c), c.is_whitespace(), "{:?}", c);
    }
    for c in [char::MAX, '\u{feff}', '\u{180e}', '\u{200b}'] {
        assert_eq!(char_is_whitespace(c), c.is_whitespace());
    }
}

#[test]
fn split_matches_std() {
    for line in ["", "   ", " a  b\tc\n", "/msg  x  hello   world ", "\u{3000}x\u{a0}y", "é ü"] {
        let ours = split_words(line);
        let std_words: Vec<String> = line.split_whitespace().map(String::from).collect();
        assert_eq!(ours, std_words, "{:?}", line);
    }
}

#[test]
fn simple_commands() {
    assert!(matches!(parse_command("/help\n"), Command::Help));
    assert!(matches!(parse_command("  /id"), Command::Id));
    assert!(matches!(parse_command("/onion extra"), Command::Onion));
    assert!(matches!(parse_command("/quit"), Command::Quit));
    assert!(matches!(parse_command("\n"), Command::Empty));
    assert!(matches!(parse_command("hello"), Command::Unknown));
    assert!(matches!(parse_command("/HELP"), Command::Unknown));
}

#[test]
fn connect_needs_an_address() {
    match parse_command("/connect abcdef.onion more") {
        Command::Connect { target } => assert_eq!(target, "abcdef.onion"),
        _ => panic!("expected a connect"),
    }
    assert!(matches!(parse_command("/connect  "), Command::ConnectUsage));
}

#[test]
fn msg_joins_words_with_single_spaces() {
    match parse_command("/msg peer.onion  hello \t there  friend\n") {
        Command::Msg { target, text } => {
            assert_eq!(target, "peer.onion");
            assert_eq!(text, "hello there friend");
        }
        _ => panic!("expected a message"),
    }
    assert!(matches!(parse_command("/msg peer.onion"), Command::MsgUsage));
    assert!(matches!(parse_command("/msg"), Command::MsgUsage));
}
