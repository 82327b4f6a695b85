use paper_cli::command::error::CommandError;
use paper_cli::command::parser::{parse_command, parse_ttl_value, resize_with, CommandParser};
use paper_cli::command::{CliCommand, ClientCommand, Command};
use paper_cli::line_reader::line::Line;
use paper_cli::line_reader::{LineReaderError, ReadEvent, ReadState};
use paper_cli::policy::Policy;

fn parse(line: &str) -> Result<Command, CommandError> {
    CommandParser::new("127.0.0.1", 3145).parse(line)
}

fn client(command: ClientCommand) -> Result<Command, CommandError> {
    Ok(Command::Client(command))
}

fn key(text: &str) -> String {
    text.to_string()
}

#[test]
fn set_with_ttl_keeps_it() {
    assert_eq!(
        parse("set mykey myvalue 30"),
        client(ClientCommand::SetValue(key("mykey"), key("myvalue"), Some(30)))
    );
}

#[test]
fn set_with_ttl_of_zero_has_no_expiry() {
    assert_eq!(
        parse("set mykey myvalue 0"),
        client(ClientCommand::SetValue(key("mykey"), key("myvalue"), None))
    );
}

#[test]
fn set_without_ttl_has_no_expiry() {
    assert_eq!(
        parse("set mykey \"my value\""),
        client(ClientCommand::SetValue(key("mykey"), key("my value"), None))
    );
    assert_eq!(
        parse("set k \"\""),
        client(ClientCommand::SetValue(key("k"), key(""), None))
    );
}

#[test]
fn unknown_policy_is_invalid_policy() {
    assert_eq!(parse("policy xyz"), Err(CommandError::InvalidPolicy));
    assert_eq!(parse("policy LRU"), Err(CommandError::InvalidPolicy));
    assert_eq!(parse("policy \"\""), Err(CommandError::InvalidPolicy));
}

#[test]
fn resize_without_size_is_invalid_cache_size() {
    assert_eq!(parse("resize abc"), Err(CommandError::InvalidCacheSize));
    assert_eq!(parse("resize -5"), Err(CommandError::InvalidCacheSize));
    assert_eq!(parse("resize 99999999999999999999999"), Err(CommandError::InvalidCacheSize));
}

#[test]
fn get_without_key_is_invalid_arguments() {
    assert_eq!(parse("get"), Err(CommandError::InvalidArguments("get")));
}

#[test]
fn commands_without_arguments_parse() {
    assert_eq!(parse("ping"), client(ClientCommand::Ping));
    assert_eq!(parse("version"), client(ClientCommand::Version));
    assert_eq!(parse("wipe"), client(ClientCommand::Wipe));
    assert_eq!(parse("stats"), client(ClientCommand::Stats));
    assert_eq!(parse("  PING  "), client(ClientCommand::Ping));
}

#[test]
fn commands_without_arguments_refuse_arguments() {
    assert_eq!(parse("ping now"), Err(CommandError::InvalidArguments("ping")));
    assert_eq!(parse("version 2"), Err(CommandError::InvalidArguments("version")));
    assert_eq!(parse("wipe all"), Err(CommandError::InvalidArguments("wipe")));
    assert_eq!(parse("stats x"), Err(CommandError::InvalidArguments("stats")));
}

#[test]
fn commands_with_a_key_parse() {
    assert_eq!(parse("get k"), client(ClientCommand::Get(key("k"))));
    assert_eq!(parse("del k"), client(ClientCommand::Del(key("k"))));
    assert_eq!(parse("has k"), client(ClientCommand::Has(key("k"))));
    assert_eq!(parse("peek k"), client(ClientCommand::Peek(key("k"))));
    assert_eq!(parse("size k"), client(ClientCommand::Size(key("k"))));
    assert_eq!(parse("Get \"a key\""), client(ClientCommand::Get(key("a key"))));
    assert_eq!(parse("auth secret"), client(ClientCommand::Auth(key("secret"))));
    assert_eq!(parse("auth \"\""), client(ClientCommand::Auth(key(""))));
}

#[test]
fn commands_with_a_key_refuse_other_counts() {
    assert_eq!(parse("get a b"), Err(CommandError::InvalidArguments("get")));
    assert_eq!(parse("del"), Err(CommandError::InvalidArguments("del")));
    assert_eq!(parse("has a b"), Err(CommandError::InvalidArguments("has")));
    assert_eq!(parse("peek"), Err(CommandError::InvalidArguments("peek")));
    assert_eq!(parse("size a b c"), Err(CommandError::InvalidArguments("size")));
    assert_eq!(parse("auth"), Err(CommandError::InvalidArguments("auth")));
    assert_eq!(parse("set k"), Err(CommandError::InvalidArguments("set")));
    assert_eq!(parse("set k v 1 2"), Err(CommandError::InvalidArguments("set")));
    assert_eq!(parse("ttl"), Err(CommandError::InvalidArguments("ttl")));
    assert_eq!(parse("ttl k 1 2"), Err(CommandError::InvalidArguments("ttl")));
    assert_eq!(parse("resize"), Err(CommandError::InvalidArguments("resize")));
    assert_eq!(parse("policy"), Err(CommandError::InvalidArguments("policy")));
    assert_eq!(parse("policy lru mru"), Err(CommandError::InvalidArguments("policy")));
}

#[test]
fn empty_key_is_refused() {
    assert_eq!(parse("get \"\""), Err(CommandError::InvalidArguments("get")));
    assert_eq!(parse("set \"\" v"), Err(CommandError::InvalidArguments("set")));
    assert_eq!(parse("set \"\" v x"), Err(CommandError::InvalidArguments("set")));
    assert_eq!(parse("del \""), Err(CommandError::InvalidArguments("del")));
    assert_eq!(parse("ttl \"\" 5"), Err(CommandError::InvalidArguments("ttl")));
}

#[test]
fn ttl_parses_with_and_without_seconds() {
    assert_eq!(parse("ttl k"), client(ClientCommand::Ttl(key("k"), None)));
    assert_eq!(parse("ttl k 0"), client(ClientCommand::Ttl(key("k"), None)));
    assert_eq!(parse("ttl k 000"), client(ClientCommand::Ttl(key("k"), None)));
    assert_eq!(parse("ttl k 45"), client(ClientCommand::Ttl(key("k"), Some(45))));
    assert_eq!(parse("ttl k +7"), client(ClientCommand::Ttl(key("k"), Some(7))));
    assert_eq!(
        parse("ttl k 4294967295"),
        client(ClientCommand::Ttl(key("k"), Some(4294967295)))
    );
}

#[test]
fn ttl_that_is_no_number_is_invalid_ttl() {
    assert_eq!(parse("set k v soon"), Err(CommandError::InvalidTtl));
    assert_eq!(parse("set k v -1"), Err(CommandError::InvalidTtl));
    assert_eq!(parse("set k v 1.5"), Err(CommandError::InvalidTtl));
    assert_eq!(parse("set k v \"\""), Err(CommandError::InvalidTtl));
    assert_eq!(parse("set k v 4294967296"), Err(CommandError::InvalidTtl));
    assert_eq!(parse("ttl k 1e3"), Err(CommandError::InvalidTtl));
    assert_eq!(parse("ttl k +"), Err(CommandError::InvalidTtl));
    assert_eq!(parse("ttl k ١٢"), Err(CommandError::InvalidTtl));
}

#[test]
fn ttl_value_agrees_with_standard_parsing() {
    for text in ["0", "1", "+1", "-1", "", "+", "007", "4294967295", "4294967296", "1 ", " 1", "1_0",
        "99999999999999999999", "+0", "++1", "0x10"] {
        let expected = match text.parse::<u32>() {
            Ok(0) => Ok(None),
            Ok(seconds) => Ok(Some(seconds)),
            Err(_) => Err(CommandError::InvalidTtl),
        };
        assert_eq!(parse_ttl_value(text), expected, "for {:?}", text);
    }
}

#[test]
fn resize_reads_sizes_with_units() {
    assert_eq!(parse("resize 1024"), client(ClientCommand::Resize(1024)));
    assert_eq!(parse("resize 10mb"), client(ClientCommand::Resize(10_000_000)));
    assert_eq!(parse("resize 10 MiB"), client(ClientCommand::Resize(10 * 1024 * 1024)));
    assert_eq!(parse("resize 1.5 kb"), client(ClientCommand::Resize(1500)));
    assert_eq!(parse("resize 1 234 567"), client(ClientCommand::Resize(1_234_567)));
    assert_eq!(
        parse("resize 18446744073709551615"),
        client(ClientCommand::Resize(u64::MAX))
    );
    assert_eq!(parse("resize 0"), client(ClientCommand::Resize(0)));
}

#[test]
fn resize_refuses_sizes_beyond_64_bits() {
    assert_eq!(parse("resize 18446744073709551616"), Err(CommandError::InvalidCacheSize));
    assert_eq!(parse("resize 100 EB"), Err(CommandError::InvalidCacheSize));
    assert_eq!(parse("resize 184467440737095516155"), Err(CommandError::InvalidCacheSize));
    assert_eq!(parse("resize 000000000000000000001"), Err(CommandError::InvalidCacheSize));
}

#[test]
fn resize_with_takes_what_the_size_parser_made() {
    assert_eq!(resize_with(Some(77)), client(ClientCommand::Resize(77)));
    assert_eq!(resize_with(None), Err(CommandError::InvalidCacheSize));
}

#[test]
fn known_policies_parse() {
    for name in ["auto", "lfu", "fifo", "clock", "sieve", "lru", "mru", "arc"] {
        let line = format!("policy {}", name);
        assert_eq!(parse(&line), client(ClientCommand::Policy(Policy::new(name).unwrap())));
        match parse(&line) {
            Ok(Command::Client(ClientCommand::Policy(policy))) => assert_eq!(policy.name(), name),
            other => panic!("{:?} gave {:?}", line, other),
        }
    }
}

#[test]
fn policies_with_parameters_parse_to_their_plain_names() {
    match parse("policy 2q-0.250-0.5") {
        Ok(Command::Client(ClientCommand::Policy(policy))) => {
            assert_eq!(policy.name(), "2q-0.25-0.5")
        },
        other => panic!("gave {:?}", other),
    }
    match parse("policy s3-fifo-0.10") {
        Ok(Command::Client(ClientCommand::Policy(policy))) => {
            assert_eq!(policy.name(), "s3-fifo-0.1")
        },
        other => panic!("gave {:?}", other),
    }
    assert_eq!(parse("policy 2q-0.25"), Err(CommandError::InvalidPolicy));
    assert_eq!(parse("policy 2q-a-b"), Err(CommandError::InvalidPolicy));
    assert_eq!(parse("policy s3-fifo-"), Err(CommandError::InvalidPolicy));
    assert_eq!(parse("policy s3-fifo-1e-1"), Err(CommandError::InvalidPolicy));
}

#[test]
fn shell_commands_parse_under_all_their_names() {
    assert_eq!(parse("help"), Ok(Command::Cli(CliCommand::Help)));
    assert_eq!(parse("h"), Ok(Command::Cli(CliCommand::Help)));
    assert_eq!(parse("clear"), Ok(Command::Cli(CliCommand::Clear)));
    assert_eq!(parse("quit"), Ok(Command::Cli(CliCommand::Quit)));
    assert_eq!(parse("q"), Ok(Command::Cli(CliCommand::Quit)));
    assert_eq!(parse("exit"), Ok(Command::Cli(CliCommand::Quit)));
    assert_eq!(parse("QUIT now"), Ok(Command::Cli(CliCommand::Quit)));
}

#[test]
fn unknown_command_is_unrecognized() {
    assert_eq!(parse("frobnicate"), Err(CommandError::UnrecognizedCommand));
    assert_eq!(parse("gets k"), Err(CommandError::UnrecognizedCommand));
    assert_eq!(parse("\"\""), Err(CommandError::UnrecognizedCommand));
}

#[test]
fn empty_line_is_empty_input() {
    assert_eq!(parse(""), Err(CommandError::EmptyInput));
    assert_eq!(parse("   \t"), Err(CommandError::EmptyInput));
}

#[test]
fn parse_command_takes_tokens() {
    let tokens = vec!["get".to_string(), "the key".to_string()];
    assert_eq!(parse_command(&tokens), client(ClientCommand::Get(key("the key"))));
    let shouted = vec!["GET".to_string(), "k".to_string()];
    assert_eq!(parse_command(&shouted), Err(CommandError::UnrecognizedCommand));
}

#[test]
fn parsed_commands_can_be_sent() {
    for line in ["ping", "get k", "set k v 9", "set k \"\"", "ttl k", "resize 5kb", "policy mru",
        "auth \"\"", "stats", "size k"] {
        match parse(line) {
            Ok(Command::Client(command)) => assert!(command.is_valid(), "for {:?}", line),
            other => panic!("{:?} gave {:?}", line, other),
        }
    }
}

#[test]
fn new_parser_has_prompt_and_reads() {
    let parser = CommandParser::new("127.0.0.1", 3145);
    assert!(parser.reading());
    assert_eq!(parser.prompt(), "\x1B[32m127.0.0.1:3145\x1B[0m> ");
    assert_eq!(CommandParser::new("localhost", 80).prompt(), "\x1B[32mlocalhost:0080\x1B[0m> ");
    assert_eq!(CommandParser::new("h", 0).prompt(), "\x1B[32mh:0000\x1B[0m> ");
    assert_eq!(CommandParser::new("h", 123456).prompt(), "\x1B[32mh:123456\x1B[0m> ");
    assert_eq!(CommandParser::new("", 4294967295).prompt(), format!("\x1B[32m{}:{:0>4}\x1B[0m> ", "", u32::MAX));
}

#[test]
fn parser_lists_all_commands() {
    let parser = CommandParser::new("h", 1);
    let expected = ["ping", "version", "auth <token>", "get <key>", "set <key> <value> [ttl]",
        "del <key>", "has <key>", "peek <key>", "ttl <key> [ttl]", "size <key>", "wipe",
        "resize <size>", "policy <policy>", "stats", "help", "clear", "quit", "exit"];
    let plain: Vec<String> = expected.iter().map(|hint| hint.to_string()).collect();
    let indented: Vec<String> = expected.iter().map(|hint| format!("  {}", hint)).collect();
    assert_eq!(parser.hint_lines(None), plain);
    assert_eq!(parser.hint_lines(Some("  ")), indented);
}

#[test]
fn close_stops_reading() {
    let mut parser = CommandParser::new("h", 1);
    parser.close();
    assert!(!parser.reading());
}

#[test]
fn read_parses_a_line_and_goes_on() {
    let mut parser = CommandParser::new("h", 1);
    assert_eq!(parser.read(Ok("get k".to_string())), client(ClientCommand::Get(key("k"))));
    assert!(parser.reading());
    assert_eq!(parser.read(Ok("nonsense".to_string())), Err(CommandError::UnrecognizedCommand));
    assert_eq!(parser.read(Ok(String::new())), Err(CommandError::EmptyInput));
    assert!(parser.reading());
}

#[test]
fn read_stops_when_terminal_is_closed() {
    let mut parser = CommandParser::new("h", 1);
    assert_eq!(parser.read(Err(LineReaderError::Closed)), Err(CommandError::Interrupted));
    assert!(!parser.reading());
}

#[test]
fn read_stops_when_terminal_fails() {
    let mut parser = CommandParser::new("h", 1);
    assert_eq!(parser.read(Err(LineReaderError::Internal)), Err(CommandError::Internal));
    assert!(!parser.reading());
}

#[test]
fn parser_edits_lines_with_its_own_hints() {
    let mut parser = CommandParser::new("h", 1);
    let mut line = Line::new();
    for c in "re".chars() {
        parser.handle_event(&mut line, ReadEvent::Character(c));
    }
    assert_eq!(parser.render(&line), "\r\x1B[K\x1B[32mh:0001\x1B[0m> re\x1B[90msize <size>\x1B[0m\x1B[11G");
    parser.handle_event(&mut line, ReadEvent::Tab);
    assert_eq!(line.buf(), "resize ");
    assert_eq!(parser.handle_event(&mut line, ReadEvent::Enter), ReadState::Submitted);
    let mut next = Line::new();
    parser.handle_event(&mut next, ReadEvent::UpArrow);
    assert_eq!(next.buf(), "resize ");
    assert_eq!(parser.parse_line("Resize 5 mb"), Ok(vec!["resize".to_string(), "5".to_string(), "mb".to_string()]));
}
