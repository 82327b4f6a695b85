//! From tokens to a command: the first token names the command, and each
//! command says how many arguments it takes and what they must look like.

use crate::command::client::{is_valid_key, text_fits_frame, fits_frame, valid_key};
use crate::command::error::CommandError;
use crate::command::tokenizer::{tokenize, tokenized};
use crate::command::{CliCommand, ClientCommand, ClientCommandView, Command, CommandView};
use crate::line_reader::error::LineReaderError;
use crate::line_reader::line::Line;
use crate::line_reader::{LineReader, LineReaderView, ReadEvent, ReadState};
use crate::policy::{accepted_name, policy_name, Policy};
use crate::text::{
    chars_of,
    decimal,
    decimal_text,
    is_digit,
    parse_u32,
    same_chars,
    unsigned_value,
};
use vstd::prelude::*;
use vstd::string::*;

verus! {

/// What `parse_size::parse_size` makes of a text with at most twenty digits:
/// the number of bytes that the text writes, with or without a unit, or
/// nothing where the text writes no size that fits 64 bits.
pub uninterp spec fn byte_size(text: Seq<char>) -> Option<u64>;

/// The number of digits among the characters of `text`.
pub open spec fn digit_count(text: Seq<char>) -> nat
    decreases text.len(),
{
    if text.len() == 0 {
        0
    } else {
        digit_count(text.drop_last()) + if is_digit(text.last()) {
            1nat
        } else {
            0nat
        }
    }
}

/// The most digits that a text handed to the size parser may hold. With
/// twenty digits at most, every sum in `parse_size::parse_size` is either
/// checked or stays below 64 bits; with more, it rounds a number up without
/// checking, and the number can be the largest of 64 bits.
pub const MAX_SIZE_DIGITS: usize = 20;

/// Calls `parse_size::parse_size`, with its default settings, on a text of
/// twenty digits at most: the result depends on the text alone, and an error
/// of whatever kind is handed on as nothing.
#[verifier::external_body]
fn parse_byte_size(text: &str) -> (size: Option<u64>)
    requires
        digit_count(text@) <= MAX_SIZE_DIGITS,
    ensures
        size == byte_size(text@),
{
    parse_size::parse_size(text).ok()
}

/// The tokens from index `from` up to index `to`, with one space between
/// neighbours.
pub open spec fn joined(tokens: Seq<Seq<char>>, from: int, to: int) -> Seq<char>
    decreases to - from,
{
    if to <= from {
        Seq::empty()
    } else if to == from + 1 {
        tokens[from]
    } else {
        joined(tokens, from, to - 1) + seq![' '] + tokens[to - 1]
    }
}

/// The result of a parse, with the command taken by what it holds.
pub open spec fn parsed(result: Result<Command, CommandError>) -> Result<
    CommandView,
    CommandError,
> {
    match result {
        Ok(command) => Ok(command@),
        Err(error) => Err(error),
    }
}

/// The command of a line that holds nothing but the command's name.
pub open spec fn bare_command(
    tokens: Seq<Seq<char>>,
    name: &'static str,
    command: ClientCommandView,
) -> Result<CommandView, CommandError> {
    if tokens.len() != 1 {
        Err(CommandError::InvalidArguments(name))
    } else {
        Ok(CommandView::Client(command))
    }
}

/// The command of a line that holds the command's name and a key.
pub open spec fn keyed_command(
    tokens: Seq<Seq<char>>,
    name: &'static str,
    command: spec_fn(Seq<char>) -> ClientCommandView,
) -> Result<CommandView, CommandError> {
    if tokens.len() != 2 || !valid_key(tokens[1]) {
        Err(CommandError::InvalidArguments(name))
    } else {
        Ok(CommandView::Client(command(tokens[1])))
    }
}

/// The time to live that a token writes: an unsigned number that fits 32
/// bits, of which zero stands for no expiry.
pub open spec fn ttl_of(token: Seq<char>) -> Result<Option<u32>, CommandError> {
    match unsigned_value(token) {
        Some(seconds) => if seconds > u32::MAX {
            Err(CommandError::InvalidTtl)
        } else if seconds == 0 {
            Ok(None)
        } else {
            Ok(Some(seconds as u32))
        },
        None => Err(CommandError::InvalidTtl),
    }
}

/// `auth` takes a token, which may be empty.
pub open spec fn auth_command(tokens: Seq<Seq<char>>) -> Result<CommandView, CommandError> {
    if tokens.len() != 2 || !fits_frame(tokens[1]) {
        Err(CommandError::InvalidArguments("auth"))
    } else {
        Ok(CommandView::Client(ClientCommandView::Auth(tokens[1])))
    }
}

/// `set` takes a key, a value and, if wanted, a time to live.
pub open spec fn set_command(tokens: Seq<Seq<char>>) -> Result<CommandView, CommandError> {
    if tokens.len() < 3 || tokens.len() > 4 || !valid_key(tokens[1]) || !fits_frame(tokens[2]) {
        Err(CommandError::InvalidArguments("set"))
    } else if tokens.len() == 3 {
        Ok(CommandView::Client(ClientCommandView::SetValue(tokens[1], tokens[2], None)))
    } else {
        match ttl_of(tokens[3]) {
            Ok(ttl) => Ok(CommandView::Client(ClientCommandView::SetValue(tokens[1], tokens[2], ttl))),
            Err(error) => Err(error),
        }
    }
}

/// `ttl` takes a key and, if wanted, a time to live.
pub open spec fn ttl_command(tokens: Seq<Seq<char>>) -> Result<CommandView, CommandError> {
    if tokens.len() < 2 || tokens.len() > 3 || !valid_key(tokens[1]) {
        Err(CommandError::InvalidArguments("ttl"))
    } else if tokens.len() == 2 {
        Ok(CommandView::Client(ClientCommandView::Ttl(tokens[1], None)))
    } else {
        match ttl_of(tokens[2]) {
            Ok(ttl) => Ok(CommandView::Client(ClientCommandView::Ttl(tokens[1], ttl))),
            Err(error) => Err(error),
        }
    }
}

/// The command that `resize` gives for what the size parser made of its
/// arguments.
pub open spec fn resize_of(size: Option<u64>) -> Result<CommandView, CommandError> {
    match size {
        Some(bytes) => Ok(CommandView::Client(ClientCommandView::Resize(bytes))),
        None => Err(CommandError::InvalidCacheSize),
    }
}

/// `resize` takes a size, which may be written in several tokens: they are
/// read as one text with a space between neighbours. A text with more than
/// twenty digits is no size.
pub open spec fn resize_command(tokens: Seq<Seq<char>>) -> Result<CommandView, CommandError> {
    let text = joined(tokens, 1, tokens.len() as int);
    if tokens.len() < 2 {
        Err(CommandError::InvalidArguments("resize"))
    } else if digit_count(text) > MAX_SIZE_DIGITS {
        Err(CommandError::InvalidCacheSize)
    } else {
        resize_of(byte_size(text))
    }
}

/// `policy` takes the name of a policy, as the client library knows it.
pub open spec fn policy_command(tokens: Seq<Seq<char>>) -> Result<CommandView, CommandError> {
    if tokens.len() != 2 {
        Err(CommandError::InvalidArguments("policy"))
    } else {
        match accepted_name(policy_name(tokens[1])) {
            Some(name) => Ok(CommandView::Client(ClientCommandView::Policy(name))),
            None => Err(CommandError::InvalidPolicy),
        }
    }
}

/// The command that a line's tokens stand for. The first token is the
/// command's name, in lower case.
pub open spec fn command_of(tokens: Seq<Seq<char>>) -> Result<CommandView, CommandError> {
    let name = tokens[0];
    if name == "ping"@ {
        bare_command(tokens, "ping", ClientCommandView::Ping)
    } else if name == "version"@ {
        bare_command(tokens, "version", ClientCommandView::Version)
    } else if name == "auth"@ {
        auth_command(tokens)
    } else if name == "get"@ {
        keyed_command(tokens, "get", |key: Seq<char>| ClientCommandView::Get(key))
    } else if name == "set"@ {
        set_command(tokens)
    } else if name == "del"@ {
        keyed_command(tokens, "del", |key: Seq<char>| ClientCommandView::Del(key))
    } else if name == "has"@ {
        keyed_command(tokens, "has", |key: Seq<char>| ClientCommandView::Has(key))
    } else if name == "peek"@ {
        keyed_command(tokens, "peek", |key: Seq<char>| ClientCommandView::Peek(key))
    } else if name == "ttl"@ {
        ttl_command(tokens)
    } else if name == "size"@ {
        keyed_command(tokens, "size", |key: Seq<char>| ClientCommandView::Size(key))
    } else if name == "wipe"@ {
        bare_command(tokens, "wipe", ClientCommandView::Wipe)
    } else if name == "resize"@ {
        resize_command(tokens)
    } else if name == "policy"@ {
        policy_command(tokens)
    } else if name == "stats"@ {
        bare_command(tokens, "stats", ClientCommandView::Stats)
    } else if name == "h"@ || name == "help"@ {
        Ok(CommandView::Cli(CliCommand::Help))
    } else if name == "clear"@ {
        Ok(CommandView::Cli(CliCommand::Clear))
    } else if name == "q"@ || name == "quit"@ || name == "exit"@ {
        Ok(CommandView::Cli(CliCommand::Quit))
    } else {
        Err(CommandError::UnrecognizedCommand)
    }
}

/// The command that a line stands for.
pub open spec fn parse_of(line: Seq<char>) -> Result<CommandView, CommandError> {
    if tokenized(line).len() == 0 {
        Err(CommandError::EmptyInput)
    } else {
        command_of(tokenized(line))
    }
}

fn parse_ping(tokens: &Vec<String>) -> (result: Result<Command, CommandError>)
    ensures
        parsed(result) == bare_command(tokens.deep_view(), "ping", ClientCommandView::Ping),
{
    if tokens.len() != 1 {
        return Err(CommandError::InvalidArguments("ping"));
    }
    Ok(Command::Client(ClientCommand::Ping))
}

fn parse_version(tokens: &Vec<String>) -> (result: Result<Command, CommandError>)
    ensures
        parsed(result) == bare_command(tokens.deep_view(), "version", ClientCommandView::Version),
{
    if tokens.len() != 1 {
        return Err(CommandError::InvalidArguments("version"));
    }
    Ok(Command::Client(ClientCommand::Version))
}

fn parse_auth(tokens: &Vec<String>) -> (result: Result<Command, CommandError>)
    ensures
        parsed(result) == auth_command(tokens.deep_view()),
{
    if tokens.len() != 2 || !text_fits_frame(tokens[1].as_str()) {
        return Err(CommandError::InvalidArguments("auth"));
    }
    Ok(Command::Client(ClientCommand::Auth(tokens[1].clone())))
}

fn parse_get(tokens: &Vec<String>) -> (result: Result<Command, CommandError>)
    ensures
        parsed(result) == keyed_command(
            tokens.deep_view(),
            "get",
            |key: Seq<char>| ClientCommandView::Get(key),
        ),
{
    if tokens.len() != 2 || !is_valid_key(tokens[1].as_str()) {
        return Err(CommandError::InvalidArguments("get"));
    }
    Ok(Command::Client(ClientCommand::Get(tokens[1].clone())))
}

/// The time to live that `token` writes.
pub fn parse_ttl_value(token: &str) -> (ttl: Result<Option<u32>, CommandError>)
    ensures
        ttl == ttl_of(token@),
{
    match parse_u32(token) {
        Some(seconds) => if seconds == 0 {
            Ok(None)
        } else {
            Ok(Some(seconds))
        },
        None => Err(CommandError::InvalidTtl),
    }
}

fn parse_set(tokens: &Vec<String>) -> (result: Result<Command, CommandError>)
    ensures
        parsed(result) == set_command(tokens.deep_view()),
{
    if tokens.len() < 3 || tokens.len() > 4 || !is_valid_key(tokens[1].as_str())
        || !text_fits_frame(tokens[2].as_str()) {
        return Err(CommandError::InvalidArguments("set"));
    }
    let value = tokens[2].clone();
    let ttl = if tokens.len() == 4 {
        match parse_ttl_value(tokens[3].as_str()) {
            Ok(ttl) => ttl,
            Err(error) => {
                return Err(error);
            },
        }
    } else {
        None
    };
    Ok(Command::Client(ClientCommand::SetValue(tokens[1].clone(), value, ttl)))
}

fn parse_del(tokens: &Vec<String>) -> (result: Result<Command, CommandError>)
    ensures
        parsed(result) == keyed_command(
            tokens.deep_view(),
            "del",
            |key: Seq<char>| ClientCommandView::Del(key),
        ),
{
    if tokens.len() != 2 || !is_valid_key(tokens[1].as_str()) {
        return Err(CommandError::InvalidArguments("del"));
    }
    Ok(Command::Client(ClientCommand::Del(tokens[1].clone())))
}

fn parse_has(tokens: &Vec<String>) -> (result: Result<Command, CommandError>)
    ensures
        parsed(result) == keyed_command(
            tokens.deep_view(),
            "has",
            |key: Seq<char>| ClientCommandView::Has(key),
        ),
{
    if tokens.len() != 2 || !is_valid_key(tokens[1].as_str()) {
        return Err(CommandError::InvalidArguments("has"));
    }
    Ok(Command::Client(ClientCommand::Has(tokens[1].clone())))
}

fn parse_peek(tokens: &Vec<String>) -> (result: Result<Command, CommandError>)
    ensures
        parsed(result) == keyed_command(
            tokens.deep_view(),
            "peek",
            |key: Seq<char>| ClientCommandView::Peek(key),
        ),
{
    if tokens.len() != 2 || !is_valid_key(tokens[1].as_str()) {
        return Err(CommandError::InvalidArguments("peek"));
    }
    Ok(Command::Client(ClientCommand::Peek(tokens[1].clone())))
}

fn parse_ttl(tokens: &Vec<String>) -> (result: Result<Command, CommandError>)
    ensures
        parsed(result) == ttl_command(tokens.deep_view()),
{
    if tokens.len() < 2 || tokens.len() > 3 || !is_valid_key(tokens[1].as_str()) {
        return Err(CommandError::InvalidArguments("ttl"));
    }
    let ttl = if tokens.len() == 3 {
        match parse_ttl_value(tokens[2].as_str()) {
            Ok(ttl) => ttl,
            Err(error) => {
                return Err(error);
            },
        }
    } else {
        None
    };
    Ok(Command::Client(ClientCommand::Ttl(tokens[1].clone(), ttl)))
}

fn parse_size(tokens: &Vec<String>) -> (result: Result<Command, CommandError>)
    ensures
        parsed(result) == keyed_command(
            tokens.deep_view(),
            "size",
            |key: Seq<char>| ClientCommandView::Size(key),
        ),
{
    if tokens.len() != 2 || !is_valid_key(tokens[1].as_str()) {
        return Err(CommandError::InvalidArguments("size"));
    }
    Ok(Command::Client(ClientCommand::Size(tokens[1].clone())))
}

fn parse_wipe(tokens: &Vec<String>) -> (result: Result<Command, CommandError>)
    ensures
        parsed(result) == bare_command(tokens.deep_view(), "wipe", ClientCommandView::Wipe),
{
    if tokens.len() != 1 {
        return Err(CommandError::InvalidArguments("wipe"));
    }
    Ok(Command::Client(ClientCommand::Wipe))
}

/// The tokens from the second on as one text, with a space between
/// neighbours.
fn join_arguments(tokens: &Vec<String>) -> (text: String)
    requires
        tokens.len() >= 1,
    ensures
        text@ == joined(tokens.deep_view(), 1, tokens.len() as int),
{
    let mut text = String::new();
    let mut i: usize = 1;
    while i < tokens.len()
        invariant
            1 <= i <= tokens.len(),
            text@ == joined(tokens.deep_view(), 1, i as int),
        decreases tokens.len() - i,
    {
        if i > 1 {
            text.push(' ');
        }
        text.append(tokens[i].as_str());
        assert(tokens.deep_view()[i as int] == tokens[i as int]@);
        i += 1;
        assert(text@ =~= joined(tokens.deep_view(), 1, i as int));
    }
    text
}

/// Whether `text` holds no more digits than the size parser takes.
fn within_size_digits(text: &str) -> (within: bool)
    ensures
        within == (digit_count(text@) <= MAX_SIZE_DIGITS),
{
    let chars = chars_of(text);
    let mut count: usize = 0;
    let mut i: usize = 0;
    while i < chars.len()
        invariant
            i <= chars.len(),
            chars@ == text@,
            count == digit_count(chars@.take(i as int)),
            count <= MAX_SIZE_DIGITS,
        decreases chars.len() - i,
    {
        let ghost next = chars@.take(i + 1);
        assert(next.drop_last() == chars@.take(i as int));
        if '0' <= chars[i] && chars[i] <= '9' {
            count += 1;
            if count > MAX_SIZE_DIGITS {
                proof {
                    lemma_digit_count_grows(chars@, i + 1);
                }
                return false;
            }
        }
        i += 1;
    }
    assert(chars@.take(i as int) == chars@);
    true
}

/// A text holds no fewer digits than one of its prefixes.
proof fn lemma_digit_count_grows(text: Seq<char>, k: int)
    requires
        0 <= k <= text.len(),
    ensures
        digit_count(text.take(k)) <= digit_count(text),
    decreases text.len(),
{
    if k == text.len() {
        assert(text.take(k) == text);
    } else {
        lemma_digit_count_grows(text.drop_last(), k);
        assert(text.drop_last().take(k) == text.take(k));
    }
}

/// The command that `resize` gives for what the size parser made of its
/// arguments: a size is taken as it is, and without one the arguments were
/// no size.
pub fn resize_with(size: Option<u64>) -> (result: Result<Command, CommandError>)
    ensures
        parsed(result) == resize_of(size),
{
    match size {
        Some(bytes) => Ok(Command::Client(ClientCommand::Resize(bytes))),
        None => Err(CommandError::InvalidCacheSize),
    }
}

fn parse_resize(tokens: &Vec<String>) -> (result: Result<Command, CommandError>)
    ensures
        parsed(result) == resize_command(tokens.deep_view()),
{
    if tokens.len() < 2 {
        return Err(CommandError::InvalidArguments("resize"));
    }
    let text = join_arguments(tokens);
    if !within_size_digits(text.as_str()) {
        return Err(CommandError::InvalidCacheSize);
    }
    resize_with(parse_byte_size(text.as_str()))
}

fn parse_policy(tokens: &Vec<String>) -> (result: Result<Command, CommandError>)
    ensures
        parsed(result) == policy_command(tokens.deep_view()),
{
    if tokens.len() != 2 {
        return Err(CommandError::InvalidArguments("policy"));
    }
    match Policy::new(tokens[1].as_str()) {
        Ok(policy) => Ok(Command::Client(ClientCommand::Policy(policy))),
        Err(_) => Err(CommandError::InvalidPolicy),
    }
}

fn parse_stats(tokens: &Vec<String>) -> (result: Result<Command, CommandError>)
    ensures
        parsed(result) == bare_command(tokens.deep_view(), "stats", ClientCommandView::Stats),
{
    if tokens.len() != 1 {
        return Err(CommandError::InvalidArguments("stats"));
    }
    Ok(Command::Client(ClientCommand::Stats))
}

/// The command that `tokens` stand for; the first of them is the command's
/// name, in lower case.
pub fn parse_command(tokens: &Vec<String>) -> (result: Result<Command, CommandError>)
    requires
        tokens.len() > 0,
    ensures
        parsed(result) == command_of(tokens.deep_view()),
        result matches Ok(command) ==> command@.valid(),
{
    let name = chars_of(tokens[0].as_str());
    assert(name@ == tokens.deep_view()[0]);
    if same_chars(&name, "ping") {
        parse_ping(tokens)
    } else if same_chars(&name, "version") {
        parse_version(tokens)
    } else if same_chars(&name, "auth") {
        parse_auth(tokens)
    } else if same_chars(&name, "get") {
        parse_get(tokens)
    } else if same_chars(&name, "set") {
        parse_set(tokens)
    } else if same_chars(&name, "del") {
        parse_del(tokens)
    } else if same_chars(&name, "has") {
        parse_has(tokens)
    } else if same_chars(&name, "peek") {
        parse_peek(tokens)
    } else if same_chars(&name, "ttl") {
        parse_ttl(tokens)
    } else if same_chars(&name, "size") {
        parse_size(tokens)
    } else if same_chars(&name, "wipe") {
        parse_wipe(tokens)
    } else if same_chars(&name, "resize") {
        parse_resize(tokens)
    } else if same_chars(&name, "policy") {
        parse_policy(tokens)
    } else if same_chars(&name, "stats") {
        parse_stats(tokens)
    } else if same_chars(&name, "h") || same_chars(&name, "help") {
        Ok(Command::Cli(CliCommand::Help))
    } else if same_chars(&name, "clear") {
        Ok(Command::Cli(CliCommand::Clear))
    } else if same_chars(&name, "q") || same_chars(&name, "quit") || same_chars(&name, "exit") {
        Ok(Command::Cli(CliCommand::Quit))
    } else {
        Err(CommandError::UnrecognizedCommand)
    }
}

/// `digits` with zeros put before it until it is `width` characters long.
pub open spec fn zero_padded(digits: Seq<char>, width: nat) -> Seq<char> {
    if digits.len() >= width {
        digits
    } else {
        Seq::new((width - digits.len()) as nat, |i: int| '0') + digits
    }
}

/// The prompt of a shell connected to `host` at `port`: the address in
/// green, the port with four digits at least, and `> ` after it.
pub open spec fn prompt_text(host: Seq<char>, port: u32) -> Seq<char> {
    "\x1B[32m"@ + host + ":"@ + zero_padded(decimal(port as nat), 4) + "\x1B[0m> "@
}

/// The templates of the commands, in the order in which a parser registers
/// them.
pub open spec fn command_templates() -> Seq<Seq<char>> {
    seq![
        "ping"@,
        "version"@,
        "auth <token>"@,
        "get <key>"@,
        "set <key> <value> [ttl]"@,
        "del <key>"@,
        "has <key>"@,
        "peek <key>"@,
        "ttl <key> [ttl]"@,
        "size <key>"@,
        "wipe"@,
        "resize <size>"@,
        "policy <policy>"@,
        "stats"@,
        "help"@,
        "clear"@,
        "quit"@,
        "exit"@,
    ]
}

/// What reading a line came to, seen from the parser: the command of the
/// line, or the reason why there is none. A closed terminal is an
/// interruption, and a terminal that failed is an internal error.
pub open spec fn read_of(outcome: Result<Seq<char>, LineReaderError>) -> Result<
    CommandView,
    CommandError,
> {
    match outcome {
        Ok(line) => parse_of(line),
        Err(LineReaderError::Closed) => Err(CommandError::Interrupted),
        Err(LineReaderError::Internal) => Err(CommandError::Internal),
    }
}

/// The parser of one session. It owns the line reader, so that the
/// templates it registers and the commands it parses stay the same set.
pub struct CommandParser {
    line_reader: LineReader,
    reading: bool,
}

/// What a parser holds: its line reader, and whether it goes on reading.
pub struct CommandParserView {
    pub line_reader: LineReaderView,
    pub reading: bool,
}

impl View for CommandParser {
    type V = CommandParserView;

    closed spec fn view(&self) -> CommandParserView {
        CommandParserView { line_reader: self.line_reader@, reading: self.reading }
    }
}

/// The prompt for `host` and `port`.
fn make_prompt(host: &str, port: u32) -> (prompt: String)
    ensures
        prompt@ == prompt_text(host@, port),
{
    let digits = decimal_text(port as u64);
    let count = digits.as_str().unicode_len();
    let mut prompt = "\x1B[32m".to_owned();
    prompt.append(host);
    prompt.append(":");
    let ghost start = prompt@;
    let mut written: usize = count;
    while written < 4
        invariant
            count <= written,
            written <= 4 || written == count,
            prompt@ == start + Seq::new((written - count) as nat, |i: int| '0'),
        decreases 4 - written,
    {
        prompt.push('0');
        written += 1;
        assert(prompt@ =~= start + Seq::new((written - count) as nat, |i: int| '0'));
    }
    prompt.append(digits.as_str());
    prompt.append("\x1B[0m> ");
    assert(prompt@ =~= prompt_text(host@, port));
    prompt
}

impl CommandParser {
    /// The line reader is well formed.
    pub open spec fn wf(&self) -> bool {
        self@.line_reader.wf()
    }

    /// A parser for a shell connected to `host` at `port`: it is reading, its
    /// history is empty, and the templates of all commands are registered.
    pub fn new(host: &str, port: u32) -> (parser: CommandParser)
        ensures
            parser@ == (CommandParserView {
                line_reader: LineReaderView {
                    prompt: prompt_text(host@, port),
                    history: crate::line_reader::history::HistoryView::empty(),
                    hints: command_templates(),
                },
                reading: true,
            }),
            parser.wf(),
    {
        let mut line_reader = LineReader::new(make_prompt(host, port));
        line_reader.register_hint("ping");
        line_reader.register_hint("version");
        line_reader.register_hint("auth <token>");
        line_reader.register_hint("get <key>");
        line_reader.register_hint("set <key> <value> [ttl]");
        line_reader.register_hint("del <key>");
        line_reader.register_hint("has <key>");
        line_reader.register_hint("peek <key>");
        line_reader.register_hint("ttl <key> [ttl]");
        line_reader.register_hint("size <key>");
        line_reader.register_hint("wipe");
        line_reader.register_hint("resize <size>");
        line_reader.register_hint("policy <policy>");
        line_reader.register_hint("stats");
        line_reader.register_hint("help");
        line_reader.register_hint("clear");
        line_reader.register_hint("quit");
        line_reader.register_hint("exit");
        assert(line_reader@.hints =~= command_templates());
        CommandParser { line_reader, reading: true }
    }

    /// Whether the shell goes on reading lines.
    pub fn reading(&self) -> (reading: bool)
        ensures
            reading == self@.reading,
    {
        self.reading
    }

    /// Stops reading.
    pub fn close(&mut self)
        ensures
            final(self)@ == (CommandParserView {
                line_reader: old(self)@.line_reader,
                reading: false,
            }),
    {
        self.reading = false;
    }

    /// Turns what reading a line came to into a command. Where the terminal
    /// was closed or failed, the parser stops reading.
    pub fn read(&mut self, outcome: Result<String, LineReaderError>) -> (result: Result<
        Command,
        CommandError,
    >)
        ensures
            parsed(result) == read_of(
                match outcome {
                    Ok(line) => Ok(line@),
                    Err(error) => Err(error),
                },
            ),
            final(self)@ == (CommandParserView {
                line_reader: old(self)@.line_reader,
                reading: old(self)@.reading && outcome is Ok,
            }),
            result matches Ok(command) ==> command@.valid(),
    {
        match outcome {
            Ok(line) => self.parse(line.as_str()),
            Err(LineReaderError::Closed) => {
                self.reading = false;
                Err(CommandError::Interrupted)
            },
            Err(LineReaderError::Internal) => {
                self.reading = false;
                Err(CommandError::Internal)
            },
        }
    }

    /// The tokens of a line, the first of them in lower case.
    pub fn parse_line(&self, line: &str) -> (tokens: Result<Vec<String>, CommandError>)
        ensures
            match tokens {
                Ok(tokens) => tokens.len() > 0 && tokens.deep_view() == tokenized(line@),
                Err(error) => error == CommandError::EmptyInput && tokenized(line@).len() == 0,
            },
    {
        tokenize(line)
    }

    /// The command that a line stands for.
    pub fn parse(&self, line: &str) -> (result: Result<Command, CommandError>)
        ensures
            parsed(result) == parse_of(line@),
            result matches Ok(command) ==> command@.valid(),
    {
        match self.parse_line(line) {
            Ok(tokens) => parse_command(&tokens),
            Err(error) => Err(error),
        }
    }

    /// The lines that list the commands: each template, in the order of
    /// registration, with `prefix` before it.
    pub fn hint_lines(&self, prefix: Option<&str>) -> (lines: Vec<String>)
        ensures
            lines.len() == self@.line_reader.hints.len(),
            forall|i: int|
                0 <= i < lines.len() ==> (#[trigger] lines[i])@ == (match prefix {
                    Some(p) => p@,
                    None => Seq::empty(),
                }) + self@.line_reader.hints[i],
    {
        let prefix: &str = match prefix {
            Some(p) => p,
            None => "",
        };
        proof {
            reveal_strlit("");
        }
        let hints = self.line_reader.hints();
        let mut lines: Vec<String> = Vec::new();
        let mut i: usize = 0;
        while i < hints.len()
            invariant
                i <= hints.len(),
                lines.len() == i,
                hints@.len() == self@.line_reader.hints.len(),
                forall|j: int|
                    0 <= j < hints@.len() ==> (#[trigger] hints@[j])@ == self@.line_reader.hints[j],
                forall|j: int|
                    0 <= j < i ==> (#[trigger] lines[j])@ == prefix@ + self@.line_reader.hints[j],
            decreases hints.len() - i,
        {
            let mut line = prefix.to_owned();
            line.append(hints[i]);
            lines.push(line);
            i += 1;
        }
        lines
    }

    /// The prompt shown before each line.
    pub fn prompt(&self) -> (prompt: &str)
        ensures
            prompt@ == self@.line_reader.prompt,
    {
        self.line_reader.prompt()
    }

    /// Takes one step of the edit of a line, with the parser's own history and
    /// templates.
    pub fn handle_event(&mut self, line: &mut Line, event: ReadEvent) -> (state: ReadState)
        requires
            old(self).wf(),
            old(line).wf(),
        ensures
            state == crate::line_reader::state_after(event),
            final(line)@ == old(self)@.line_reader.line_after(old(line)@, event),
            final(self)@ == (CommandParserView {
                line_reader: old(self)@.line_reader.with_history(
                    old(self)@.line_reader.history_after(old(line)@, event),
                ),
                reading: old(self)@.reading,
            }),
            final(self).wf(),
            final(line).wf(),
    {
        self.line_reader.handle_event(line, event)
    }

    /// The text that redraws the terminal's row for `line`.
    pub fn render(&self, line: &Line) -> (row: String)
        ensures
            row@ == self@.line_reader.row(line@),
    {
        self.line_reader.render(line)
    }
}

} // verus!
