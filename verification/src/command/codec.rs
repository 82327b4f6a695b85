//! The wire format: how a command becomes a frame of bytes, and how the
//! frame that answers it becomes a response.
//!
//! A command's frame is one byte that tells the command, followed by its
//! arguments in order. A text travels as the number of bytes of its UTF-8
//! form, in 32 bits, followed by those bytes; a number travels in 32 or 64
//! bits. All numbers have their low byte first.
//!
//! A response's frame is one byte that tells whether the server accepted the
//! command, 1 if it did and 0 if not, followed by what it answers. To an
//! accepted `stats` the answer is four numbers of 64 bits and the name of the
//! policy; every other answer is one text.

use crate::command::client::{fits_frame, ClientCommand, ClientCommandView};
use crate::command::error::CommandError;
use crate::response_sheet::{ResponseSheet, ResponseView};
use crate::text::{decimal, push_decimal};
use vstd::prelude::*;
use vstd::slice::slice_subrange;
use vstd::string::*;
use vstd::utf8::{decode_utf8, encode_utf8, valid_utf8};

verus! {

/// The byte that tells `ping`.
pub const PING: u8 = 0;

/// The byte that tells `version`.
pub const VERSION: u8 = 1;

/// The byte that tells `auth`.
pub const AUTH: u8 = 2;

/// The byte that tells `get`.
pub const GET: u8 = 3;

/// The byte that tells `set`.
pub const SET: u8 = 4;

/// The byte that tells `del`.
pub const DEL: u8 = 5;

/// The byte that tells `has`.
pub const HAS: u8 = 6;

/// The byte that tells `peek`.
pub const PEEK: u8 = 7;

/// The byte that tells `ttl`.
pub const TTL: u8 = 8;

/// The byte that tells `size`.
pub const SIZE: u8 = 9;

/// The byte that tells `wipe`.
pub const WIPE: u8 = 10;

/// The byte that tells `resize`.
pub const RESIZE: u8 = 11;

/// The byte that tells `policy`.
pub const POLICY: u8 = 12;

/// The byte that tells `stats`.
pub const STATS: u8 = 13;

/// The flag of a response to a command that the server refused.
pub const REFUSED: u8 = 0;

/// The flag of a response to a command that the server accepted.
pub const ACCEPTED: u8 = 1;

/// The number of decimals with which a report writes an amount of memory.
pub const MEMORY_DECIMALS: u8 = 2;

/// `value` in `width` bytes, the low byte first. A value too large for the
/// width loses its high bytes.
pub open spec fn le_bytes(value: nat, width: nat) -> Seq<u8>
    decreases width,
{
    if width == 0 {
        Seq::empty()
    } else {
        seq![(value % 256) as u8] + le_bytes(value / 256, (width - 1) as nat)
    }
}

/// The number that `bytes` write, the low byte first.
pub open spec fn le_value(bytes: Seq<u8>) -> nat
    decreases bytes.len(),
{
    if bytes.len() == 0 {
        0
    } else {
        bytes[0] as nat + 256 * le_value(bytes.drop_first())
    }
}

/// 256 to the power of `n`.
pub open spec fn pow256(n: nat) -> nat
    decreases n,
{
    if n == 0 {
        1
    } else {
        256 * pow256((n - 1) as nat)
    }
}

/// A number written in as many bytes as it needs, or more, is read back as
/// it was.
pub proof fn lemma_le_bytes_read_back(value: nat, width: nat)
    requires
        value < pow256(width),
    ensures
        le_bytes(value, width).len() == width,
        le_value(le_bytes(value, width)) == value,
    decreases width,
{
    if width > 0 {
        lemma_le_bytes_read_back(value / 256, (width - 1) as nat);
        assert(le_bytes(value, width).drop_first() == le_bytes(value / 256, (width - 1) as nat));
    }
}

/// The field that carries a text: the length of its UTF-8 form in 32 bits,
/// then that form.
pub open spec fn text_field(text: Seq<char>) -> Seq<u8> {
    le_bytes(encode_utf8(text).len(), 4) + encode_utf8(text)
}

/// The field that carries a time to live; zero stands for none.
pub open spec fn ttl_field(ttl: Option<u32>) -> Seq<u8> {
    match ttl {
        Some(seconds) => le_bytes(seconds as nat, 4),
        None => le_bytes(0, 4),
    }
}

/// The byte that tells a command.
pub open spec fn tag(command: ClientCommandView) -> u8 {
    match command {
        ClientCommandView::Ping => PING,
        ClientCommandView::Version => VERSION,
        ClientCommandView::Auth(_) => AUTH,
        ClientCommandView::Get(_) => GET,
        ClientCommandView::SetValue(_, _, _) => SET,
        ClientCommandView::Del(_) => DEL,
        ClientCommandView::Has(_) => HAS,
        ClientCommandView::Peek(_) => PEEK,
        ClientCommandView::Ttl(_, _) => TTL,
        ClientCommandView::Size(_) => SIZE,
        ClientCommandView::Wipe => WIPE,
        ClientCommandView::Resize(_) => RESIZE,
        ClientCommandView::Policy(_) => POLICY,
        ClientCommandView::Stats => STATS,
    }
}

/// The fields that carry a command's arguments, in order.
pub open spec fn arguments(command: ClientCommandView) -> Seq<u8> {
    match command {
        ClientCommandView::Auth(token) => text_field(token),
        ClientCommandView::Get(key) => text_field(key),
        ClientCommandView::SetValue(key, value, ttl) => text_field(key) + text_field(value)
            + ttl_field(ttl),
        ClientCommandView::Del(key) => text_field(key),
        ClientCommandView::Has(key) => text_field(key),
        ClientCommandView::Peek(key) => text_field(key),
        ClientCommandView::Ttl(key, ttl) => text_field(key) + ttl_field(ttl),
        ClientCommandView::Size(key) => text_field(key),
        ClientCommandView::Resize(size) => le_bytes(size as nat, 8),
        ClientCommandView::Policy(name) => text_field(name),
        _ => Seq::empty(),
    }
}

/// The frame of a command.
pub open spec fn frame(command: ClientCommandView) -> Seq<u8> {
    seq![tag(command)] + arguments(command)
}

/// Appends `value` in `width` bytes, the low byte first.
fn put_le(out: &mut Vec<u8>, value: u64, width: u8)
    ensures
        final(out)@ == old(out)@ + le_bytes(value as nat, width as nat),
    decreases width,
{
    if width > 0 {
        out.push((value % 256) as u8);
        put_le(out, value / 256, width - 1);
    }
    assert(out@ =~= old(out)@ + le_bytes(value as nat, width as nat));
}

/// Appends the field that carries `text`.
fn put_text(out: &mut Vec<u8>, text: &str)
    requires
        fits_frame(text@),
    ensures
        final(out)@ == old(out)@ + text_field(text@),
{
    let bytes = text.as_bytes();
    put_le(out, bytes.len() as u64, 4);
    let ghost lead = out@;
    let mut i: usize = 0;
    while i < bytes.len()
        invariant
            i <= bytes.len(),
            out@ == lead + bytes@.take(i as int),
        decreases bytes.len() - i,
    {
        out.push(bytes[i]);
        i += 1;
        assert(bytes@.take(i as int) == bytes@.take(i - 1).push(bytes@[i - 1]));
    }
    assert(bytes@.take(bytes@.len() as int) == bytes@);
    assert(out@ =~= old(out)@ + text_field(text@));
}

/// Appends the field that carries a time to live.
fn put_ttl(out: &mut Vec<u8>, ttl: &Option<u32>)
    ensures
        final(out)@ == old(out)@ + ttl_field(*ttl),
{
    match ttl {
        Some(seconds) => put_le(out, *seconds as u64, 4),
        None => put_le(out, 0, 4),
    }
}

/// The frame that carries `command` to the server. Every command that the
/// parser lets through has one.
pub fn encode(command: &ClientCommand) -> (bytes: Vec<u8>)
    requires
        command.valid(),
    ensures
        bytes@ == frame(command@),
{
    let mut bytes: Vec<u8> = Vec::new();
    match command {
        ClientCommand::Ping => bytes.push(PING),
        ClientCommand::Version => bytes.push(VERSION),
        ClientCommand::Auth(token) => {
            bytes.push(AUTH);
            put_text(&mut bytes, token.as_str());
        },
        ClientCommand::Get(key) => {
            bytes.push(GET);
            put_text(&mut bytes, key.as_str());
        },
        ClientCommand::SetValue(key, value, ttl) => {
            bytes.push(SET);
            put_text(&mut bytes, key.as_str());
            put_text(&mut bytes, value.as_str());
            put_ttl(&mut bytes, ttl);
        },
        ClientCommand::Del(key) => {
            bytes.push(DEL);
            put_text(&mut bytes, key.as_str());
        },
        ClientCommand::Has(key) => {
            bytes.push(HAS);
            put_text(&mut bytes, key.as_str());
        },
        ClientCommand::Peek(key) => {
            bytes.push(PEEK);
            put_text(&mut bytes, key.as_str());
        },
        ClientCommand::Ttl(key, ttl) => {
            bytes.push(TTL);
            put_text(&mut bytes, key.as_str());
            put_ttl(&mut bytes, ttl);
        },
        ClientCommand::Size(key) => {
            bytes.push(SIZE);
            put_text(&mut bytes, key.as_str());
        },
        ClientCommand::Wipe => bytes.push(WIPE),
        ClientCommand::Resize(size) => {
            bytes.push(RESIZE);
            put_le(&mut bytes, *size, 8);
        },
        ClientCommand::Policy(policy) => {
            bytes.push(POLICY);
            put_text(&mut bytes, policy.name());
        },
        ClientCommand::Stats => bytes.push(STATS),
    }
    assert(bytes@ =~= frame(command@));
    bytes
}

/// What `kwik::fmt::memory` writes for a number of bytes and a number of
/// decimals: the amount in the largest binary unit that it fills, such as
/// `1.18 MiB`.
pub uninterp spec fn memory_text(bytes: u64, decimals: u8) -> Seq<char>;

/// What `kwik::fmt::number` writes for a number: its digits in groups of
/// three with commas between them, such as `1,234,567`.
pub uninterp spec fn number_text(value: u64) -> Seq<char>;

/// Calls `kwik::fmt::memory`: the text depends on the two numbers alone.
#[verifier::external_body]
fn format_memory(bytes: u64, decimals: u8) -> (text: String)
    ensures
        text@ == memory_text(bytes, decimals),
{
    kwik::fmt::memory(bytes, Some(usize::from(decimals)))
}

/// Calls `kwik::fmt::number`: the text depends on the number alone.
#[verifier::external_body]
fn format_number(value: u64) -> (text: String)
    ensures
        text@ == number_text(value),
{
    kwik::fmt::number(value)
}

/// Calls `core::str::from_utf8`: bytes that are valid UTF-8 are read as the
/// text they encode, and other bytes are no text.
#[verifier::external_body]
fn text_from_utf8(bytes: &[u8]) -> (text: Option<&str>)
    ensures
        match text {
            Some(t) => valid_utf8(bytes@) && t@ == decode_utf8(bytes@),
            None => !valid_utf8(bytes@),
        },
{
    core::str::from_utf8(bytes).ok()
}

/// What an accepted `stats` answers.
#[derive(Debug, Clone, PartialEq, Eq)]
pub struct Stats {
    /// The number of bytes that the cache may hold.
    pub max_size: u64,
    /// The number of bytes that the cache holds.
    pub used_size: u64,
    /// The number of objects in the cache.
    pub num_objects: u64,
    /// The number of lookups since the server started.
    pub total_gets: u64,
    /// The name of the policy in force.
    pub policy: String,
}

/// What an answer to `stats` holds.
pub struct StatsView {
    pub max_size: u64,
    pub used_size: u64,
    pub num_objects: u64,
    pub total_gets: u64,
    pub policy: Seq<char>,
}

impl View for Stats {
    type V = StatsView;

    open spec fn view(&self) -> StatsView {
        StatsView {
            max_size: self.max_size,
            used_size: self.used_size,
            num_objects: self.num_objects,
            total_gets: self.total_gets,
            policy: self.policy@,
        }
    }
}

/// The report on the cache, put together from its parts: a heading, a line
/// for each number and a line for the policy. The two sizes are given as
/// amounts of memory, with the number of bytes in brackets behind.
pub open spec fn report_of(
    max_memory: Seq<char>,
    max_size: u64,
    used_memory: Seq<char>,
    used_size: u64,
    objects: Seq<char>,
    gets: Seq<char>,
    policy: Seq<char>,
) -> Seq<char> {
    "paper stats\n"@ + "max_size:\t"@ + max_memory + " ("@ + decimal(max_size as nat) + " B)\n"@
        + "used_size:\t"@ + used_memory + " ("@ + decimal(used_size as nat) + " B)\n"@
        + "num_objects:\t"@ + objects + "\n"@ + "total_gets:\t"@ + gets + "\n"@
        + "policy:\t\t"@ + policy
}

/// The report on the cache that `stats` are shown as.
pub open spec fn report_text(stats: StatsView) -> Seq<char> {
    report_of(
        memory_text(stats.max_size, MEMORY_DECIMALS),
        stats.max_size,
        memory_text(stats.used_size, MEMORY_DECIMALS),
        stats.used_size,
        number_text(stats.num_objects),
        number_text(stats.total_gets),
        stats.policy,
    )
}

/// Puts the report on the cache together from its parts.
pub fn assemble_report(
    max_memory: &str,
    max_size: u64,
    used_memory: &str,
    used_size: u64,
    objects: &str,
    gets: &str,
    policy: &str,
) -> (report: String)
    ensures
        report@ == report_of(
            max_memory@,
            max_size,
            used_memory@,
            used_size,
            objects@,
            gets@,
            policy@,
        ),
{
    let mut report = "paper stats\n".to_owned();
    report.append("max_size:\t");
    report.append(max_memory);
    report.append(" (");
    push_decimal(&mut report, max_size as u128);
    report.append(" B)\n");
    report.append("used_size:\t");
    report.append(used_memory);
    report.append(" (");
    push_decimal(&mut report, used_size as u128);
    report.append(" B)\n");
    report.append("num_objects:\t");
    report.append(objects);
    report.append("\n");
    report.append("total_gets:\t");
    report.append(gets);
    report.append("\n");
    report.append("policy:\t\t");
    report.append(policy);
    report
}

/// The report on the cache that `stats` are shown as.
pub fn report(stats: &Stats) -> (report: String)
    ensures
        report@ == report_text(stats@),
{
    let max_memory = format_memory(stats.max_size, MEMORY_DECIMALS);
    let used_memory = format_memory(stats.used_size, MEMORY_DECIMALS);
    let objects = format_number(stats.num_objects);
    let gets = format_number(stats.total_gets);
    assemble_report(
        max_memory.as_str(),
        stats.max_size,
        used_memory.as_str(),
        stats.used_size,
        objects.as_str(),
        gets.as_str(),
        stats.policy.as_str(),
    )
}

/// The text that the field `field` carries, if it is a text's field and
/// nothing more: four bytes that give the number of bytes that follow, and
/// those bytes in valid UTF-8.
pub open spec fn field_text(field: Seq<u8>) -> Option<Seq<char>> {
    if field.len() >= 4 && le_value(field.take(4)) == field.len() - 4 && valid_utf8(field.skip(4)) {
        Some(decode_utf8(field.skip(4)))
    } else {
        None
    }
}

/// The number of bytes that the four numbers of an answer to `stats` take.
pub const STATS_NUMBERS: usize = 32;

/// What the answer `body` to an accepted `stats` holds, if it is such an
/// answer and nothing more.
pub open spec fn body_stats(body: Seq<u8>) -> Option<StatsView> {
    if body.len() < STATS_NUMBERS {
        None
    } else {
        match field_text(body.skip(STATS_NUMBERS as int)) {
            Some(policy) => Some(
                StatsView {
                    max_size: le_value(body.subrange(0, 8)) as u64,
                    used_size: le_value(body.subrange(8, 16)) as u64,
                    num_objects: le_value(body.subrange(16, 24)) as u64,
                    total_gets: le_value(body.subrange(24, 32)) as u64,
                    policy,
                },
            ),
            None => None,
        }
    }
}

/// Whether a response to `command` with the flag `flag` carries numbers
/// about the cache rather than one text.
pub open spec fn answers_stats(command: ClientCommandView, flag: u8) -> bool {
    command is Stats && flag == ACCEPTED
}

/// The response that the frame `bytes` gives to `command`, if `bytes` are a
/// whole frame of the kind that answers the command, and nothing more.
pub open spec fn decoded(command: ClientCommandView, bytes: Seq<u8>) -> Option<ResponseView> {
    if bytes.len() == 0 || (bytes[0] != ACCEPTED && bytes[0] != REFUSED) {
        None
    } else if answers_stats(command, bytes[0]) {
        match body_stats(bytes.skip(1)) {
            Some(stats) => Some(ResponseView { is_ok: true, response: report_text(stats) }),
            None => None,
        }
    } else {
        match field_text(bytes.skip(1)) {
            Some(text) => Some(ResponseView { is_ok: bytes[0] == ACCEPTED, response: text }),
            None => None,
        }
    }
}

/// The frame of a response that carries one text.
pub open spec fn text_response(is_ok: bool, text: Seq<char>) -> Seq<u8> {
    seq![if is_ok {
        ACCEPTED
    } else {
        REFUSED
    }] + text_field(text)
}

/// The number that the `width` bytes of `bytes` from index `at` write, the
/// low byte first.
fn get_le(bytes: &[u8], at: usize, width: usize) -> (value: u64)
    requires
        width <= 8,
        at + width <= bytes.len(),
    ensures
        value == le_value(bytes@.subrange(at as int, at + width)),
        value < pow256(width as nat),
    decreases width,
{
    let ghost part = bytes@.subrange(at as int, at + width);
    if width == 0 {
        return 0;
    }
    let rest = get_le(bytes, at + 1, width - 1);
    assert(part.drop_first() == bytes@.subrange(at + 1, at + 1 + (width - 1)));
    proof {
        reveal_with_fuel(pow256, 9);
    }
    bytes[at] as u64 + 256 * rest
}

/// Reads the field of a text that takes up all of `field`.
fn read_text(field: &[u8]) -> (text: Option<String>)
    ensures
        match text {
            Some(t) => field_text(field@) == Some(t@),
            None => field_text(field@) is None,
        },
{
    if field.len() < 4 {
        return None;
    }
    let length = get_le(field, 0, 4);
    assert(field@.subrange(0, 4) == field@.take(4));
    if length != (field.len() - 4) as u64 {
        return None;
    }
    let coded = slice_subrange(field, 4, field.len());
    assert(coded@ == field@.skip(4));
    match text_from_utf8(coded) {
        Some(t) => Some(t.to_owned()),
        None => None,
    }
}

/// Reads the answer to an accepted `stats` that takes up all of `body`.
pub fn read_stats(body: &[u8]) -> (stats: Option<Stats>)
    ensures
        match stats {
            Some(s) => body_stats(body@) == Some(s@),
            None => body_stats(body@) is None,
        },
{
    if body.len() < STATS_NUMBERS {
        return None;
    }
    let field = slice_subrange(body, STATS_NUMBERS, body.len());
    assert(field@ == body@.skip(STATS_NUMBERS as int));
    match read_text(field) {
        Some(policy) => Some(
            Stats {
                max_size: get_le(body, 0, 8),
                used_size: get_le(body, 8, 8),
                num_objects: get_le(body, 16, 8),
                total_gets: get_le(body, 24, 8),
                policy,
            },
        ),
        None => None,
    }
}

/// Reads the frame that answers `command`. Bytes that are no whole frame of
/// the kind that answers the command, whether they stop short, run on or
/// hold what they should not, are an internal error.
pub fn decode_response(command: &ClientCommand, bytes: &[u8]) -> (result: Result<
    ResponseSheet,
    CommandError,
>)
    ensures
        match decoded(command@, bytes@) {
            Some(response) => result matches Ok(sheet) && sheet@ == response,
            None => result == Err::<ResponseSheet, CommandError>(CommandError::Internal),
        },
{
    if bytes.len() == 0 {
        return Err(CommandError::Internal);
    }
    let flag = bytes[0];
    if flag != ACCEPTED && flag != REFUSED {
        return Err(CommandError::Internal);
    }
    let body = slice_subrange(bytes, 1, bytes.len());
    assert(body@ == bytes@.skip(1));
    if flag == ACCEPTED && matches!(command, ClientCommand::Stats) {
        match read_stats(body) {
            Some(stats) => Ok(ResponseSheet::new(true, report(&stats))),
            None => Err(CommandError::Internal),
        }
    } else {
        match read_text(body) {
            Some(text) => Ok(ResponseSheet::new(flag == ACCEPTED, text)),
            None => Err(CommandError::Internal),
        }
    }
}

/// A response that carries a text is read back as it was written: the flag
/// and the text come out as they went in, whatever the command, as long as
/// the response is not an accepted `stats`.
pub proof fn lemma_text_response_reads_back(
    command: ClientCommandView,
    is_ok: bool,
    text: Seq<char>,
)
    requires
        fits_frame(text),
        !(is_ok && command is Stats),
    ensures
        decoded(command, text_response(is_ok, text)) == Some(
            ResponseView { is_ok, response: text },
        ),
{
    broadcast use vstd::utf8::encode_utf8_valid_utf8, vstd::utf8::encode_utf8_decode_utf8;

    let coded = encode_utf8(text);
    let field = text_field(text);
    let bytes = text_response(is_ok, text);
    reveal_with_fuel(pow256, 5);
    lemma_le_bytes_read_back(coded.len(), 4);
    assert(bytes.skip(1) == field);
    assert(field.take(4) == le_bytes(coded.len(), 4));
    assert(field.skip(4) == coded);
}

/// No frame is the start of another: a frame that answers a command, cut
/// short anywhere, answers it no longer.
pub proof fn lemma_cut_frame_is_rejected(command: ClientCommandView, bytes: Seq<u8>, n: int)
    requires
        decoded(command, bytes) is Some,
        0 <= n < bytes.len(),
    ensures
        decoded(command, bytes.take(n)) is None,
{
    let cut = bytes.take(n);
    if n > 0 {
        assert(cut[0] == bytes[0]);
        let body = bytes.skip(1);
        let cut_body = cut.skip(1);
        assert(cut_body == body.take(n - 1));
        if answers_stats(command, bytes[0]) {
            if cut_body.len() >= STATS_NUMBERS {
                let field = body.skip(STATS_NUMBERS as int);
                let cut_field = cut_body.skip(STATS_NUMBERS as int);
                assert(cut_field == field.take(n - 1 - STATS_NUMBERS));
                if cut_field.len() >= 4 {
                    assert(cut_field.take(4) == field.take(4));
                }
            }
        } else {
            if cut_body.len() >= 4 {
                assert(cut_body.take(4) == body.take(4));
            }
        }
    }
}

/// The number of bytes before the text's own bytes in a frame that answers
/// `command` under the flag `flag`: the flag, the numbers about the cache if
/// there are any, and the length of the text.
pub open spec fn lead_len(command: ClientCommandView, flag: u8) -> nat {
    if answers_stats(command, flag) {
        (1 + STATS_NUMBERS + 4) as nat
    } else {
        5
    }
}

/// The number of bytes to read next, after `received`, of a frame that
/// answers `command`: the flag first, then what is left of the lead, then what
/// is left of the text. It is zero once the frame is whole, and also where
/// the flag is none, since no frame starts that way.
pub open spec fn awaited(command: ClientCommandView, received: Seq<u8>) -> nat {
    if received.len() == 0 {
        1
    } else if received[0] != ACCEPTED && received[0] != REFUSED {
        0
    } else {
        let lead = lead_len(command, received[0]);
        if received.len() < lead {
            (lead - received.len()) as nat
        } else {
            let whole = lead + le_value(received.subrange(lead - 4, lead as int));
            if received.len() < whole {
                (whole - received.len()) as nat
            } else {
                0
            }
        }
    }
}

/// The number of bytes to read next of the frame that answers `command`,
/// of which `received` have come in.
pub fn bytes_awaited(command: &ClientCommand, received: &[u8]) -> (count: u64)
    ensures
        count == awaited(command@, received@),
{
    if received.len() == 0 {
        return 1;
    }
    let flag = received[0];
    if flag != ACCEPTED && flag != REFUSED {
        return 0;
    }
    let lead: usize = if flag == ACCEPTED && matches!(command, ClientCommand::Stats) {
        1 + STATS_NUMBERS + 4
    } else {
        5
    };
    if received.len() < lead {
        return (lead - received.len()) as u64;
    }
    proof {
        reveal_with_fuel(pow256, 5);
    }
    let whole: u64 = lead as u64 + get_le(received, lead - 4, 4);
    if (received.len() as u64) < whole {
        whole - received.len() as u64
    } else {
        0
    }
}

/// Reading as many bytes as are awaited, again and again, ends with the
/// frame and not beyond it: of a frame that answers the command nothing is
/// awaited, and of each shorter start of it something is, and no more than
/// the frame still holds.
pub proof fn lemma_awaited_leads_to_frame(command: ClientCommandView, bytes: Seq<u8>, n: int)
    requires
        decoded(command, bytes) is Some,
        0 <= n <= bytes.len(),
    ensures
        awaited(command, bytes) == 0,
        n < bytes.len() ==> 0 < awaited(command, bytes.take(n)) <= bytes.len() - n,
{
    let lead = lead_len(command, bytes[0]);
    let body = bytes.skip(1);
    if answers_stats(command, bytes[0]) {
        let field = body.skip(STATS_NUMBERS as int);
        assert(field.take(4) == bytes.subrange(lead - 4, lead as int));
    } else {
        assert(body.take(4) == bytes.subrange(lead - 4, lead as int));
    }
    if 0 < n < bytes.len() {
        let cut = bytes.take(n);
        assert(cut[0] == bytes[0]);
        if n >= lead {
            assert(cut.subrange(lead - 4, lead as int) == bytes.subrange(lead - 4, lead as int));
        }
    }
}

} // verus!
