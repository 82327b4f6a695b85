//! Splitting a line into tokens.
//!
//! Tokens are taken from left to right. Whitespace between tokens is
//! skipped. Where a token starts with a double quote that is closed further
//! on, the token runs to the closing quote: inside the quotes whitespace
//! counts as text, and a quote that follows a backslash does not close.
//! Every other token runs to the next whitespace or to the end of the line.
//! Quotes around a token are then taken off, and each backslash-quote pair
//! left in it becomes a plain quote.

use crate::command::error::CommandError;
use crate::text::{ascii_lowered, chars_of, is_space, is_whitespace, make_ascii_lower, string_of};
use vstd::prelude::*;
use vstd::string::*;

verus! {

/// Where the run of characters that are no whitespace, met at `p`, ends.
pub open spec fn run_end(line: Seq<char>, p: int) -> int
    decreases line.len() - p,
{
    if 0 <= p < line.len() && !is_space(line[p]) {
        run_end(line, p + 1)
    } else {
        p
    }
}

/// Where the quoted token ends whose opening quote stands just before `p`,
/// if the quote is closed at all.
///
/// Reading on from `p`, a backslash with a quote after it is taken as a
/// pair, and the first quote outside such a pair closes the token. Where the
/// line ends before that, the quote of the last pair met closes the token
/// after all; `fallback` is the index after that quote, or none while no
/// pair has been met.
pub open spec fn quoted_end(line: Seq<char>, p: int, fallback: Option<int>) -> Option<int>
    decreases line.len() - p,
{
    if p < 0 || p >= line.len() {
        fallback
    } else if line[p] == '"' {
        Some(p + 1)
    } else if line[p] == '\\' && p + 1 < line.len() && line[p + 1] == '"' {
        quoted_end(line, p + 2, Some(p + 2))
    } else {
        quoted_end(line, p + 1, fallback)
    }
}

/// Where the token that starts at `i` ends.
pub open spec fn token_end(line: Seq<char>, i: int) -> int {
    if line[i] == '"' {
        match quoted_end(line, i + 1, None) {
            Some(end) => end,
            None => run_end(line, i),
        }
    } else {
        run_end(line, i)
    }
}

/// The index of the first character at or after `i` that is no quote.
pub open spec fn leading_quotes(raw: Seq<char>, i: int) -> int
    decreases raw.len() - i,
{
    if 0 <= i < raw.len() && raw[i] == '"' {
        leading_quotes(raw, i + 1)
    } else {
        i
    }
}

/// The length left of `s[..n]` once the quotes at its end are taken off, one
/// by one, as long as the last character is a quote with no backslash before
/// it.
pub open spec fn trimmed_len(s: Seq<char>, n: int) -> int
    decreases n,
{
    if 0 < n <= s.len() && s[n - 1] == '"' && !(n >= 2 && s[n - 2] == '\\') {
        trimmed_len(s, n - 1)
    } else {
        n
    }
}

/// `s` with each backslash-quote pair, met from left to right, replaced by a
/// quote.
pub open spec fn unescaped(s: Seq<char>) -> Seq<char>
    decreases s.len(),
{
    if s.len() == 0 {
        Seq::empty()
    } else if s.len() >= 2 && s[0] == '\\' && s[1] == '"' {
        seq!['"'] + unescaped(s.skip(2))
    } else {
        seq![s[0]] + unescaped(s.skip(1))
    }
}

/// The token that the stretch `raw` of the line stands for: the quotes at its
/// start are taken off, then those at its end, then what is left is
/// unescaped.
pub open spec fn clean(raw: Seq<char>) -> Seq<char> {
    let body = raw.skip(leading_quotes(raw, 0));
    unescaped(body.take(trimmed_len(body, body.len() as int)))
}

/// The tokens of the line from index `i` on.
pub open spec fn tokens_from(line: Seq<char>, i: int) -> Seq<Seq<char>>
    decreases line.len() - i,
    when 0 <= i
    via tokens_from_decreases
{
    if i >= line.len() {
        Seq::empty()
    } else if is_space(line[i]) {
        tokens_from(line, i + 1)
    } else {
        seq![clean(line.subrange(i, token_end(line, i)))] + tokens_from(line, token_end(line, i))
    }
}

#[via_fn]
proof fn tokens_from_decreases(line: Seq<char>, i: int) {
    if i < line.len() && !is_space(line[i]) {
        lemma_token_end_bounds(line, i);
    }
}

/// The tokens of a line, the first of them folded to lower case: the name
/// of a command is read without regard to case, its arguments are not.
pub open spec fn tokenized(line: Seq<char>) -> Seq<Seq<char>> {
    let tokens = tokens_from(line, 0);
    if tokens.len() == 0 {
        tokens
    } else {
        tokens.update(0, ascii_lowered(tokens[0]))
    }
}

proof fn lemma_run_end_bounds(line: Seq<char>, p: int)
    requires
        0 <= p <= line.len(),
    ensures
        p <= run_end(line, p) <= line.len(),
        p < line.len() && !is_space(line[p]) ==> p < run_end(line, p),
    decreases line.len() - p,
{
    if p < line.len() && !is_space(line[p]) {
        lemma_run_end_bounds(line, p + 1);
    }
}

proof fn lemma_quoted_end_bounds(line: Seq<char>, p: int, fallback: Option<int>)
    requires
        0 <= p,
        fallback matches Some(f) ==> f <= p && f <= line.len(),
    ensures
        quoted_end(line, p, fallback) matches Some(end) ==> end <= line.len() && (end > p
            || fallback == Some(end)),
    decreases line.len() - p,
{
    if p < line.len() && line[p] != '"' {
        if line[p] == '\\' && p + 1 < line.len() && line[p + 1] == '"' {
            lemma_quoted_end_bounds(line, p + 2, Some(p + 2));
        } else {
            lemma_quoted_end_bounds(line, p + 1, fallback);
        }
    }
}

/// A token is not empty and ends within the line.
proof fn lemma_token_end_bounds(line: Seq<char>, i: int)
    requires
        0 <= i < line.len(),
        !is_space(line[i]),
    ensures
        i < token_end(line, i) <= line.len(),
{
    lemma_run_end_bounds(line, i);
    lemma_quoted_end_bounds(line, i + 1, None);
}

/// The index at which the token that starts at `i` ends.
fn find_token_end(chars: &Vec<char>, i: usize) -> (end: usize)
    requires
        i < chars.len(),
        !is_space(chars@[i as int]),
    ensures
        end == token_end(chars@, i as int),
        i < end <= chars.len(),
{
    proof {
        lemma_token_end_bounds(chars@, i as int);
    }
    if chars[i] == '"' {
        let mut p: usize = i + 1;
        let mut fallback: Option<usize> = None;
        while p < chars.len() && chars[p] != '"'
            invariant
                i < p <= chars.len(),
                fallback matches Some(f) ==> f <= p,
                quoted_end(chars@, i + 1, None) == quoted_end(
                    chars@,
                    p as int,
                    match fallback {
                        Some(f) => Some(f as int),
                        None => None,
                    },
                ),
            decreases chars.len() - p,
        {
            if chars[p] == '\\' && chars.len() - p > 1 && chars[p + 1] == '"' {
                p += 2;
                fallback = Some(p);
            } else {
                p += 1;
            }
        }
        if p < chars.len() {
            return p + 1;
        }
        if let Some(f) = fallback {
            return f;
        }
    }
    let mut p: usize = i;
    while p < chars.len() && !is_whitespace(chars[p])
        invariant
            i <= p <= chars.len(),
            run_end(chars@, i as int) == run_end(chars@, p as int),
        decreases chars.len() - p,
    {
        p += 1;
    }
    p
}

/// The token that `chars[from..to]` stands for.
fn clean_token(chars: &Vec<char>, from: usize, to: usize) -> (token: String)
    requires
        from <= to <= chars.len(),
    ensures
        token@ == clean(chars@.subrange(from as int, to as int)),
{
    let ghost raw = chars@.subrange(from as int, to as int);
    let mut start: usize = from;
    while start < to && chars[start] == '"'
        invariant
            from <= start <= to <= chars.len(),
            raw == chars@.subrange(from as int, to as int),
            leading_quotes(raw, 0) == leading_quotes(raw, start - from),
        decreases to - start,
    {
        start += 1;
    }
    let ghost body = raw.skip(start - from);
    assert(body == chars@.subrange(start as int, to as int));
    let mut end: usize = to;
    while end > start && chars[end - 1] == '"' && !(end - start >= 2 && chars[end - 2] == '\\')
        invariant
            start <= end <= to <= chars.len(),
            body == chars@.subrange(start as int, to as int),
            trimmed_len(body, body.len() as int) == trimmed_len(body, end - start),
        decreases end - start,
    {
        end -= 1;
    }
    let ghost kept = body.take(end - start);
    assert(kept == chars@.subrange(start as int, end as int));
    let mut token = String::new();
    let mut k: usize = start;
    assert(kept.skip(0) == kept);
    assert(token@ + unescaped(kept) =~= unescaped(kept));
    while k < end
        invariant
            start <= k <= end <= chars.len(),
            kept == chars@.subrange(start as int, end as int),
            token@ + unescaped(kept.skip(k - start)) == unescaped(kept),
        decreases end - k,
    {
        let ghost rest = kept.skip(k - start);
        if chars[k] == '\\' && end - k > 1 && chars[k + 1] == '"' {
            token.push('"');
            k += 2;
            assert(rest.skip(2) == kept.skip(k - start));
        } else {
            token.push(chars[k]);
            k += 1;
            assert(rest.skip(1) == kept.skip(k - start));
        }
        assert(token@ + unescaped(kept.skip(k - start)) =~= unescaped(kept));
    }
    assert(token@ =~= unescaped(kept));
    token
}

/// Splits a line into its tokens and folds the first of them to lower case.
/// A line without a token is no command.
pub fn tokenize(line: &str) -> (tokens: Result<Vec<String>, CommandError>)
    ensures
        match tokens {
            Ok(tokens) => tokens.len() > 0 && tokens.deep_view() == tokenized(line@),
            Err(error) => error == CommandError::EmptyInput && tokenized(line@).len() == 0,
        },
{
    let chars = chars_of(line);
    let mut tokens: Vec<String> = Vec::new();
    let mut i: usize = 0;
    assert(tokens.deep_view() =~= Seq::empty());
    while i < chars.len()
        invariant
            i <= chars.len(),
            chars@ == line@,
            tokens.deep_view() + tokens_from(chars@, i as int) == tokens_from(chars@, 0),
        decreases chars.len() - i,
    {
        if is_whitespace(chars[i]) {
            i += 1;
        } else {
            let end = find_token_end(&chars, i);
            let token = clean_token(&chars, i, end);
            let ghost before = tokens.deep_view();
            tokens.push(token);
            assert(tokens.deep_view() =~= before.push(token@));
            assert(before.push(token@) + tokens_from(chars@, end as int) =~= before + (seq![
                token@,
            ] + tokens_from(chars@, end as int)));
            i = end;
        }
    }
    assert(tokens.deep_view() =~= tokens_from(line@, 0));
    if tokens.len() == 0 {
        return Err(CommandError::EmptyInput);
    }
    let mut name = chars_of(tokens[0].as_str());
    make_ascii_lower(&mut name);
    let ghost before = tokens.deep_view();
    tokens.set(0, string_of(&name, 0, name.len()));
    assert(name@.subrange(0, name@.len() as int) == name@);
    assert(tokens.deep_view() =~= before.update(0, ascii_lowered(before[0])));
    Ok(tokens)
}

} // verus!
