//! The text buffer of the line editor: a sequence of characters and a cursor
//! that stands before one of them or after the last.

use crate::text::{is_digit, is_uppercase_char, push_decimal, chars_of, decimal};
use vstd::prelude::*;
use vstd::string::*;

verus! {

/// What a text buffer holds: its characters, and the number of characters to
/// the left of the cursor.
pub struct LineView {
    pub text: Seq<char>,
    pub cursor: nat,
}

/// One editing step on a text buffer.
pub enum Edit {
    Insert(char),
    EraseLeft,
    EraseRight,
    MoveLeft,
    MoveRight,
    MoveStart,
    MoveEnd,
}

impl LineView {
    /// The cursor lies within the text or just after it.
    pub open spec fn wf(self) -> bool {
        self.cursor <= self.text.len()
    }

    /// The empty buffer.
    pub open spec fn empty() -> LineView {
        LineView { text: Seq::empty(), cursor: 0 }
    }

    /// The whole text replaced, with the cursor after its last character.
    pub open spec fn set(text: Seq<char>) -> LineView {
        LineView { text, cursor: text.len() }
    }

    /// `c` put in at the cursor, which ends up after it.
    pub open spec fn insert(self, c: char) -> LineView {
        LineView { text: self.text.insert(self.cursor as int, c), cursor: self.cursor + 1 }
    }

    /// `s` put in at the cursor, which ends up after it.
    pub open spec fn concat(self, s: Seq<char>) -> LineView {
        LineView {
            text: self.text.take(self.cursor as int) + s + self.text.skip(self.cursor as int),
            cursor: self.cursor + s.len(),
        }
    }

    /// The character before the cursor taken out, if there is one.
    pub open spec fn erase_left(self) -> LineView {
        if self.cursor == 0 {
            self
        } else {
            LineView {
                text: self.text.remove(self.cursor - 1),
                cursor: (self.cursor - 1) as nat,
            }
        }
    }

    /// The character after the cursor taken out, if there is one.
    pub open spec fn erase_right(self) -> LineView {
        if self.cursor >= self.text.len() {
            self
        } else {
            LineView { text: self.text.remove(self.cursor as int), cursor: self.cursor }
        }
    }

    /// The cursor one character further left, if it is not at the start.
    pub open spec fn move_left(self) -> LineView {
        if self.cursor == 0 {
            self
        } else {
            LineView { text: self.text, cursor: (self.cursor - 1) as nat }
        }
    }

    /// The cursor one character further right, if it is not at the end.
    pub open spec fn move_right(self) -> LineView {
        if self.cursor >= self.text.len() {
            self
        } else {
            LineView { text: self.text, cursor: self.cursor + 1 }
        }
    }

    /// The cursor at the start of the text.
    pub open spec fn move_start(self) -> LineView {
        LineView { text: self.text, cursor: 0 }
    }

    /// The cursor at the end of the text.
    pub open spec fn move_end(self) -> LineView {
        LineView { text: self.text, cursor: self.text.len() }
    }

    /// The buffer after one edit.
    pub open spec fn apply(self, edit: Edit) -> LineView {
        match edit {
            Edit::Insert(c) => self.insert(c),
            Edit::EraseLeft => self.erase_left(),
            Edit::EraseRight => self.erase_right(),
            Edit::MoveLeft => self.move_left(),
            Edit::MoveRight => self.move_right(),
            Edit::MoveStart => self.move_start(),
            Edit::MoveEnd => self.move_end(),
        }
    }

    /// The buffer after a run of edits, taken first to last.
    pub open spec fn apply_all(self, edits: Seq<Edit>) -> LineView
        decreases edits.len(),
    {
        if edits.len() == 0 {
            self
        } else {
            self.apply_all(edits.drop_last()).apply(edits.last())
        }
    }
}

/// Whatever run of insertions, erasures and cursor moves a buffer goes
/// through, its cursor stays between the start of the text and its end.
pub proof fn lemma_edits_keep_cursor_in_text(start: LineView, edits: Seq<Edit>)
    requires
        start.wf(),
    ensures
        start.apply_all(edits).wf(),
        0 <= start.apply_all(edits).cursor <= start.apply_all(edits).text.len(),
    decreases edits.len(),
{
    if edits.len() > 0 {
        lemma_edits_keep_cursor_in_text(start, edits.drop_last());
    }
}

/// Where the run of digits that starts at `i` ends.
pub open spec fn digits_end(s: Seq<char>, i: int) -> int
    decreases s.len() - i,
{
    if 0 <= i < s.len() && is_digit(s[i]) {
        digits_end(s, i + 1)
    } else {
        i
    }
}

/// Where the colour code that starts at `i` ends, if one starts there: the
/// escape character, `[`, one or more digits and `m`.
pub open spec fn color_code_end(s: Seq<char>, i: int) -> Option<int> {
    let j = digits_end(s, i + 2);
    if 0 <= i && i + 1 < s.len() && s[i] == '\x1B' && s[i + 1] == '[' && j > i + 2 && j < s.len()
        && s[j] == 'm' {
        Some(j + 1)
    } else {
        None
    }
}

/// The number of characters of `s[i..]` that a terminal shows: those outside
/// colour codes.
pub open spec fn visible_len_from(s: Seq<char>, i: int) -> nat
    decreases s.len() - i,
    when 0 <= i
    via visible_len_decreases
{
    if i >= s.len() {
        0
    } else {
        match color_code_end(s, i) {
            Some(end) => visible_len_from(s, end),
            None => 1 + visible_len_from(s, i + 1),
        }
    }
}

#[via_fn]
proof fn visible_len_decreases(s: Seq<char>, i: int) {
    if i < s.len() {
        lemma_digits_end_bounds(s, i + 2);
    }
}

proof fn lemma_digits_end_bounds(s: Seq<char>, i: int)
    requires
        0 <= i,
    ensures
        i <= digits_end(s, i),
        digits_end(s, i) <= s.len() || digits_end(s, i) == i,
    decreases s.len() - i,
{
    if i < s.len() && is_digit(s[i]) {
        lemma_digits_end_bounds(s, i + 1);
    }
}

/// The number of characters of `s` that a terminal shows.
pub open spec fn visible_len(s: Seq<char>) -> nat {
    visible_len_from(s, 0)
}

/// The text that draws one row of the terminal: the row is cleared, then
/// come the prompt, the buffer's text and the hint in grey, and last the
/// cursor is put in its column, counted from one.
pub open spec fn row_text(prompt: Seq<char>, line: LineView, hint: Seq<char>) -> Seq<char> {
    "\r\x1B[K"@ + prompt + line.text + "\x1B[90m"@ + hint + "\x1B[0m"@ + "\x1B["@ + decimal(
        line.cursor + visible_len(prompt) + 1,
    ) + "G"@
}

/// The text buffer of one edit. The cursor is kept as the number of
/// characters to its left.
pub struct Line {
    buf: String,
    position: usize,
}

impl View for Line {
    type V = LineView;

    closed spec fn view(&self) -> LineView {
        LineView { text: self.buf@, cursor: self.position as nat }
    }
}

impl Line {
    /// The cursor lies within the text or just after it.
    pub open spec fn wf(&self) -> bool {
        self@.wf()
    }

    /// An empty buffer.
    pub fn new() -> (line: Line)
        ensures
            line@ == LineView::empty(),
            line.wf(),
    {
        Line { buf: String::new(), position: 0 }
    }

    /// Whether the buffer holds no text.
    pub fn is_empty(&self) -> (b: bool)
        ensures
            b == (self@.text.len() == 0),
    {
        self.buf.as_str().is_empty()
    }

    /// Whether the character just left of the cursor is an upper-case letter.
    pub fn is_prev_char_uppercase(&self) -> (b: bool)
        requires
            self.wf(),
        ensures
            b == (self@.cursor > 0 && is_uppercase_char(self@.text[self@.cursor - 1])),
    {
        if self.position == 0 {
            return false;
        }
        self.buf.as_str().get_char(self.position - 1).is_uppercase()
    }

    /// The buffer's text.
    pub fn buf(&self) -> (text: &str)
        ensures
            text@ == self@.text,
    {
        self.buf.as_str()
    }

    /// The number of characters left of the cursor.
    pub fn position(&self) -> (cursor: usize)
        ensures
            cursor == self@.cursor,
    {
        self.position
    }

    /// Replaces the whole text by `buf` and puts the cursor after it.
    pub fn set(&mut self, buf: &str)
        ensures
            final(self)@ == LineView::set(buf@),
            final(self).wf(),
    {
        self.position = buf.unicode_len();
        self.buf = buf.to_owned();
    }

    /// Puts `c` in at the cursor and moves the cursor past it.
    pub fn insert(&mut self, c: char)
        requires
            old(self).wf(),
        ensures
            final(self)@ == old(self)@.insert(c),
            final(self).wf(),
    {
        let len = self.buf.as_str().unicode_len();
        let mut next = self.buf.as_str().substring_char(0, self.position).to_owned();
        next.push(c);
        next.append(self.buf.as_str().substring_char(self.position, len));
        assert(next@ =~= old(self)@.text.insert(old(self)@.cursor as int, c));
        let grown = next.as_str().unicode_len();
        assert(grown == len + 1);
        self.buf = next;
        self.position = self.position + 1;
    }

    /// Puts `s` in at the cursor and moves the cursor past it.
    pub fn concat(&mut self, s: &str)
        requires
            old(self).wf(),
        ensures
            final(self)@ == old(self)@.concat(s@),
            final(self).wf(),
    {
        let len = self.buf.as_str().unicode_len();
        let added = s.unicode_len();
        let mut next = self.buf.as_str().substring_char(0, self.position).to_owned();
        next.append(s);
        next.append(self.buf.as_str().substring_char(self.position, len));
        let grown = next.as_str().unicode_len();
        assert(grown == len + added);
        self.buf = next;
        self.position = self.position + added;
    }

    /// Appends `completion` and a space to the text, and leaves the cursor
    /// after the space.
    pub fn complete(&mut self, completion: &str)
        requires
            old(self).wf(),
        ensures
            final(self)@ == old(self)@.move_end().concat(completion@).insert(' '),
            final(self).wf(),
    {
        self.move_end();
        self.concat(completion);
        self.insert(' ');
    }

    /// Takes out the character before the cursor; at the start of the text
    /// there is none, and nothing changes.
    pub fn erase_left(&mut self)
        requires
            old(self).wf(),
        ensures
            final(self)@ == old(self)@.erase_left(),
            final(self).wf(),
    {
        if self.position == 0 {
            return;
        }
        let len = self.buf.as_str().unicode_len();
        let mut next = self.buf.as_str().substring_char(0, self.position - 1).to_owned();
        next.append(self.buf.as_str().substring_char(self.position, len));
        assert(next@ =~= old(self)@.text.remove(old(self)@.cursor - 1));
        self.buf = next;
        self.position = self.position - 1;
    }

    /// Takes out the character after the cursor; at the end of the text
    /// there is none, and nothing changes.
    pub fn erase_right(&mut self)
        requires
            old(self).wf(),
        ensures
            final(self)@ == old(self)@.erase_right(),
            final(self).wf(),
    {
        let len = self.buf.as_str().unicode_len();
        if self.position == len {
            return;
        }
        let mut next = self.buf.as_str().substring_char(0, self.position).to_owned();
        next.append(self.buf.as_str().substring_char(self.position + 1, len));
        assert(next@ =~= old(self)@.text.remove(old(self)@.cursor as int));
        self.buf = next;
    }

    /// Empties the buffer.
    pub fn clear(&mut self)
        ensures
            final(self)@ == LineView::empty(),
            final(self).wf(),
    {
        self.buf = String::new();
        self.position = 0;
    }

    /// Moves the cursor one character left, unless it is at the start.
    pub fn move_left(&mut self)
        requires
            old(self).wf(),
        ensures
            final(self)@ == old(self)@.move_left(),
            final(self).wf(),
    {
        if self.position == 0 {
            return;
        }
        self.position = self.position - 1;
    }

    /// Moves the cursor one character right, unless it is at the end.
    pub fn move_right(&mut self)
        requires
            old(self).wf(),
        ensures
            final(self)@ == old(self)@.move_right(),
            final(self).wf(),
    {
        if self.position == self.buf.as_str().unicode_len() {
            return;
        }
        self.position = self.position + 1;
    }

    /// Moves the cursor to the start of the text.
    pub fn move_start(&mut self)
        ensures
            final(self)@ == old(self)@.move_start(),
            final(self).wf(),
    {
        self.position = 0;
    }

    /// Moves the cursor to the end of the text.
    pub fn move_end(&mut self)
        ensures
            final(self)@ == old(self)@.move_end(),
            final(self).wf(),
    {
        self.position = self.buf.as_str().unicode_len();
    }

    /// The text that redraws the row for this buffer behind `prompt`, with
    /// `hint` shown after the buffer's text.
    pub fn write(&self, prompt: &str, hint: Option<&str>) -> (row: String)
        ensures
            row@ == row_text(
                prompt@,
                self@,
                match hint {
                    Some(h) => h@,
                    None => Seq::empty(),
                },
            ),
    {
        let shown: &str = match hint {
            Some(h) => h,
            None => "",
        };
        proof {
            reveal_strlit("");
        }
        assert(shown@ =~= match hint {
            Some(h) => h@,
            None => Seq::empty(),
        });
        let column: u128 = self.position as u128 + get_prompt_len(prompt) as u128 + 1;
        let mut row = "\r\x1B[K".to_owned();
        row.append(prompt);
        row.append(self.buf.as_str());
        row.append("\x1B[90m");
        row.append(shown);
        row.append("\x1B[0m");
        row.append("\x1B[");
        push_decimal(&mut row, column);
        row.append("G");
        row
    }

    /// Gives up the buffer for its text.
    pub fn into_string(self) -> (text: String)
        ensures
            text@ == self@.text,
    {
        self.buf
    }
}

/// The number of characters of `prompt` that take up a column of the
/// terminal: all but its colour codes.
pub fn get_prompt_len(prompt: &str) -> (len: usize)
    ensures
        len == visible_len(prompt@),
{
    let chars = chars_of(prompt);
    let mut shown: usize = 0;
    let mut i: usize = 0;
    while i < chars.len()
        invariant
            i <= chars.len(),
            shown <= i,
            shown + visible_len_from(chars@, i as int) == visible_len(chars@),
        decreases chars.len() - i,
    {
        let end = color_code_at(&chars, i);
        match end {
            Some(e) => {
                i = e;
            },
            None => {
                i += 1;
                shown += 1;
            },
        }
    }
    shown
}

/// The index just after the colour code that starts at `i`, if one does.
fn color_code_at(chars: &Vec<char>, i: usize) -> (end: Option<usize>)
    requires
        i < chars.len(),
    ensures
        match end {
            Some(e) => color_code_end(chars@, i as int) == Some(e as int) && i < e <= chars.len(),
            None => color_code_end(chars@, i as int) is None,
        },
{
    if chars[i] != '\x1B' || chars.len() - i < 2 || chars[i + 1] != '[' {
        return None;
    }
    let mut j: usize = i + 2;
    while j < chars.len() && '0' <= chars[j] && chars[j] <= '9'
        invariant
            i + 2 <= j <= chars.len(),
            digits_end(chars@, i + 2) == digits_end(chars@, j as int),
        decreases chars.len() - j,
    {
        j += 1;
    }
    if j > i + 2 && j < chars.len() && chars[j] == 'm' {
        Some(j + 1)
    } else {
        None
    }
}

} // verus!
