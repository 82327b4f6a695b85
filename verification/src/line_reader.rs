//! The line editor: what each key does to the text buffer and the history,
//! and what is drawn afterwards.

pub mod error;
pub mod hinter;
pub mod history;
pub mod line;

use crate::line_reader::hinter::{full_hint, partial_hint, Hinter};
use crate::line_reader::history::{History, HistoryView};
use crate::line_reader::line::{row_text, Line, LineView};
use crate::text::{is_uppercase_char, uppercase_text};
use vstd::prelude::*;
use vstd::string::*;

pub use crate::line_reader::error::LineReaderError;

verus! {

/// A key of the keyboard, as far as the editor tells keys apart.
#[derive(Debug, Clone, Copy, PartialEq, Eq)]
pub enum Key {
    Char(char),
    Backspace,
    Delete,
    Tab,
    Enter,
    Up,
    Down,
    Left,
    Right,
    Home,
    End,
    Other,
}

/// The modifier bits of a key press with no modifier held.
pub const NO_MODIFIERS: u8 = 0;

/// The modifier bits of a key press with shift alone held.
pub const SHIFT: u8 = 1;

/// The modifier bits of a key press with control alone held.
pub const CONTROL: u8 = 2;

/// What the terminal delivered when asked for its next event.
#[derive(Debug, Clone, Copy, PartialEq, Eq)]
pub enum Input {
    /// A key was pressed, with the given modifier bits held.
    Press { key: Key, modifiers: u8 },
    /// Something that is no key press: a resize, the mouse, a paste.
    Other,
    /// The terminal could not be read.
    Failed,
}

/// What an input means to the editor.
#[derive(Debug, Clone, Copy, PartialEq, Eq)]
pub enum ReadEvent {
    Character(char),
    Backspace,
    Delete,
    Tab,
    Enter,
    Closed,
    UpArrow,
    DownArrow,
    RightArrow,
    LeftArrow,
    Home,
    End,
    Skip,
}

/// Where an edit stands after an event.
#[derive(Debug, Clone, Copy, PartialEq, Eq, Structural)]
pub enum ReadState {
    /// The line is still being edited.
    Editing,
    /// The line was submitted and is handed to the caller.
    Submitted,
    /// The input ended or was interrupted; no line is handed on.
    Closed,
}

/// The event that an input stands for: control-c and a failed read close
/// the edit; a key pressed with any modifier but shift is skipped, as is a
/// key the editor has no use for and any input that is no key press.
pub open spec fn event_of(input: Input) -> ReadEvent {
    match input {
        Input::Failed => ReadEvent::Closed,
        Input::Other => ReadEvent::Skip,
        Input::Press { key, modifiers } => {
            if key == Key::Char('c') && modifiers == CONTROL {
                ReadEvent::Closed
            } else if modifiers != NO_MODIFIERS && modifiers != SHIFT {
                ReadEvent::Skip
            } else {
                match key {
                    Key::Char(c) => ReadEvent::Character(c),
                    Key::Backspace => ReadEvent::Backspace,
                    Key::Delete => ReadEvent::Delete,
                    Key::Tab => ReadEvent::Tab,
                    Key::Enter => ReadEvent::Enter,
                    Key::Up => ReadEvent::UpArrow,
                    Key::Down => ReadEvent::DownArrow,
                    Key::Left => ReadEvent::LeftArrow,
                    Key::Right => ReadEvent::RightArrow,
                    Key::Home => ReadEvent::Home,
                    Key::End => ReadEvent::End,
                    Key::Other => ReadEvent::Skip,
                }
            }
        },
    }
}

/// What `input` means to the editor.
pub fn event(input: Input) -> (read_event: ReadEvent)
    ensures
        read_event == event_of(input),
{
    match input {
        Input::Failed => ReadEvent::Closed,
        Input::Other => ReadEvent::Skip,
        Input::Press { key, modifiers } => {
            if is_ctrl_c(key, modifiers) {
                return ReadEvent::Closed;
            }
            if modifiers != NO_MODIFIERS && modifiers != SHIFT {
                return ReadEvent::Skip;
            }
            match key {
                Key::Char(c) => ReadEvent::Character(c),
                Key::Backspace => ReadEvent::Backspace,
                Key::Delete => ReadEvent::Delete,
                Key::Tab => ReadEvent::Tab,
                Key::Enter => ReadEvent::Enter,
                Key::Up => ReadEvent::UpArrow,
                Key::Down => ReadEvent::DownArrow,
                Key::Left => ReadEvent::LeftArrow,
                Key::Right => ReadEvent::RightArrow,
                Key::Home => ReadEvent::Home,
                Key::End => ReadEvent::End,
                Key::Other => ReadEvent::Skip,
            }
        },
    }
}

/// Whether the key press is control-c.
fn is_ctrl_c(key: Key, modifiers: u8) -> (b: bool)
    ensures
        b == (key == Key::Char('c') && modifiers == CONTROL),
{
    match key {
        Key::Char(c) => c == 'c' && modifiers == CONTROL,
        _ => false,
    }
}

/// What a line reader holds: its prompt, its history and its templates.
pub struct LineReaderView {
    pub prompt: Seq<char>,
    pub history: HistoryView,
    pub hints: Seq<Seq<char>>,
}

/// The buffer after a completion is accepted: the completion is appended to
/// the text, a space follows it, and the cursor stands after the space.
pub open spec fn completed(line: LineView, completion: Seq<char>) -> LineView {
    line.move_end().concat(completion).insert(' ')
}

/// The text that a completion step appends for the hint `hint`: the hint in
/// upper case where the text ends in an upper-case letter, else as it is.
pub open spec fn completion_for(line: LineView, hint: Seq<char>) -> Seq<char> {
    if line.text.len() > 0 && is_uppercase_char(line.text.last()) {
        uppercase_text(hint)
    } else {
        hint
    }
}

impl LineReaderView {
    /// The history is well formed.
    pub open spec fn wf(self) -> bool {
        self.history.wf()
    }

    /// The reader with `history` in place of its own.
    pub open spec fn with_history(self, history: HistoryView) -> LineReaderView {
        LineReaderView { prompt: self.prompt, history, hints: self.hints }
    }

    /// The buffer that an event leaves.
    pub open spec fn line_after(self, line: LineView, event: ReadEvent) -> LineView {
        match event {
            ReadEvent::Character(c) => line.insert(c),
            ReadEvent::Tab => match partial_hint(self.hints, line.text) {
                Some(hint) => completed(line, completion_for(line, hint)),
                None => line,
            },
            ReadEvent::Enter => line,
            ReadEvent::UpArrow => match self.history.prev_entry() {
                Some(entry) => LineView::set(entry),
                None => line,
            },
            ReadEvent::DownArrow => match self.history.next_entry() {
                Some(entry) => LineView::set(entry),
                None => LineView::empty(),
            },
            ReadEvent::Backspace => line.erase_left(),
            ReadEvent::Delete => line.erase_right(),
            ReadEvent::RightArrow => line.move_right(),
            ReadEvent::LeftArrow => line.move_left(),
            ReadEvent::Home => line.move_start(),
            ReadEvent::End => line.move_end(),
            ReadEvent::Skip => line,
            ReadEvent::Closed => line.insert('^').insert('C'),
        }
    }

    /// The history that an event leaves; `line` is the buffer before it.
    pub open spec fn history_after(self, line: LineView, event: ReadEvent) -> HistoryView {
        match event {
            ReadEvent::Character(_) => self.history.move_to_end(),
            ReadEvent::Enter => self.history.move_to_end().push(line.text),
            ReadEvent::UpArrow => self.history.prev(),
            ReadEvent::DownArrow => self.history.next(),
            _ => self.history,
        }
    }

    /// The text that draws the row for `line`: the prompt, the buffer and
    /// the full hint for the buffer, if it has one.
    pub open spec fn row(self, line: LineView) -> Seq<char> {
        row_text(
            self.prompt,
            line,
            match full_hint(self.hints, line.text) {
                Some(hint) => hint,
                None => Seq::empty(),
            },
        )
    }
}

/// The state that an event leaves the edit in.
pub open spec fn state_after(event: ReadEvent) -> ReadState {
    match event {
        ReadEvent::Enter => ReadState::Submitted,
        ReadEvent::Closed => ReadState::Closed,
        _ => ReadState::Editing,
    }
}

/// The editor of one session: its prompt, the lines submitted so far and
/// the templates for completion.
pub struct LineReader {
    prompt: String,
    history: History,
    hinter: Hinter,
}

impl View for LineReader {
    type V = LineReaderView;

    closed spec fn view(&self) -> LineReaderView {
        LineReaderView { prompt: self.prompt@, history: self.history@, hints: self.hinter@ }
    }
}

impl LineReader {
    /// The history is well formed.
    pub open spec fn wf(&self) -> bool {
        self@.wf()
    }

    /// A reader that shows `prompt`, with no history and no templates.
    pub fn new(prompt: String) -> (reader: LineReader)
        ensures
            reader@ == (LineReaderView {
                prompt: prompt@,
                history: HistoryView::empty(),
                hints: Seq::empty(),
            }),
            reader.wf(),
    {
        LineReader { prompt, history: History::new(), hinter: Hinter::new() }
    }

    /// The prompt shown before the line.
    pub fn prompt(&self) -> (prompt: &str)
        ensures
            prompt@ == self@.prompt,
    {
        self.prompt.as_str()
    }

    /// The registered templates, in the order of their registration.
    pub fn hints(&self) -> (hints: &[&'static str])
        ensures
            hints@.len() == self@.hints.len(),
            forall|i: int| 0 <= i < hints@.len() ==> (#[trigger] hints@[i])@ == self@.hints[i],
    {
        self.hinter.hints()
    }

    /// Registers `hint` after the templates registered before.
    pub fn register_hint(&mut self, hint: &'static str)
        ensures
            final(self)@ == (LineReaderView {
                prompt: old(self)@.prompt,
                history: old(self)@.history,
                hints: old(self)@.hints.push(hint@),
            }),
    {
        self.hinter.add(hint);
    }

    /// Takes one step of the edit: applies `event` to the buffer and the
    /// history, and says in which state the edit then is. The prompt and the
    /// templates stay as they are. After `Submitted` the buffer holds the line
    /// to hand on; after `Closed` nothing is handed on.
    pub fn handle_event(&mut self, line: &mut Line, event: ReadEvent) -> (state: ReadState)
        requires
            old(self).wf(),
            old(line).wf(),
        ensures
            state == state_after(event),
            final(line)@ == old(self)@.line_after(old(line)@, event),
            final(self)@ == old(self)@.with_history(old(self)@.history_after(old(line)@, event)),
            final(self).wf(),
            final(line).wf(),
    {
        match event {
            ReadEvent::Character(c) => {
                self.history.move_to_end();
                line.insert(c);
            },
            ReadEvent::Tab => {
                let hint = self.hinter.get_partial_hint(line);
                if let Some(hint) = hint {
                    line.move_end();
                    if line.is_prev_char_uppercase() {
                        let upper = hint.to_uppercase();
                        line.complete(upper.as_str());
                    } else {
                        line.complete(hint);
                    }
                }
            },
            ReadEvent::Enter => {
                self.history.move_to_end();
                self.history.push(line);
                return ReadState::Submitted;
            },
            ReadEvent::UpArrow => {
                if let Some(entry) = self.history.prev() {
                    line.set(entry);
                }
            },
            ReadEvent::DownArrow => {
                match self.history.next() {
                    Some(entry) => line.set(entry),
                    None => line.clear(),
                }
            },
            ReadEvent::Backspace => line.erase_left(),
            ReadEvent::Delete => line.erase_right(),
            ReadEvent::RightArrow => line.move_right(),
            ReadEvent::LeftArrow => line.move_left(),
            ReadEvent::Home => line.move_start(),
            ReadEvent::End => line.move_end(),
            ReadEvent::Skip => {},
            ReadEvent::Closed => {
                line.insert('^');
                line.insert('C');
                return ReadState::Closed;
            },
        }
        ReadState::Editing
    }

    /// The text that redraws the terminal's row for `line`.
    pub fn render(&self, line: &Line) -> (row: String)
        ensures
            row@ == self@.row(line@),
    {
        let hint = self.hinter.get_full_hint(line);
        line.write(self.prompt.as_str(), hint)
    }
}

} // verus!
