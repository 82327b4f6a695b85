//! The lines submitted so far, oldest first, and the place that recall has
//! reached among them.

use crate::line_reader::line::Line;
use vstd::prelude::*;
use vstd::string::*;

verus! {

/// What a history holds: the stored lines, oldest first, and the recall
/// index. An index equal to the number of lines means that nothing is being
/// recalled: the user is at the live edit.
pub struct HistoryView {
    pub entries: Seq<Seq<char>>,
    pub index: nat,
}

impl HistoryView {
    /// The index is an entry's or the live one, no entry is empty, and no two
    /// neighbours are the same line.
    pub open spec fn wf(self) -> bool {
        &&& self.index <= self.entries.len()
        &&& forall|i: int| 0 <= i < self.entries.len() ==> (#[trigger] self.entries[i]).len() > 0
        &&& forall|i: int|
            0 < i < self.entries.len() ==> #[trigger] self.entries[i] != self.entries[i - 1]
    }

    /// A history without lines.
    pub open spec fn empty() -> HistoryView {
        HistoryView { entries: Seq::empty(), index: 0 }
    }

    /// The entry that a step back recalls; none at the oldest entry.
    pub open spec fn prev_entry(self) -> Option<Seq<char>> {
        if self.index == 0 || self.index > self.entries.len() {
            None
        } else {
            Some(self.entries[self.index - 1])
        }
    }

    /// The history after a step back: the index is one less, or stays at the
    /// oldest entry.
    pub open spec fn prev(self) -> HistoryView {
        if self.index == 0 {
            self
        } else {
            HistoryView { entries: self.entries, index: (self.index - 1) as nat }
        }
    }

    /// The entry that a step forward recalls; none where the step reaches
    /// the live edit.
    pub open spec fn next_entry(self) -> Option<Seq<char>> {
        if self.index + 1 < self.entries.len() {
            Some(self.entries[self.index as int + 1])
        } else {
            None
        }
    }

    /// The history after a step forward: the index is one more, and never
    /// beyond the live edit.
    pub open spec fn next(self) -> HistoryView {
        if self.index + 1 < self.entries.len() {
            HistoryView { entries: self.entries, index: self.index + 1 }
        } else {
            self.move_to_end()
        }
    }

    /// The history with recall ended.
    pub open spec fn move_to_end(self) -> HistoryView {
        HistoryView { entries: self.entries, index: self.entries.len() }
    }

    /// Whether `text` is stored when pushed: it is not empty and is not the
    /// line stored last.
    pub open spec fn accepts(self, text: Seq<char>) -> bool {
        text.len() > 0 && (self.entries.len() == 0 || self.entries.last() != text)
    }

    /// The history after `text` is pushed: stored at the end if accepted, and
    /// back at the live edit either way.
    pub open spec fn push(self, text: Seq<char>) -> HistoryView {
        if self.accepts(text) {
            HistoryView { entries: self.entries.push(text), index: self.entries.len() + 1 }
        } else {
            self.move_to_end()
        }
    }

    /// The history after `n` steps back.
    pub open spec fn prev_times(self, n: nat) -> HistoryView
        decreases n,
    {
        if n == 0 {
            self
        } else {
            self.prev_times((n - 1) as nat).prev()
        }
    }
}

/// One step in the life of a history.
pub enum Step {
    Push(Seq<char>),
    Prev,
    Next,
    MoveToEnd,
}

impl HistoryView {
    /// The history after one step.
    pub open spec fn apply(self, step: Step) -> HistoryView {
        match step {
            Step::Push(text) => self.push(text),
            Step::Prev => self.prev(),
            Step::Next => self.next(),
            Step::MoveToEnd => self.move_to_end(),
        }
    }

    /// The history after a run of steps, taken first to last.
    pub open spec fn apply_all(self, steps: Seq<Step>) -> HistoryView
        decreases steps.len(),
    {
        if steps.len() == 0 {
            self
        } else {
            self.apply_all(steps.drop_last()).apply(steps.last())
        }
    }
}

/// Whatever is pushed and however recall moves, a history never holds the
/// same line twice in a row, nor an empty line, and its index stays an
/// entry's or the live one.
pub proof fn lemma_history_stays_well_formed(start: HistoryView, steps: Seq<Step>)
    requires
        start.wf(),
    ensures
        start.apply_all(steps).wf(),
        forall|i: int|
            0 < i < start.apply_all(steps).entries.len() ==> #[trigger] start.apply_all(
                steps,
            ).entries[i] != start.apply_all(steps).entries[i - 1],
    decreases steps.len(),
{
    if steps.len() > 0 {
        let before = start.apply_all(steps.drop_last());
        lemma_history_stays_well_formed(start, steps.drop_last());
        match steps.last() {
            Step::Push(text) => {
                lemma_push_again_stores_nothing(before, text);
            },
            _ => {},
        }
    }
}

/// A line pushed twice in a row is stored once: the second push leaves the
/// history as the first made it.
pub proof fn lemma_push_again_stores_nothing(history: HistoryView, text: Seq<char>)
    requires
        history.wf(),
    ensures
        history.push(text).wf(),
        history.push(text).push(text) == history.push(text),
{
    let once = history.push(text);
    if history.accepts(text) {
        assert(once.entries.last() == text);
        assert forall|i: int| 0 < i < once.entries.len() implies #[trigger] once.entries[i]
            != once.entries[i - 1] by {
            if i < history.entries.len() {
                assert(once.entries[i] == history.entries[i]);
            }
        }
    }
}

/// Recall is bounded: `n` steps back lower the index by `n` and no further
/// than the oldest entry. Once there, a step back recalls nothing and
/// changes nothing, however often it is taken.
pub proof fn lemma_prev_stops_at_oldest(history: HistoryView, n: nat)
    requires
        history.wf(),
    ensures
        history.prev_times(n).wf(),
        history.prev_times(n).entries == history.entries,
        history.prev_times(n).index == if n <= history.index {
            history.index - n
        } else {
            0
        },
        n >= history.index ==> history.prev_times(n).prev_entry() is None,
        n >= history.index ==> history.prev_times(n + 1) == history.prev_times(n),
    decreases n,
{
    if n > 0 {
        lemma_prev_stops_at_oldest(history, (n - 1) as nat);
    }
    assert(history.prev_times(n + 1) == history.prev_times(n).prev());
}

/// The history of one session.
pub struct History {
    commands: Vec<String>,
    index: usize,
}

impl View for History {
    type V = HistoryView;

    closed spec fn view(&self) -> HistoryView {
        HistoryView {
            entries: Seq::new(self.commands.len() as nat, |i: int| self.commands[i]@),
            index: self.index as nat,
        }
    }
}

impl History {
    /// What `HistoryView::wf` says of what the history holds.
    pub open spec fn wf(&self) -> bool {
        self@.wf()
    }

    /// A history without lines.
    pub fn new() -> (history: History)
        ensures
            history@ == HistoryView::empty(),
            history.wf(),
    {
        let history = History { commands: Vec::new(), index: 0 };
        assert(history@.entries =~= Seq::empty());
        history
    }

    /// Steps forward, towards the live edit, and hands out the entry reached.
    pub fn next(&mut self) -> (entry: Option<&str>)
        requires
            old(self).wf(),
        ensures
            final(self)@ == old(self)@.next(),
            final(self).wf(),
            match entry {
                Some(text) => old(self)@.next_entry() == Some(text@),
                None => old(self)@.next_entry() is None,
            },
    {
        if self.commands.len() - self.index <= 1 {
            self.index = self.commands.len();
            return None;
        }
        self.index = self.index + 1;
        Some(self.commands[self.index].as_str())
    }

    /// Steps back, towards the oldest entry, and hands out the entry reached.
    pub fn prev(&mut self) -> (entry: Option<&str>)
        requires
            old(self).wf(),
        ensures
            final(self)@ == old(self)@.prev(),
            final(self).wf(),
            match entry {
                Some(text) => old(self)@.prev_entry() == Some(text@),
                None => old(self)@.prev_entry() is None,
            },
    {
        if self.index == 0 {
            return None;
        }
        self.index = self.index - 1;
        Some(self.commands[self.index].as_str())
    }

    /// Ends recall: the index goes back to the live edit.
    pub fn move_to_end(&mut self)
        ensures
            final(self)@ == old(self)@.move_to_end(),
            old(self).wf() ==> final(self).wf(),
    {
        self.index = self.commands.len();
    }

    /// Stores the line's text, unless it is empty or the line stored last,
    /// and ends recall.
    pub fn push(&mut self, line: &Line)
        requires
            old(self).wf(),
        ensures
            final(self)@ == old(self)@.push(line@.text),
            final(self).wf(),
    {
        let text = line.buf().to_owned();
        let fresh = match self.commands.last() {
            Some(last) => *last != text,
            None => true,
        };
        if !line.is_empty() && fresh {
            self.commands.push(text);
            assert(self@.entries =~= old(self)@.entries.push(line@.text));
        }
        self.index = self.commands.len();
        proof {
            lemma_push_again_stores_nothing(old(self)@, line@.text);
        }
    }

    /// The number of lines stored.
    pub fn len(&self) -> (n: usize)
        ensures
            n == self@.entries.len(),
    {
        self.commands.len()
    }
}

} // verus!
