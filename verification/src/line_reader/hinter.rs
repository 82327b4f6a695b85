//! Completion hints: the registered command templates, and what remains of
//! the first one that starts with the text typed so far.

use crate::line_reader::line::Line;
use crate::text::{ascii_lowered, chars_of, make_ascii_lower};
use vstd::prelude::*;
use vstd::string::*;

verus! {

/// `template` starts with `key` and goes on after it.
pub open spec fn completes(template: Seq<char>, key: Seq<char>) -> bool {
    key.len() < template.len() && template.take(key.len() as int) == key
}

/// What is left of the first template, from index `i` on, that `key`
/// starts; templates are tried in the order of their registration.
pub open spec fn first_completion_from(templates: Seq<Seq<char>>, key: Seq<char>, i: int) -> Option<
    Seq<char>,
>
    decreases templates.len() - i,
{
    if i < 0 || i >= templates.len() {
        None
    } else if completes(templates[i], key) {
        Some(templates[i].skip(key.len() as int))
    } else {
        first_completion_from(templates, key, i + 1)
    }
}

/// The hint for a buffer that holds `text`: the text is folded to lower case,
/// and if it then has two characters or more, the hint is what is left of the
/// first template that it starts.
pub open spec fn full_hint(templates: Seq<Seq<char>>, text: Seq<char>) -> Option<Seq<char>> {
    let key = ascii_lowered(text);
    if key.len() < 2 {
        None
    } else {
        first_completion_from(templates, key, 0)
    }
}

/// The index of the first space of `s` at or after `i`, or the length of `s`
/// where there is none.
pub open spec fn word_end(s: Seq<char>, i: int) -> int
    decreases s.len() - i,
{
    if 0 <= i < s.len() && s[i] != ' ' {
        word_end(s, i + 1)
    } else {
        i
    }
}

/// The part of `s` before its first space.
pub open spec fn first_word(s: Seq<char>) -> Seq<char> {
    s.take(word_end(s, 0))
}

/// The part of the full hint that one completion step takes: what stands
/// before the hint's first space, which is nothing where the hint starts with
/// a space.
pub open spec fn partial_hint(templates: Seq<Seq<char>>, text: Seq<char>) -> Option<Seq<char>> {
    match full_hint(templates, text) {
        Some(hint) => Some(first_word(hint)),
        None => None,
    }
}

/// The templates registered for completion.
pub struct Hinter {
    hints: Vec<&'static str>,
}

impl View for Hinter {
    type V = Seq<Seq<char>>;

    /// The registered templates, in the order of their registration.
    closed spec fn view(&self) -> Seq<Seq<char>> {
        Seq::new(self.hints.len() as nat, |i: int| self.hints[i]@)
    }
}

impl Hinter {
    /// A hinter without templates.
    pub fn new() -> (hinter: Hinter)
        ensures
            hinter@ == Seq::<Seq<char>>::empty(),
    {
        let hinter = Hinter { hints: Vec::new() };
        assert(hinter@ =~= Seq::empty());
        hinter
    }

    /// Registers `hint` after the templates registered before.
    pub fn add(&mut self, hint: &'static str)
        ensures
            final(self)@ == old(self)@.push(hint@),
    {
        self.hints.push(hint);
        assert(self@ =~= old(self)@.push(hint@));
    }

    /// The registered templates, in the order of their registration.
    pub fn hints(&self) -> (hints: &[&'static str])
        ensures
            hints@.len() == self@.len(),
            forall|i: int| 0 <= i < hints@.len() ==> (#[trigger] hints@[i])@ == self@[i],
    {
        self.hints.as_slice()
    }

    /// What is left to type of the first template that the line's text
    /// starts, if the text has two characters at least and starts one.
    pub fn get_full_hint(&self, line: &Line) -> (hint: Option<&'static str>)
        ensures
            match hint {
                Some(h) => full_hint(self@, line@.text) == Some(h@),
                None => full_hint(self@, line@.text) is None,
            },
    {
        let mut key = chars_of(line.buf());
        make_ascii_lower(&mut key);
        if key.len() < 2 {
            return None;
        }
        let mut i: usize = 0;
        while i < self.hints.len()
            invariant
                i <= self.hints.len(),
                key@ == ascii_lowered(line@.text),
                key@.len() >= 2,
                first_completion_from(self@, key@, 0) == first_completion_from(
                    self@,
                    key@,
                    i as int,
                ),
            decreases self.hints.len() - i,
        {
            let template: &'static str = self.hints[i];
            let chars = chars_of(template);
            assert(chars@ == self@[i as int]);
            if starts_with(&chars, &key) && chars.len() > key.len() {
                return Some(template.substring_char(key.len(), chars.len()));
            }
            i += 1;
        }
        None
    }

    /// The part of the full hint that one completion step takes: the hint
    /// up to its first space.
    pub fn get_partial_hint(&self, line: &Line) -> (hint: Option<&'static str>)
        ensures
            match hint {
                Some(h) => partial_hint(self@, line@.text) == Some(h@),
                None => partial_hint(self@, line@.text) is None,
            },
    {
        match self.get_full_hint(line) {
            Some(full) => {
                let chars = chars_of(full);
                let mut end: usize = 0;
                while end < chars.len() && chars[end] != ' '
                    invariant
                        end <= chars.len(),
                        word_end(chars@, 0) == word_end(chars@, end as int),
                    decreases chars.len() - end,
                {
                    end += 1;
                }
                Some(full.substring_char(0, end))
            },
            None => None,
        }
    }
}

/// Whether `text` begins with `prefix`.
pub fn starts_with(text: &Vec<char>, prefix: &Vec<char>) -> (b: bool)
    ensures
        b == (prefix@.len() <= text@.len() && text@.take(prefix@.len() as int) == prefix@),
{
    if prefix.len() > text.len() {
        return false;
    }
    let mut i: usize = 0;
    while i < prefix.len()
        invariant
            i <= prefix.len() <= text.len(),
            text@.take(i as int) == prefix@.take(i as int),
        decreases prefix.len() - i,
    {
        if text[i] != prefix[i] {
            assert(text@.take(prefix@.len() as int)[i as int] != prefix@[i as int]);
            return false;
        }
        i += 1;
        assert(text@.take(i as int) == text@.take(i - 1).push(text@[i - 1]));
        assert(prefix@.take(i as int) == prefix@.take(i - 1).push(prefix@[i - 1]));
    }
    assert(prefix@.take(prefix@.len() as int) == prefix@);
    true
}

} // verus!
