//! Text label: what it shows and how the text falls into lines.

use vstd::prelude::*;
use vstd::string::*;

verus! {

/// Whether the two characters of the line separator, a backslash and the
/// letter `n`, stand at `at` in `text`.
pub open spec fn separator_at(text: Seq<char>, at: int) -> bool {
    0 <= at && at + 1 < text.len() && text[at] == '\\' && text[at + 1] == 'n'
}

/// Whether no separator begins in `text[from..to]`.
pub open spec fn no_separator_in(text: Seq<char>, from: int, to: int) -> bool {
    forall|k: int| from <= k < to ==> !separator_at(text, k)
}

/// The lines of `text[start..]`, where `from >= start` and no separator
/// begins in `text[start..from]`. A separator ends a line, and the next line
/// begins behind it.
pub open spec fn lines_from(text: Seq<char>, start: int, from: int) -> Seq<Seq<char>>
    decreases text.len() - from,
{
    if from >= text.len() || from < start || start < 0 {
        seq![text.subrange(start, text.len() as int)]
    } else if separator_at(text, from) {
        seq![text.subrange(start, from)] + lines_from(text, from + 2, from + 2)
    } else {
        lines_from(text, start, from + 1)
    }
}

/// The lines that `text` falls into.
pub open spec fn split_lines(text: Seq<char>) -> Seq<Seq<char>> {
    lines_from(text, 0, 0)
}

/// The lines put together again, with a separator between every two.
pub open spec fn join_lines(lines: Seq<Seq<char>>) -> Seq<char>
    decreases lines.len(),
{
    if lines.len() == 0 {
        Seq::empty()
    } else if lines.len() == 1 {
        lines[0]
    } else {
        lines[0] + seq!['\\', 'n'] + join_lines(lines.drop_first())
    }
}

/// Splitting loses nothing: the lines of a text, joined by separators, are
/// the text; there is at least one line, and no line holds a separator.
pub proof fn lemma_split_lines(text: Seq<char>)
    ensures
        split_lines(text).len() >= 1,
        join_lines(split_lines(text)) == text,
        forall|n: int, k: int|
            0 <= n < split_lines(text).len() ==> !#[trigger] separator_at(split_lines(text)[n], k),
{
    lemma_lines_from(text, 0, 0);
    assert(text.subrange(0, text.len() as int) =~= text);
}

proof fn lemma_lines_from(text: Seq<char>, start: int, from: int)
    requires
        0 <= start <= from,
        start <= text.len(),
        no_separator_in(text, start, from),
    ensures
        lines_from(text, start, from).len() >= 1,
        join_lines(lines_from(text, start, from)) == text.subrange(start, text.len() as int),
        forall|n: int, k: int|
            0 <= n < lines_from(text, start, from).len() ==> !#[trigger] separator_at(
                lines_from(text, start, from)[n],
                k,
            ),
    decreases text.len() - from,
{
    let lines = lines_from(text, start, from);
    let end = text.len() as int;
    if from >= text.len() {
        let line = text.subrange(start, end);
        assert(lines =~= seq![line]);
        assert forall|k: int| !separator_at(line, k) by {
            if separator_at(line, k) {
                assert(separator_at(text, start + k));
            }
        }
    } else if separator_at(text, from) {
        let line = text.subrange(start, from);
        let rest = lines_from(text, from + 2, from + 2);
        lemma_lines_from(text, from + 2, from + 2);
        assert(lines =~= seq![line] + rest);
        assert(lines.drop_first() =~= rest);
        assert(line + seq!['\\', 'n'] + text.subrange(from + 2, end) =~= text.subrange(start, end));
        assert forall|k: int| !separator_at(line, k) by {
            if separator_at(line, k) {
                assert(separator_at(text, start + k));
            }
        }
        assert forall|n: int, k: int| 0 <= n < lines.len() implies !#[trigger] separator_at(lines[n], k) by {
            if n > 0 {
                assert(lines[n] == rest[n - 1]);
            }
        }
    } else {
        lemma_lines_from(text, start, from + 1);
    }
}

/// A text label.
pub struct Label {
    text: String,
}

impl View for Label {
    type V = Seq<char>;

    closed spec fn view(&self) -> Seq<char> {
        self.text@
    }
}

impl Label {
    /// A label that shows `text`.
    pub fn new(text: &str) -> (label: Label)
        ensures
            label@ == text@,
    {
        Label { text: String::from_str(text) }
    }

    /// The text of the label.
    pub fn text(&self) -> (text: &str)
        ensures
            text@ == self@,
    {
        self.text.as_str()
    }

    /// Replaces the text of the label.
    pub fn set_text(&mut self, text: &str)
        ensures
            final(self)@ == text@,
    {
        self.text = String::from_str(text);
    }

    /// The lines that the label draws, one below the other: the text is cut
    /// at every separator, a backslash followed by the letter `n`.
    pub fn lines(&self) -> (lines: Vec<String>)
        ensures
            lines@.map_values(|line: String| line@) == split_lines(self@),
    {
        let text = self.text.as_str();
        let len = text.unicode_len();
        let mut lines: Vec<String> = Vec::new();
        let mut start: usize = 0;
        let mut from: usize = 0;
        let ghost whole = text@;
        proof {
            assert(lines@.map_values(|line: String| line@) =~= Seq::<Seq<char>>::empty());
        }
        while from < len
            invariant
                whole == text@,
                len == whole.len(),
                start <= from,
                start <= len,
                no_separator_in(whole, start as int, from as int),
                lines@.map_values(|line: String| line@) + lines_from(whole, start as int, from as int)
                    == split_lines(whole),
            decreases len + 2 - from,
        {
            if from + 1 < len && text.get_char(from) == '\\' && text.get_char(from + 1) == 'n' {
                let ghost done = lines@.map_values(|line: String| line@);
                let line = String::from_str(text.substring_char(start, from));
                lines.push(line);
                from = from + 2;
                proof {
                    assert(lines@.map_values(|line: String| line@) =~= done.push(
                        whole.subrange(start as int, from - 2),
                    ));
                    assert(done.push(whole.subrange(start as int, from - 2)) + lines_from(
                        whole,
                        from as int,
                        from as int,
                    ) =~= done + lines_from(whole, start as int, from - 2));
                }
                start = from;
            } else {
                from = from + 1;
            }
        }
        let ghost done = lines@.map_values(|line: String| line@);
        let line = String::from_str(text.substring_char(start, len));
        lines.push(line);
        proof {
            assert(lines@.map_values(|line: String| line@) =~= done.push(
                whole.subrange(start as int, len as int),
            ));
            assert(done.push(whole.subrange(start as int, len as int)) =~= done + lines_from(
                whole,
                start as int,
                from as int,
            ));
        }
        lines
    }
}

/// A handle on a label that may be empty.
pub struct LabelRef(pub Option<Label>);

impl LabelRef {
    /// Replaces the text of the label. An empty handle stays empty.
    pub fn set_text(&mut self, text: &str)
        ensures
            old(self).0 is Some ==> final(self).0 is Some && final(self).0->0@ == text@,
            old(self).0 is None ==> final(self).0 is None,
    {
        match &mut self.0 {
            Some(inner) => {
                inner.set_text(text);
            },
            None => {},
        }
    }

    /// The text of the label, if there is one.
    pub fn text(&self) -> (text: Option<&str>)
        ensures
            self.0 is Some <==> text is Some,
            text matches Some(shown) ==> shown@ == self.0->0@,
    {
        match &self.0 {
            Some(inner) => Some(inner.text()),
            None => None,
        }
    }
}

} // verus!
