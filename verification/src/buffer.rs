//! The line buffer: an optional ordered sequence of text lines, the name of
//! the file it came from, and the 1-indexed "current line" cursor.

use vstd::prelude::*;
use vstd::utf8::encode_utf8;
use crate::ed_command_error::EdCommandError;
use crate::text::{encode_lines, joined_text};

verus! {

/// The byte count of the buffered lines as they would be written to disk:
/// the UTF-8 length of every line plus one newline each.
pub open spec fn char_total(lines: Seq<Seq<char>>) -> int
    decreases lines.len(),
{
    if lines.len() == 0 {
        0
    } else {
        char_total(lines.drop_last()) + encode_utf8(lines.last()).len() + 1
    }
}

/// A longer prefix of the lines never has a smaller byte count.
pub proof fn lemma_char_total_prefix(lines: Seq<Seq<char>>, j: int)
    requires
        0 <= j <= lines.len(),
    ensures
        char_total(lines.take(j)) <= char_total(lines),
    decreases lines.len() - j,
{
    if j < lines.len() {
        assert(lines.take(j + 1).drop_last() =~= lines.take(j));
        lemma_char_total_prefix(lines, j + 1);
    } else {
        assert(lines.take(j) =~= lines);
    }
}

/// Owns the buffered lines. `lines == None` means "never populated", which is
/// distinct from `Some` of an empty vector ("loaded but cleared"); read
/// operations treat the two alike. `current_line` is 1-indexed; `0` means
/// "before the first line". The cursor may drift past the end of a shrunk
/// buffer; the command executor clamps it at the start of every command.
#[derive(Debug, PartialEq, Eq, Clone)]
pub struct LineBuffer {
    pub lines: Option<Vec<String>>,
    pub filename: Option<String>,
    pub current_line: usize,
}

impl LineBuffer {
    /// The buffered lines as a sequence, an empty sequence when absent.
    pub open spec fn lines_view(&self) -> Seq<String> {
        match self.lines {
            Some(v) => v@,
            None => Seq::empty(),
        }
    }

    /// The buffered lines as a sequence of character sequences.
    pub open spec fn text_view(&self) -> Seq<Seq<char>> {
        match self.lines {
            Some(v) => v.deep_view(),
            None => Seq::empty(),
        }
    }

    /// Number of buffered lines, `0` when absent.
    pub open spec fn line_count(&self) -> nat {
        self.lines_view().len()
    }

    /// A buffer with no lines, no file name, and the cursor at rest.
    pub fn empty() -> (r: LineBuffer)
        ensures
            r.lines is None,
            r.filename is None,
            r.current_line == 0,
    {
        LineBuffer { lines: None, filename: None, current_line: 0 }
    }

    /// Number of buffered lines, `0` when absent.
    pub fn len(&self) -> (r: usize)
        ensures
            r == self.line_count(),
    {
        match &self.lines {
            Some(v) => v.len(),
            None => 0,
        }
    }

    /// The buffer rendered as the text that a save writes: every line
    /// followed by one newline, and nothing at all when no lines are held.
    pub fn text(&self) -> (r: String)
        ensures
            r@ == joined_text(self.text_view()),
    {
        match &self.lines {
            Some(v) => encode_lines(v),
            None => String::new(),
        }
    }

    /// Resolves where a save goes: the explicit `filename` when given,
    /// otherwise the remembered one; with neither, the save is refused with
    /// `MissingFilename`. Nothing is remembered here: the caller confirms a
    /// successful write with `remember_filename`, so a failed write leaves
    /// the remembered name as it was.
    pub fn save_target(&self, filename: Option<&str>) -> (r: Result<String, EdCommandError>)
        ensures
            match filename {
                Some(f) => r matches Ok(t) && t@ == f@,
                None => match self.filename {
                    Some(g) => r matches Ok(t) && t@ == g@,
                    None => r == Err::<String, EdCommandError>(EdCommandError::MissingFilename),
                },
            },
    {
        match filename {
            Some(f) => Ok(String::from_str(f)),
            None => match &self.filename {
                Some(g) => Ok(g.clone()),
                None => Err(EdCommandError::MissingFilename),
            },
        }
    }

    /// Remembers the file the buffer was last successfully written to (or
    /// read from), as the default target of a later save. The lines and the
    /// cursor are untouched.
    pub fn remember_filename(&mut self, filename: &str)
        ensures
            final(self).lines == old(self).lines,
            final(self).current_line == old(self).current_line,
            final(self).filename matches Some(g) && g@ == filename@,
    {
        self.filename = Some(String::from_str(filename));
    }

    /// The byte count a save of this buffer would write: the UTF-8 length of
    /// every line plus one newline each; `None` when no lines were ever
    /// held. The count must fit the machine word.
    pub fn char_length(&self) -> (r: Option<usize>)
        requires
            self.lines matches Some(v) ==> char_total(v.deep_view()) <= usize::MAX,
        ensures
            match self.lines {
                Some(v) => r matches Some(t) && t as int == char_total(v.deep_view()),
                None => r is None,
            },
    {
        match &self.lines {
            None => None,
            Some(v) => {
                let ghost all = v.deep_view();
                let mut total: usize = 0;
                let mut i: usize = 0;
                proof {
                    assert(all.take(0) =~= Seq::<Seq<char>>::empty());
                }
                while i < v.len()
                    invariant
                        i <= v.len(),
                        all == v.deep_view(),
                        all.len() == v@.len(),
                        char_total(all) <= usize::MAX,
                        total as int == char_total(all.take(i as int)),
                    decreases v.len() - i,
                {
                    let l = v[i].as_str().len();
                    proof {
                        assert(all.take(i as int + 1).drop_last() =~= all.take(i as int));
                        assert(all.take(i as int + 1).last() == all[i as int]);
                        lemma_char_total_prefix(all, i as int + 1);
                    }
                    total = total + l + 1;
                    i = i + 1;
                }
                proof {
                    assert(all.take(v@.len() as int) =~= all);
                }
                Some(total)
            },
        }
    }
}

} // verus!
