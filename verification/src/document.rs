//! An ordered sequence of rows with newline-aware insertion and deletion,
//! a dirty flag, and conversion from and to a flat text.

use vstd::prelude::*;
use vstd::string::StringExecFns;

use crate::editor::Position;
use crate::grapheme::{graphemes, push_char};
use crate::row::{line_delete, line_insert, line_split_head, line_split_tail, Row};

verus! {

/// The index of the first newline in `s`, or `s.len()` if there is none.
pub open spec fn first_break(s: Seq<char>) -> int
    decreases s.len(),
{
    if s.len() == 0 {
        0
    } else if s[0] == '\n' {
        0
    } else {
        1 + first_break(s.drop_first())
    }
}

/// The division of a text into lines: one line per segment between newline
/// terminators, the terminators stripped, and a final unterminated segment
/// kept only if it is nonempty.
pub open spec fn split_lines(s: Seq<char>) -> Seq<Seq<char>>
    decreases s.len(),
{
    if s.len() == 0 {
        Seq::empty()
    } else {
        let i = first_break(s);
        if 0 <= i < s.len() {
            seq![s.take(i)] + split_lines(s.skip(i + 1))
        } else {
            seq![s]
        }
    }
}

/// The flat text of a sequence of lines: each line followed by a newline.
pub open spec fn join_lines(lines: Seq<Seq<char>>) -> Seq<char>
    decreases lines.len(),
{
    if lines.len() == 0 {
        Seq::empty()
    } else {
        lines[0] + seq!['\n'] + join_lines(lines.drop_first())
    }
}

/// `first_break` finds exactly the position `k` before which no newline
/// stands and at which one stands, if any does.
proof fn lemma_first_break_at(s: Seq<char>, k: int)
    requires
        0 <= k <= s.len(),
        forall|j: int| 0 <= j < k ==> s[j] != '\n',
        k < s.len() ==> s[k] == '\n',
    ensures
        first_break(s) == k,
    decreases s.len(),
{
    if s.len() == 0 {
    } else if s[0] == '\n' {
        assert(k == 0);
    } else {
        assert(k > 0);
        lemma_first_break_at(s.drop_first(), k - 1);
    }
}

/// Splitting a text that starts with a newline-free segment and its
/// terminator yields that segment and then the split of the rest.
proof fn lemma_split_lines_prefix(p: Seq<char>, rest: Seq<char>)
    requires
        forall|j: int| 0 <= j < p.len() ==> p[j] != '\n',
    ensures
        split_lines(p + seq!['\n'] + rest) == seq![p] + split_lines(rest),
{
    let s = p + seq!['\n'] + rest;
    lemma_first_break_at(s, p.len() as int);
    assert(s.take(p.len() as int) =~= p);
    assert(s.skip(p.len() as int + 1) =~= rest);
}

/// A nonempty text without newlines splits into that one line.
proof fn lemma_split_lines_whole(p: Seq<char>)
    requires
        p.len() > 0,
        forall|j: int| 0 <= j < p.len() ==> p[j] != '\n',
    ensures
        split_lines(p) == seq![p],
{
    lemma_first_break_at(p, p.len() as int);
}

/// Appending one more line to a joined text appends the line and a newline.
proof fn lemma_join_lines_snoc(lines: Seq<Seq<char>>, line: Seq<char>)
    ensures
        join_lines(lines.push(line)) == join_lines(lines) + line + seq!['\n'],
    decreases lines.len(),
{
    if lines.len() == 0 {
        reveal_with_fuel(join_lines, 2);
        assert(lines.push(line).drop_first() =~= Seq::<Seq<char>>::empty());
        assert(join_lines(lines.push(line)) =~= join_lines(lines) + line + seq!['\n']);
    } else {
        assert(lines.push(line).drop_first() =~= lines.drop_first().push(line));
        lemma_join_lines_snoc(lines.drop_first(), line);
        assert(join_lines(lines.push(line)) =~= join_lines(lines) + line + seq!['\n']);
    }
}

/// The lines after inserting `c` at column `x` of line `y`. A newline splits
/// the line in two; at the line just past the last, a fresh line is made; a
/// row index further out changes nothing.
pub open spec fn doc_insert(lines: Seq<Seq<char>>, x: int, y: int, c: char) -> Seq<Seq<char>> {
    if y > lines.len() {
        lines
    } else if c == '\n' {
        if y == lines.len() {
            lines.push(Seq::empty())
        } else {
            lines.update(y, line_split_head(lines[y], x)).insert(y + 1, line_split_tail(lines[y], x))
        }
    } else if y == lines.len() {
        lines.push(seq![c])
    } else {
        lines.update(y, line_insert(lines[y], x, c))
    }
}

/// The lines after deleting at column `x` of line `y`: at the end of a line
/// that another follows, the two merge; otherwise the line loses the
/// grapheme at `x`, if any; a row index past the lines changes nothing.
pub open spec fn doc_delete(lines: Seq<Seq<char>>, x: int, y: int) -> Seq<Seq<char>> {
    if y >= lines.len() {
        lines
    } else if x == graphemes(lines[y]).len() && y + 1 < lines.len() {
        lines.update(y, lines[y] + lines[y + 1]).remove(y + 1)
    } else {
        lines.update(y, line_delete(lines[y], x))
    }
}

/// Whether deleting at `(x, y)` changes the lines at all.
pub open spec fn doc_delete_mutates(lines: Seq<Seq<char>>, x: int, y: int) -> bool {
    y < lines.len() && (x < graphemes(lines[y]).len() || (x == graphemes(lines[y]).len() && y + 1
        < lines.len()))
}

/// The line buffer of one open file.
pub struct Document {
    rows: Vec<Row>,
    pub file_name: Option<String>,
    dirty: bool,
}

impl View for Document {
    type V = Seq<Seq<char>>;

    closed spec fn view(&self) -> Seq<Seq<char>> {
        self.rows@.map_values(|r: Row| r@)
    }
}

impl Document {
    /// Every row's cached grapheme count is current.
    pub closed spec fn wf(self) -> bool {
        forall|i: int| 0 <= i < self.rows@.len() ==> (#[trigger] self.rows@[i]).wf()
    }

    /// Whether unsaved mutations exist.
    pub closed spec fn spec_dirty(self) -> bool {
        self.dirty
    }

    /// The optional name the document is saved under.
    pub closed spec fn spec_file_name(self) -> Option<String> {
        self.file_name
    }

    /// Builds the document whose lines are the segments of `contents`.
    pub fn open(contents: &str, file_name: Option<String>) -> (d: Document)
        ensures
            d@ == split_lines(contents@),
            !d.spec_dirty(),
            d.spec_file_name() == file_name,
            d.wf(),
    {
        let n = contents.unicode_len();
        let mut rows: Vec<Row> = Vec::new();
        let mut cur = String::new();
        let mut i: usize = 0;
        proof {
            assert(cur@ + contents@.skip(0) =~= contents@);
        }
        while i < n
            invariant
                i <= n,
                n == contents@.len(),
                split_lines(contents@) == rows@.map_values(|r: Row| r@) + split_lines(
                    cur@ + contents@.skip(i as int),
                ),
                forall|j: int| 0 <= j < cur@.len() ==> cur@[j] != '\n',
                forall|j: int| 0 <= j < rows@.len() ==> (#[trigger] rows@[j]).wf(),
            decreases n - i,
        {
            let ghost prev = cur@;
            let c = contents.get_char(i);
            if c == '\n' {
                let row = Row::new(cur.as_str());
                rows.push(row);
                cur = String::new();
                proof {
                    assert(prev + contents@.skip(i as int) =~= prev + seq!['\n'] + contents@.skip(
                        i as int + 1,
                    ));
                    lemma_split_lines_prefix(prev, contents@.skip(i as int + 1));
                    assert(rows@.map_values(|r: Row| r@) =~= rows@.drop_last().map_values(
                        |r: Row| r@,
                    ).push(row@));
                    assert(cur@ + contents@.skip(i as int + 1) =~= contents@.skip(i as int + 1));
                }
            } else {
                push_char(&mut cur, c);
                proof {
                    assert(cur@ + contents@.skip(i as int + 1) =~= prev + contents@.skip(i as int));
                }
            }
            i = i + 1;
        }
        proof {
            assert(cur@ + contents@.skip(n as int) =~= cur@);
        }
        if !cur.as_str().is_empty() {
            let row = Row::new(cur.as_str());
            rows.push(row);
            proof {
                lemma_split_lines_whole(cur@);
                assert(rows@.map_values(|r: Row| r@) =~= rows@.drop_last().map_values(
                    |r: Row| r@,
                ).push(row@));
            }
        }
        Document { rows, file_name, dirty: false }
    }

    /// The flat text of the document: every line followed by a newline.
    pub fn contents(&self) -> (r: String)
        requires
            self.wf(),
        ensures
            r@ == join_lines(self@),
    {
        let mut r = String::new();
        let mut i: usize = 0;
        proof {
            assert(self@.take(0) =~= Seq::<Seq<char>>::empty());
        }
        while i < self.rows.len()
            invariant
                i <= self.rows@.len(),
                self@.len() == self.rows@.len(),
                r@ == join_lines(self@.take(i as int)),
            decreases self.rows@.len() - i,
        {
            r.append(self.rows[i].as_str());
            push_char(&mut r, '\n');
            proof {
                lemma_join_lines_snoc(self@.take(i as int), self@[i as int]);
                assert(self@.take(i as int + 1) =~= self@.take(i as int).push(self@[i as int]));
            }
            i = i + 1;
        }
        proof {
            assert(self@.take(self.rows@.len() as int) =~= self@);
        }
        r
    }

    /// Records that the current content has been written out.
    pub fn mark_saved(&mut self)
        requires
            old(self).wf(),
        ensures
            final(self)@ == old(self)@,
            final(self).spec_file_name() == old(self).spec_file_name(),
            !final(self).spec_dirty(),
            final(self).wf(),
    {
        self.dirty = false;
    }

    /// Whether unsaved mutations exist.
    pub fn is_dirty(&self) -> (r: bool)
        ensures
            r == self.spec_dirty(),
    {
        self.dirty
    }

    /// The number of lines.
    pub fn len(&self) -> (n: usize)
        ensures
            n == self@.len(),
    {
        self.rows.len()
    }

    /// Whether the document shows no text: no line at all, or one empty
    /// line.
    pub fn is_empty(&self) -> (r: bool)
        requires
            self.wf(),
        ensures
            r == (self@.len() == 0 || (self@.len() == 1 && graphemes(self@[0]).len() == 0)),
    {
        if self.rows.len() == 0 {
            true
        } else if self.rows.len() == 1 {
            self.rows[0].is_empty()
        } else {
            false
        }
    }

    /// The row at `index`, or nothing past the last line.
    pub fn row(&self, index: usize) -> (r: Option<&Row>)
        requires
            self.wf(),
        ensures
            match r {
                Some(row) => index < self@.len() && row@ == self@[index as int] && row.wf(),
                None => index >= self@.len(),
            },
    {
        if index < self.rows.len() {
            Some(&self.rows[index])
        } else {
            None
        }
    }

    /// Inserts `c` at `at`, splitting the line when `c` is a newline, and
    /// marks the document dirty whenever a line was touched or made.
    pub fn insert(&mut self, at: &Position, c: char)
        requires
            old(self).wf(),
        ensures
            final(self).wf(),
            final(self)@ == doc_insert(old(self)@, at.x as int, at.y as int, c),
            final(self).spec_dirty() == (old(self).spec_dirty() || at.y <= old(self)@.len()),
            final(self).spec_file_name() == old(self).spec_file_name(),
    {
        if at.y > self.rows.len() {
            return ;
        }
        self.dirty = true;
        if c == '\n' {
            if at.y == self.rows.len() {
                self.rows.push(Row::default());
                proof {
                    assert(self.rows@.map_values(|r: Row| r@) =~~= old(self)@.push(Seq::empty()));
                }
            } else {
                let mut row = self.rows.remove(at.y);
                let tail = row.split(at.x);
                self.rows.insert(at.y, row);
                self.rows.insert(at.y + 1, tail);
                proof {
                    assert(self.rows@.map_values(|r: Row| r@) =~= old(self)@.update(
                        at.y as int,
                        row@,
                    ).insert(at.y as int + 1, tail@));
                }
            }
        } else if at.y == self.rows.len() {
            let mut row = Row::default();
            row.insert(at.x, c);
            self.rows.push(row);
            proof {
                assert(self.rows@.map_values(|r: Row| r@) =~= old(self)@.push(seq![c]));
            }
        } else {
            let mut row = self.rows.remove(at.y);
            row.insert(at.x, c);
            self.rows.insert(at.y, row);
            proof {
                assert(self.rows@.map_values(|r: Row| r@) =~= old(self)@.update(at.y as int, row@));
            }
        }
    }

    /// Deletes at `at`: at the end of a line that another follows, the next
    /// line merges into this one; otherwise the grapheme at `at.x` goes, if
    /// any. Marks the document dirty only if something changed.
    pub fn delete(&mut self, at: &Position)
        requires
            old(self).wf(),
        ensures
            final(self).wf(),
            final(self)@ == doc_delete(old(self)@, at.x as int, at.y as int),
            final(self).spec_dirty() == (old(self).spec_dirty() || doc_delete_mutates(
                old(self)@,
                at.x as int,
                at.y as int,
            )),
            final(self).spec_file_name() == old(self).spec_file_name(),
    {
        let len = self.rows.len();
        if at.y >= len {
            return ;
        }
        let row_len = self.rows[at.y].len();
        if at.x == row_len && at.y + 1 < len {
            let next = self.rows.remove(at.y + 1);
            let mut row = self.rows.remove(at.y);
            row.append(&next);
            self.rows.insert(at.y, row);
            self.dirty = true;
            proof {
                assert(self.rows@.map_values(|r: Row| r@) =~= old(self)@.update(
                    at.y as int,
                    old(self)@[at.y as int] + old(self)@[at.y as int + 1],
                ).remove(at.y as int + 1));
            }
        } else {
            let mut row = self.rows.remove(at.y);
            row.delete(at.x);
            self.rows.insert(at.y, row);
            if at.x < row_len {
                self.dirty = true;
            }
            proof {
                assert(self.rows@.map_values(|r: Row| r@) =~= old(self)@.update(
                    at.y as int,
                    line_delete(old(self)@[at.y as int], at.x as int),
                ));
            }
        }
    }
}

impl Default for Document {
    /// An empty document with no name: no lines, nothing unsaved.
    fn default() -> (d: Document)
        ensures
            d@.len() == 0,
            !d.spec_dirty(),
            d.spec_file_name() is None,
            d.wf(),
    {
        Document { rows: Vec::new(), file_name: None, dirty: false }
    }
}

} // verus!
