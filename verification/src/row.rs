//! A single line of text, edited and rendered by grapheme-cluster index.

use vstd::prelude::*;
use vstd::string::StringExecFns;
use vstd::utf8::encode_utf8;

use crate::grapheme::{concat_range, grapheme_clusters, graphemes, push_char};
use crate::grapheme::lemma_flatten_split;

verus! {

/// Clamps `v` to at most `hi`.
pub open spec fn at_most(v: int, hi: int) -> int {
    if v > hi {
        hi
    } else {
        v
    }
}

/// The content after inserting `c` before grapheme `at`; an index past the
/// end appends instead.
pub open spec fn line_insert(s: Seq<char>, at: int, c: char) -> Seq<char> {
    if at > graphemes(s).len() {
        s.push(c)
    } else {
        graphemes(s).take(at).flatten() + seq![c] + graphemes(s).skip(at).flatten()
    }
}

/// The content after deleting the grapheme at `at`; an index at or past the
/// end leaves the content unchanged.
pub open spec fn line_delete(s: Seq<char>, at: int) -> Seq<char> {
    if at >= graphemes(s).len() {
        s
    } else {
        graphemes(s).take(at).flatten() + graphemes(s).skip(at + 1).flatten()
    }
}

/// The graphemes `[0, at)` of a line, as kept by `split`.
pub open spec fn line_split_head(s: Seq<char>, at: int) -> Seq<char> {
    graphemes(s).take(at_most(at, graphemes(s).len() as int)).flatten()
}

/// The graphemes `[at, length)` of a line, as returned by `split`.
pub open spec fn line_split_tail(s: Seq<char>, at: int) -> Seq<char> {
    graphemes(s).skip(at_most(at, graphemes(s).len() as int)).flatten()
}

/// The substring spanning graphemes `[start, end)`, with `end` clamped to
/// the grapheme count and `start` clamped to `end`.
pub open spec fn line_render(s: Seq<char>, start: int, end: int) -> Seq<char> {
    let e = at_most(end, graphemes(s).len() as int);
    let st = at_most(start, e);
    graphemes(s).subrange(st, e).flatten()
}

/// Inserting a character before a valid grapheme index and then deleting at
/// that same index restores the content exactly. This holds whenever the
/// inserted character stands as a cluster of its own in the changed line's
/// segmentation — that is, whenever it does not combine with a neighbour;
/// the two segmentation premises are what `grapheme_clusters` reports of
/// any line that is really held in a `Row`.
pub proof fn lemma_insert_delete_inverse(s: Seq<char>, at: int, c: char)
    requires
        0 <= at <= graphemes(s).len(),
        graphemes(s).flatten() == s,
        graphemes(line_insert(s, at, c)) == graphemes(s).take(at) + seq![seq![c]] + graphemes(
            s,
        ).skip(at),
    ensures
        line_delete(line_insert(s, at, c), at) == s,
{
    let g = graphemes(s);
    let s1 = line_insert(s, at, c);
    let g1 = graphemes(s1);
    assert(g1.len() == g.len() + 1);
    assert(g1.take(at) =~= g.take(at));
    assert(g1.skip(at + 1) =~= g.skip(at));
    lemma_flatten_split(g, at);
}

/// Splitting a line at any valid index and appending the two parts
/// reproduces the original content; the partition premise is what
/// `grapheme_clusters` reports of any line that is really held in a `Row`.
pub proof fn lemma_split_append(s: Seq<char>, at: int)
    requires
        0 <= at,
        graphemes(s).flatten() == s,
    ensures
        line_split_head(s, at) + line_split_tail(s, at) == s,
{
    lemma_flatten_split(graphemes(s), at_most(at, graphemes(s).len() as int));
}

/// A line of text together with its cached grapheme count.
pub struct Row {
    string: String,
    len: usize,
}

impl View for Row {
    type V = Seq<char>;

    closed spec fn view(&self) -> Seq<char> {
        self.string@
    }
}

impl Row {
    /// The cached count is never stale: it always equals the grapheme count
    /// of the content.
    pub closed spec fn wf(self) -> bool {
        self.len == graphemes(self.string@).len()
    }

    /// Builds a row holding the given text.
    pub fn new(text: &str) -> (r: Row)
        ensures
            r@ == text@,
            r.wf(),
    {
        let string = text.to_owned();
        let cl = grapheme_clusters(text);
        Row { string, len: cl.len() }
    }

    /// The text of the row.
    pub fn as_str(&self) -> (r: &str)
        ensures
            r@ == self@,
    {
        self.string.as_str()
    }

    /// The UTF-8 encoding of the row's text.
    pub fn as_bytes(&self) -> (r: &[u8])
        ensures
            r@ == encode_utf8(self@),
    {
        self.string.as_str().as_bytes()
    }

    /// The number of grapheme clusters in the row, from the cache.
    pub fn len(&self) -> (n: usize)
        requires
            self.wf(),
        ensures
            n == graphemes(self@).len(),
    {
        self.len
    }

    /// Whether the row holds no graphemes.
    pub fn is_empty(&self) -> (r: bool)
        requires
            self.wf(),
        ensures
            r == (graphemes(self@).len() == 0),
    {
        self.len == 0
    }

    /// Recomputes the cached grapheme count from the content.
    pub fn update_len(&mut self)
        ensures
            final(self)@ == old(self)@,
            final(self).wf(),
    {
        let cl = grapheme_clusters(self.string.as_str());
        self.len = cl.len();
    }

    /// Inserts `c` before grapheme `at`, or at the end if `at` is past it.
    pub fn insert(&mut self, at: usize, c: char)
        ensures
            final(self)@ == line_insert(old(self)@, at as int, c),
            final(self).wf(),
            old(self)@.len() == 0 ==> final(self)@ == seq![c],
            at <= graphemes(old(self)@).len() ==> graphemes(old(self)@).take(at as int).flatten()
                + graphemes(old(self)@).skip(at as int).flatten() == old(self)@,
    {
        let cl = grapheme_clusters(self.string.as_str());
        let ghost g = graphemes(self.string@);
        if at > cl.len() {
            push_char(&mut self.string, c);
        } else {
            proof {
                lemma_flatten_split(g, at as int);
            }
            let mut out = concat_range(&cl, 0, at);
            push_char(&mut out, c);
            let rest = concat_range(&cl, at, cl.len());
            out.append(rest.as_str());
            assert(g.take(at as int) =~= g.subrange(0, at as int));
            assert(g.skip(at as int) =~= g.subrange(at as int, g.len() as int));
            self.string = out;
        }
        self.update_len();
    }

    /// Deletes the grapheme at `at`; does nothing if `at` is at or past the
    /// end.
    pub fn delete(&mut self, at: usize)
        requires
            old(self).wf(),
        ensures
            final(self)@ == line_delete(old(self)@, at as int),
            final(self).wf(),
    {
        let cl = grapheme_clusters(self.string.as_str());
        let ghost g = graphemes(self.string@);
        if at >= cl.len() {
            return ;
        }
        let mut out = concat_range(&cl, 0, at);
        let rest = concat_range(&cl, at + 1, cl.len());
        out.append(rest.as_str());
        assert(g.take(at as int) =~= g.subrange(0, at as int));
        assert(g.skip(at as int + 1) =~= g.subrange(at as int + 1, g.len() as int));
        self.string = out;
        self.update_len();
    }

    /// Appends the other row's content to this one.
    pub fn append(&mut self, other: &Row)
        ensures
            final(self)@ == old(self)@ + other@,
            final(self).wf(),
    {
        self.string.append(other.string.as_str());
        self.update_len();
    }

    /// Truncates this row to the graphemes `[0, at)` and returns a row
    /// holding the rest; together they carry the original content.
    pub fn split(&mut self, at: usize) -> (other: Row)
        ensures
            final(self)@ == line_split_head(old(self)@, at as int),
            other@ == line_split_tail(old(self)@, at as int),
            final(self)@ + other@ == old(self)@,
            final(self).wf(),
            other.wf(),
    {
        let cl = grapheme_clusters(self.string.as_str());
        let ghost g = graphemes(self.string@);
        let cut = if at > cl.len() {
            cl.len()
        } else {
            at
        };
        proof {
            lemma_flatten_split(g, cut as int);
        }
        let head = concat_range(&cl, 0, cut);
        let tail = concat_range(&cl, cut, cl.len());
        assert(g.take(cut as int) =~= g.subrange(0, cut as int));
        assert(g.skip(cut as int) =~= g.subrange(cut as int, g.len() as int));
        self.string = head;
        self.update_len();
        Row::new(tail.as_str())
    }

    /// Renders the graphemes `[start, end)` as text, clamped to the row, and
    /// never splitting a cluster; the full range renders the whole content.
    pub fn render(&self, start: usize, end: usize) -> (r: String)
        ensures
            r@ == line_render(self@, start as int, end as int),
            start == 0 && end >= graphemes(self@).len() ==> r@ == self@,
    {
        let cl = grapheme_clusters(self.string.as_str());
        let ghost g = graphemes(self.string@);
        let e = if end > cl.len() {
            cl.len()
        } else {
            end
        };
        let st = if start > e {
            e
        } else {
            start
        };
        let r = concat_range(&cl, st, e);
        proof {
            if start == 0 && end >= g.len() {
                assert(g.subrange(0, g.len() as int) =~= g);
            }
        }
        r
    }
}

impl Default for Row {
    /// An empty row.
    fn default() -> (r: Row)
        ensures
            r@.len() == 0,
            r.wf(),
    {
        proof {
            reveal_strlit("");
        }
        Row::new("")
    }
}

} // verus!
