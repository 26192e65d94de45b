//! Segmentation of text into extended grapheme clusters, the unit in which
//! every cursor and editing index of this crate is expressed.

use unicode_segmentation::UnicodeSegmentation;
use vstd::prelude::*;
use vstd::string::StringExecFns;
use vstd::seq_lib::lemma_flatten_concat;

verus! {

/// The division of a text into its extended grapheme clusters, in order.
/// It is determined by the characters alone; what it is on given characters
/// is known only through `grapheme_clusters`.
pub uninterp spec fn graphemes(s: Seq<char>) -> Seq<Seq<char>>;

/// Relies on `UnicodeSegmentation::graphemes` (extended clusters): it yields
/// consecutive substrings of the text that cover it entirely, so the clusters
/// concatenate back to the text, and an empty text has no clusters.
#[verifier::external_body]
pub(crate) fn grapheme_clusters(s: &str) -> (r: Vec<String>)
    ensures
        r@.map_values(|g: String| g@) == graphemes(s@),
        r@.map_values(|g: String| g@).flatten() == s@,
        s@.len() == 0 ==> r@.len() == 0,
{
    UnicodeSegmentation::graphemes(s, true).map(String::from).collect()
}

/// Relies on `String::push`: it appends the given character to the end of
/// the string.
#[verifier::external_body]
pub(crate) fn push_char(s: &mut String, c: char)
    ensures
        final(s)@ == old(s)@ + seq![c],
{
    s.push(c);
}

/// Flattening a sequence of sequences splits at any interior point.
pub proof fn lemma_flatten_split(g: Seq<Seq<char>>, i: int)
    requires
        0 <= i <= g.len(),
    ensures
        g.flatten() == g.take(i).flatten() + g.skip(i).flatten(),
{
    assert(g.take(i) + g.skip(i) =~= g);
    lemma_flatten_concat(g.take(i), g.skip(i));
}

/// Extending a flattened subrange by one more inner sequence appends it.
pub proof fn lemma_flatten_subrange_succ(g: Seq<Seq<char>>, from: int, i: int)
    requires
        0 <= from <= i < g.len(),
    ensures
        g.subrange(from, i + 1).flatten() == g.subrange(from, i).flatten() + g[i],
{
    assert(g.subrange(from, i + 1) =~= g.subrange(from, i) + seq![g[i]]);
    lemma_flatten_concat(g.subrange(from, i), seq![g[i]]);
    seq![g[i]].lemma_flatten_singleton();
}

/// Concatenates the clusters `g[from..to]` into one string.
pub(crate) fn concat_range(g: &Vec<String>, from: usize, to: usize) -> (r: String)
    requires
        from <= to <= g@.len(),
    ensures
        r@ == g@.map_values(|x: String| x@).subrange(from as int, to as int).flatten(),
{
    let ghost m = g@.map_values(|x: String| x@);
    let mut r = String::new();
    assert(m.subrange(from as int, from as int).flatten() =~= Seq::<char>::empty());
    let mut i: usize = from;
    while i < to
        invariant
            from <= i <= to <= g@.len(),
            m == g@.map_values(|x: String| x@),
            r@ == m.subrange(from as int, i as int).flatten(),
        decreases to - i,
    {
        r.append(g[i].as_str());
        proof {
            lemma_flatten_subrange_succ(m, from as int, i as int);
        }
        i = i + 1;
    }
    r
}

} // verus!
