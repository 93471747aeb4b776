//! Splitting text into grapheme clusters, and putting clusters back together.

use unicode_segmentation::UnicodeSegmentation;
use vstd::prelude::*;

verus! {

/// The extended grapheme clusters of `text`, in the order in which they
/// occur: what `UnicodeSegmentation::graphemes` yields for `text` when asked
/// for extended clusters. Only what `clusters` ensures is known of it.
pub uninterp spec fn grapheme_clusters(text: Seq<char>) -> Seq<Seq<char>>;

/// The text of each string of `parts`.
pub open spec fn texts(parts: Seq<String>) -> Seq<Seq<char>> {
    parts.map_values(|part: String| part@)
}

/// Trusted: calls `UnicodeSegmentation::graphemes` for extended clusters and
/// copies every cluster it yields into a `String` of its own. The iterator
/// hands out consecutive slices of `text` from its first byte to its last, so
/// the clusters put end to end are `text` again.
#[verifier::external_body]
pub(crate) fn clusters(text: &str) -> (parts: Vec<String>)
    ensures
        texts(parts@) == grapheme_clusters(text@),
        texts(parts@).flatten() == text@,
{
    text.graphemes(true).map(String::from).collect()
}

/// Trusted: calls `String::push`, which appends one character to the text.
#[verifier::external_body]
pub(crate) fn push_char(text: &mut String, c: char)
    ensures
        final(text)@ == old(text)@.push(c),
{
    text.push(c)
}

/// Flattening a range extended by one part appends that part.
pub proof fn lemma_flatten_range_step(parts: Seq<Seq<char>>, start: int, end: int)
    requires
        0 <= start <= end < parts.len(),
    ensures
        parts.subrange(start, end + 1).flatten() == parts.subrange(start, end).flatten()
            + parts[end],
{
    assert(parts.subrange(start, end + 1) =~= parts.subrange(start, end).push(parts[end]));
    parts.subrange(start, end).lemma_flatten_push(parts[end]);
}

/// Flattening two adjacent ranges one after the other flattens their union.
pub proof fn lemma_flatten_range_split(parts: Seq<Seq<char>>, start: int, mid: int, end: int)
    requires
        0 <= start <= mid <= end <= parts.len(),
    ensures
        parts.subrange(start, end).flatten() == parts.subrange(start, mid).flatten()
            + parts.subrange(mid, end).flatten(),
{
    assert(parts.subrange(start, end) =~= parts.subrange(start, mid) + parts.subrange(mid, end));
    vstd::seq_lib::lemma_flatten_concat(parts.subrange(start, mid), parts.subrange(mid, end));
}

/// The text of `parts[start..end]`, put end to end, appended to `out`.
pub fn append_range(out: &mut String, parts: &Vec<String>, start: usize, end: usize)
    requires
        start <= end <= parts.len(),
    ensures
        final(out)@ == old(out)@ + texts(parts@).subrange(start as int, end as int).flatten(),
{
    let mut i: usize = start;
    assert(texts(parts@).subrange(start as int, start as int) =~= Seq::<Seq<char>>::empty());
    assert(old(out)@ + Seq::<char>::empty() =~= old(out)@);
    while i < end
        invariant
            start <= i <= end <= parts.len(),
            out@ == old(out)@ + texts(parts@).subrange(start as int, i as int).flatten(),
        decreases end - i,
    {
        proof {
            lemma_flatten_range_step(texts(parts@), start as int, i as int);
        }
        out.append(parts[i].as_str());
        i += 1;
        assert(out@ =~= old(out)@ + texts(parts@).subrange(start as int, i as int).flatten());
    }
}

/// The text of `parts[start..end]`, put end to end.
pub fn join_range(parts: &Vec<String>, start: usize, end: usize) -> (text: String)
    requires
        start <= end <= parts.len(),
    ensures
        text@ == texts(parts@).subrange(start as int, end as int).flatten(),
{
    let mut text = String::new();
    append_range(&mut text, parts, start, end);
    assert(Seq::<char>::empty() + texts(parts@).subrange(start as int, end as int).flatten()
        =~= texts(parts@).subrange(start as int, end as int).flatten());
    text
}

} // verus!
