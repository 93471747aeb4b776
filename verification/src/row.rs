//! A single line of text, indexed and edited in grapheme-cluster units.

use crate::search::{find_cluster, found_in_parts, SearchDirection};
use crate::segment::{append_range, clusters, grapheme_clusters, join_range, push_char, texts};
use crate::segment::lemma_flatten_range_split;
use vstd::prelude::*;
use vstd::utf8::encode_utf8;

verus! {

/// The smaller of two indices.
pub open spec fn spec_min(a: int, b: int) -> int {
    if a <= b {
        a
    } else {
        b
    }
}

/// The text of `parts` with `c` in front of cluster `at`, and behind the last
/// cluster where `at` is not below their number.
pub open spec fn spec_splice(parts: Seq<Seq<char>>, at: int, c: char) -> Seq<char> {
    let cut = spec_min(at, parts.len() as int);
    parts.subrange(0, cut).flatten() + seq![c] + parts.subrange(cut, parts.len() as int).flatten()
}

/// The text of `parts` without cluster `at`, and all of it where there is no
/// such cluster.
pub open spec fn spec_remove(parts: Seq<Seq<char>>, at: int) -> Seq<char> {
    if 0 <= at < parts.len() {
        parts.remove(at).flatten()
    } else {
        parts.flatten()
    }
}

/// What is drawn for one cluster: a lone tab becomes a single space.
pub open spec fn shown(cluster: Seq<char>) -> Seq<char> {
    if cluster == seq!['\t'] {
        seq![' ']
    } else {
        cluster
    }
}

/// What is drawn for the clusters `[start, end)` of `parts`, the range
/// clamped to the clusters that exist.
pub open spec fn spec_draw(parts: Seq<Seq<char>>, start: int, end: int) -> Seq<char> {
    let to = spec_min(end, parts.len() as int);
    let from = spec_min(start, to);
    parts.subrange(from, to).map_values(|cluster: Seq<char>| shown(cluster)).flatten()
}

/// The text after `c` is inserted in front of cluster `at`; at or past the
/// last cluster the character is appended.
pub open spec fn spec_insert(text: Seq<char>, at: int, c: char) -> Seq<char> {
    let parts = grapheme_clusters(text);
    if at >= parts.len() {
        text.push(c)
    } else {
        spec_splice(parts, at, c)
    }
}

/// The text after cluster `at` is removed; unchanged where there is no such
/// cluster.
pub open spec fn spec_delete(text: Seq<char>, at: int) -> Seq<char> {
    let parts = grapheme_clusters(text);
    if at >= parts.len() {
        text
    } else {
        spec_remove(parts, at)
    }
}

/// The clusters `[0, at)` of `text`, with `at` clamped to the cluster count.
pub open spec fn spec_head(text: Seq<char>, at: int) -> Seq<char> {
    let parts = grapheme_clusters(text);
    parts.subrange(0, spec_min(at, parts.len() as int)).flatten()
}

/// The clusters from `at` to the end of `text`, with `at` clamped to the
/// cluster count.
pub open spec fn spec_tail(text: Seq<char>, at: int) -> Seq<char> {
    let parts = grapheme_clusters(text);
    parts.subrange(spec_min(at, parts.len() as int), parts.len() as int).flatten()
}

/// What is drawn for the clusters `[start, end)` of `text`, the range clamped
/// to the clusters that exist.
pub open spec fn spec_render(text: Seq<char>, start: int, end: int) -> Seq<char> {
    spec_draw(grapheme_clusters(text), start, end)
}

/// What a search for `query` in `text` gives, from cluster `at` on in
/// `direction`: the cluster of `text` at which the first match in
/// `[at, end)`, or the last match in `[0, at)`, begins; nothing where `at` is
/// past the end, where there is no match, or where it begins inside a cluster.
pub open spec fn find_outcome(
    text: Seq<char>,
    query: Seq<char>,
    at: int,
    direction: SearchDirection,
    found: Option<usize>,
) -> bool {
    found_in_parts(grapheme_clusters(text), encode_utf8(query), at, direction, found)
}

/// The text of `parts` with `c` in front of cluster `at`, and behind the last
/// cluster where `at` is not below their number.
pub fn splice_char(parts: &Vec<String>, at: usize, c: char) -> (text: String)
    ensures
        text@ == spec_splice(texts(parts@), at as int, c),
{
    let cut: usize = if at <= parts.len() { at } else { parts.len() };
    let mut text = join_range(parts, 0, cut);
    push_char(&mut text, c);
    append_range(&mut text, parts, cut, parts.len());
    text
}

/// The text of `parts` without cluster `at`, and all of it where there is no
/// such cluster.
pub fn remove_cluster(parts: &Vec<String>, at: usize) -> (text: String)
    ensures
        text@ == spec_remove(texts(parts@), at as int),
{
    let ghost all = texts(parts@);
    if at >= parts.len() {
        assert(all.subrange(0, all.len() as int) =~= all);
        return join_range(parts, 0, parts.len());
    }
    let mut text = join_range(parts, 0, at);
    append_range(&mut text, parts, at + 1, parts.len());
    proof {
        assert(all.remove(at as int) =~= all.subrange(0, at as int) + all.subrange(
            at as int + 1,
            all.len() as int,
        ));
        vstd::seq_lib::lemma_flatten_concat(
            all.subrange(0, at as int),
            all.subrange(at as int + 1, all.len() as int),
        );
    }
    text
}

/// What is drawn for the clusters `[start, end)` of `parts`: their text, with
/// a tab shown as one space.
pub fn draw_range(parts: &Vec<String>, start: usize, end: usize) -> (text: String)
    ensures
        text@ == spec_draw(texts(parts@), start as int, end as int),
{
    let to: usize = if end <= parts.len() { end } else { parts.len() };
    let from: usize = if start <= to { start } else { to };
    let tab = String::from_str("\t");
    let ghost all = texts(parts@);
    let ghost draw = |cluster: Seq<char>| shown(cluster);
    proof {
        reveal_strlit("\t");
        reveal_strlit(" ");
        assert(tab@ =~= seq!['\t']);
        assert(" "@ =~= seq![' ']);
        assert(all.subrange(from as int, from as int).map_values(draw) =~= Seq::<
            Seq<char>,
        >::empty());
    }
    let mut text = String::new();
    let mut i: usize = from;
    while i < to
        invariant
            from <= i <= to <= parts.len(),
            all == texts(parts@),
            tab@ == seq!['\t'],
            " "@ == seq![' '],
            draw == |cluster: Seq<char>| shown(cluster),
            text@ == all.subrange(from as int, i as int).map_values(draw).flatten(),
        decreases to - i,
    {
        proof {
            assert(all.subrange(from as int, i as int + 1).map_values(draw) =~= all.subrange(
                from as int,
                i as int,
            ).map_values(draw).push(shown(all[i as int])));
            all.subrange(from as int, i as int).map_values(draw).lemma_flatten_push(
                shown(all[i as int]),
            );
        }
        if parts[i] == tab {
            text.append(" ");
        } else {
            text.append(parts[i].as_str());
        }
        i = i + 1;
    }
    text
}

/// One line of text together with the number of its grapheme clusters.
pub struct Row {
    string: String,
    len: usize,
}

impl View for Row {
    type V = Seq<char>;

    /// The text of the row.
    closed spec fn view(&self) -> Seq<char> {
        self.string@
    }
}

impl Default for Row {
    /// The row without text.
    fn default() -> (row: Row)
        ensures
            row.wf(),
            row@ == Seq::<char>::empty(),
    {
        proof {
            reveal_strlit("");
            assert(""@ =~= Seq::<char>::empty());
        }
        Row::from("")
    }
}

impl Row {
    /// The cluster count that the row has stored.
    pub closed spec fn cached_len(&self) -> nat {
        self.len as nat
    }

    /// What holds of every row: the stored count is the number of clusters
    /// of the text, and the clusters put end to end are the text.
    #[verifier::type_invariant]
    pub open spec fn wf(&self) -> bool {
        &&& self.cached_len() == grapheme_clusters(self@).len()
        &&& grapheme_clusters(self@).flatten() == self@
    }

    /// A row that holds `text`, with its clusters counted.
    fn holding(text: String) -> (row: Row)
        ensures
            row.wf(),
            row@ == text@,
    {
        let parts = clusters(text.as_str());
        Row { string: text, len: parts.len() }
    }

    /// A row that holds `slice`.
    pub fn from(slice: &str) -> (row: Row)
        ensures
            row.wf(),
            row@ == slice@,
    {
        Row::holding(String::from_str(slice))
    }

    /// What is drawn for the clusters `[start, end)`: their text, with a tab
    /// shown as one space.
    pub fn render(&self, start: usize, end: usize) -> (text: String)
        ensures
            text@ == spec_render(self@, start as int, end as int),
    {
        let parts = clusters(self.string.as_str());
        draw_range(&parts, start, end)
    }

    /// The number of grapheme clusters.
    pub fn len(&self) -> (n: usize)
        ensures
            n == self.cached_len(),
            n == grapheme_clusters(self@).len(),
    {
        proof {
            use_type_invariant(self);
        }
        self.len
    }

    /// Whether the row holds no cluster.
    pub fn is_empty(&self) -> (empty: bool)
        ensures
            empty == (self.cached_len() == 0),
            empty == (grapheme_clusters(self@).len() == 0),
    {
        proof {
            use_type_invariant(self);
        }
        self.len == 0
    }

    /// Counts the clusters of the text again and stores the count.
    pub fn update_len(&mut self)
        ensures
            final(self).wf(),
            final(self)@ == old(self)@,
    {
        let parts = clusters(self.string.as_str());
        self.len = parts.len();
    }

    /// Inserts `c` in front of cluster `at`, or at the end where `at` is not
    /// below the length.
    pub fn insert(&mut self, at: usize, c: char)
        ensures
            final(self).wf(),
            final(self)@ == spec_insert(old(self)@, at as int, c),
    {
        proof {
            use_type_invariant(&*self);
        }
        let text = if at >= self.len {
            let mut text = self.string.clone();
            push_char(&mut text, c);
            text
        } else {
            let parts = clusters(self.string.as_str());
            splice_char(&parts, at, c)
        };
        *self = Row::holding(text);
    }

    /// Removes cluster `at`; does nothing where `at` is not below the length.
    pub fn delete(&mut self, at: usize)
        ensures
            final(self).wf(),
            final(self)@ == spec_delete(old(self)@, at as int),
    {
        proof {
            use_type_invariant(&*self);
        }
        if at >= self.len {
            return ;
        }
        let parts = clusters(self.string.as_str());
        *self = Row::holding(remove_cluster(&parts, at));
    }

    /// Puts the text of `new` behind the text of this row.
    pub fn append(&mut self, new: &Row)
        ensures
            final(self).wf(),
            final(self)@ == old(self)@ + new@,
    {
        let mut text = self.string.clone();
        text.append(new.string.as_str());
        *self = Row::holding(text);
    }

    /// Keeps the clusters `[0, at)` and hands back a row with the rest.
    pub fn split(&mut self, at: usize) -> (rest: Row)
        ensures
            final(self).wf(),
            rest.wf(),
            final(self)@ == spec_head(old(self)@, at as int),
            rest@ == spec_tail(old(self)@, at as int),
            final(self)@ + rest@ == old(self)@,
    {
        let parts = clusters(self.string.as_str());
        let cut: usize = if at <= parts.len() { at } else { parts.len() };
        let beginning = join_range(&parts, 0, cut);
        let remainder = join_range(&parts, cut, parts.len());
        proof {
            lemma_flatten_range_split(texts(parts@), 0, cut as int, parts.len() as int);
            assert(texts(parts@).subrange(0, parts.len() as int) =~= texts(parts@));
        }
        *self = Row::holding(beginning);
        Row::holding(remainder)
    }

    /// A copy of the whole text, as it is stored.
    pub fn text(&self) -> (text: String)
        ensures
            text@ == self@,
    {
        self.string.clone()
    }

    /// The text in UTF-8.
    pub fn as_bytes(&self) -> (bytes: &[u8])
        ensures
            bytes@ == encode_utf8(self@),
    {
        self.string.as_str().as_bytes()
    }

    /// Searches for `query` from cluster `at` on: forward in `[at, len)` for
    /// its first occurrence, backward in `[0, at)` for its last. Gives the
    /// index of the cluster at which the occurrence begins.
    pub fn find(&self, query: &str, at: usize, direction: SearchDirection) -> (found: Option<usize>)
        ensures
            find_outcome(self@, query@, at as int, direction, found),
    {
        let parts = clusters(self.string.as_str());
        find_cluster(&parts, query, at, direction)
    }
}

/// Splitting a row and appending the second half to the first gives the row
/// back: the same text and the same length.
pub proof fn lemma_split_append_round_trip(whole: Row, head: Row, tail: Row, joined: Row, at: int)
    requires
        whole.wf(),
        0 <= at,
        head@ == spec_head(whole@, at),
        tail@ == spec_tail(whole@, at),
        joined.wf(),
        joined@ == head@ + tail@,
    ensures
        joined@ == whole@,
        joined.cached_len() == whole.cached_len(),
{
    let parts = grapheme_clusters(whole@);
    let cut = spec_min(at, parts.len() as int);
    lemma_flatten_range_split(parts, 0, cut, parts.len() as int);
    assert(parts.subrange(0, parts.len() as int) =~= parts);
}

} // verus!
