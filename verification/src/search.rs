//! Finding a piece of text in a sequence of grapheme clusters.

use crate::segment::{join_range, texts};
use vstd::prelude::*;
use vstd::utf8::encode_utf8;

verus! {

/// The order in which a search scans.
#[derive(Clone, Copy, PartialEq, Eq, Structural, Debug)]
pub enum SearchDirection {
    Forward,
    Backward,
}

/// `needle` stands in `hay` at byte index `i`.
pub open spec fn occurs_at(hay: Seq<u8>, needle: Seq<u8>, i: int) -> bool {
    0 <= i && i + needle.len() <= hay.len() && hay.subrange(i, i + needle.len()) == needle
}

/// `found` is the least byte index at which `needle` stands in `hay`, or
/// nothing where it stands nowhere.
pub open spec fn is_first_occurrence(hay: Seq<u8>, needle: Seq<u8>, found: Option<usize>) -> bool {
    match found {
        Some(i) => occurs_at(hay, needle, i as int) && forall|j: int|
            0 <= j < i ==> !occurs_at(hay, needle, j),
        None => forall|j: int| !occurs_at(hay, needle, j),
    }
}

/// `found` is the greatest byte index at which `needle` stands in `hay`, or
/// nothing where it stands nowhere.
pub open spec fn is_last_occurrence(hay: Seq<u8>, needle: Seq<u8>, found: Option<usize>) -> bool {
    match found {
        Some(i) => occurs_at(hay, needle, i as int) && forall|j: int|
            i < j ==> !occurs_at(hay, needle, j),
        None => forall|j: int| !occurs_at(hay, needle, j),
    }
}

/// `found` is the occurrence that a scan in `direction` meets first.
pub open spec fn is_occurrence(
    direction: SearchDirection,
    hay: Seq<u8>,
    needle: Seq<u8>,
    found: Option<usize>,
) -> bool {
    match direction {
        SearchDirection::Forward => is_first_occurrence(hay, needle, found),
        SearchDirection::Backward => is_last_occurrence(hay, needle, found),
    }
}

/// The number of bytes that the clusters `[start, end)` of `parts` take up in
/// UTF-8.
pub open spec fn byte_span(parts: Seq<Seq<char>>, start: int, end: int) -> int
    decreases end - start,
{
    if end <= start {
        0
    } else {
        byte_span(parts, start, end - 1) + encode_utf8(parts[end - 1]).len()
    }
}

/// `found` is the first cluster of `[start, end)` that begins exactly `offset`
/// bytes after cluster `start` does, or nothing where no cluster begins there.
pub open spec fn is_cluster_at(
    parts: Seq<Seq<char>>,
    start: int,
    end: int,
    offset: int,
    found: Option<usize>,
) -> bool {
    match found {
        Some(i) => start <= i < end && byte_span(parts, start, i as int) == offset && forall|j: int|
            start <= j < i ==> byte_span(parts, start, j) != offset,
        None => forall|j: int| start <= j < end ==> byte_span(parts, start, j) != offset,
    }
}

/// `found` is what a search for the bytes `query` gives in the clusters
/// `[start, end)` of `parts`: the cluster that begins where the occurrence
/// that a scan in `direction` meets first begins, and nothing where there is
/// no occurrence or it begins inside a cluster.
pub open spec fn found_in_window(
    parts: Seq<Seq<char>>,
    start: int,
    end: int,
    query: Seq<u8>,
    direction: SearchDirection,
    found: Option<usize>,
) -> bool {
    exists|hit: Option<usize>| #[trigger]
        is_occurrence(direction, encode_utf8(parts.subrange(start, end).flatten()), query, hit)
            && match hit {
            Some(offset) => is_cluster_at(parts, start, end, offset as int, found),
            None => found is None,
        }
}

/// What a search for the bytes `query` gives in `parts`, from cluster `at`
/// on in `direction`: nothing where `at` is past the end; else the outcome of
/// the search in the clusters `[at, end)` forward, in `[0, at)` backward.
pub open spec fn found_in_parts(
    parts: Seq<Seq<char>>,
    query: Seq<u8>,
    at: int,
    direction: SearchDirection,
    found: Option<usize>,
) -> bool {
    if at > parts.len() {
        found is None
    } else {
        match direction {
            SearchDirection::Forward => found_in_window(
                parts,
                at,
                parts.len() as int,
                query,
                direction,
                found,
            ),
            SearchDirection::Backward => found_in_window(parts, 0, at, query, direction, found),
        }
    }
}

/// A search has one outcome: two results that both answer the same search
/// are the same result.
pub proof fn lemma_found_in_parts_unique(
    parts: Seq<Seq<char>>,
    query: Seq<u8>,
    at: int,
    direction: SearchDirection,
    a: Option<usize>,
    b: Option<usize>,
)
    requires
        found_in_parts(parts, query, at, direction, a),
        found_in_parts(parts, query, at, direction, b),
    ensures
        a == b,
{
    if at <= parts.len() {
        let start = if direction == SearchDirection::Forward { at } else { 0 };
        let end = if direction == SearchDirection::Forward { parts.len() as int } else { at };
        let hay = encode_utf8(parts.subrange(start, end).flatten());
        let first = choose|hit: Option<usize>| #[trigger]
            is_occurrence(direction, hay, query, hit) && match hit {
                Some(offset) => is_cluster_at(parts, start, end, offset as int, a),
                None => a is None,
            };
        let second = choose|hit: Option<usize>| #[trigger]
            is_occurrence(direction, hay, query, hit) && match hit {
                Some(offset) => is_cluster_at(parts, start, end, offset as int, b),
                None => b is None,
            };
        assert(first == second);
    }
}

/// Trusted: calls `str::find` with a string as the pattern, which gives the
/// byte index of the first place where the pattern stands in the text.
#[verifier::external_body]
fn first_match(hay: &str, needle: &str) -> (found: Option<usize>)
    ensures
        is_first_occurrence(encode_utf8(hay@), encode_utf8(needle@), found),
{
    hay.find(needle)
}

/// Trusted: calls `str::rfind` with a string as the pattern, which gives the
/// byte index of the last place where the pattern stands in the text.
#[verifier::external_body]
fn last_match(hay: &str, needle: &str) -> (found: Option<usize>)
    ensures
        is_last_occurrence(encode_utf8(hay@), encode_utf8(needle@), found),
{
    hay.rfind(needle)
}

/// A span never shrinks when its end moves right.
pub proof fn lemma_byte_span_monotone(parts: Seq<Seq<char>>, start: int, mid: int, end: int)
    requires
        start <= mid <= end,
    ensures
        byte_span(parts, start, mid) <= byte_span(parts, start, end),
    decreases end - mid,
{
    if mid < end {
        lemma_byte_span_monotone(parts, start, mid, end - 1);
    }
}

/// The cluster of `parts[start..end]` that begins `offset` bytes after cluster
/// `start`, if there is one.
pub fn cluster_at_offset(parts: &Vec<String>, start: usize, end: usize, offset: usize) -> (found:
    Option<usize>)
    requires
        start <= end <= parts.len(),
    ensures
        is_cluster_at(texts(parts@), start as int, end as int, offset as int, found),
{
    let ghost all = texts(parts@);
    let mut i: usize = start;
    let mut begin: usize = 0;
    while i < end
        invariant
            start <= i <= end <= parts.len(),
            all == texts(parts@),
            begin == byte_span(all, start as int, i as int),
            begin <= offset,
            forall|j: int| start <= j < i ==> byte_span(all, start as int, j) != offset as int,
        decreases end - i,
    {
        if begin == offset {
            return Some(i);
        }
        let width: usize = parts[i].as_str().as_bytes().len();
        assert(width == encode_utf8(all[i as int]).len());
        if width > offset - begin {
            proof {
                assert forall|j: int| start <= j < end implies byte_span(all, start as int, j)
                    != offset as int by {
                    if j > i {
                        lemma_byte_span_monotone(all, start as int, i as int + 1, j);
                    }
                }
            }
            return None;
        }
        begin = begin + width;
        i = i + 1;
    }
    None
}

/// Searches the clusters `parts` for `query` from cluster `at` on: forward
/// in `[at, len)` for its first occurrence, backward in `[0, at)` for its
/// last. Gives the index of the cluster at which the occurrence begins.
pub fn find_cluster(parts: &Vec<String>, query: &str, at: usize, direction: SearchDirection) -> (found:
    Option<usize>)
    ensures
        found_in_parts(texts(parts@), encode_utf8(query@), at as int, direction, found),
{
    if at > parts.len() {
        return None;
    }
    let (start, end) = match direction {
        SearchDirection::Forward => (at, parts.len()),
        SearchDirection::Backward => (0, at),
    };
    let window = join_range(parts, start, end);
    let hit = match direction {
        SearchDirection::Forward => first_match(window.as_str(), query),
        SearchDirection::Backward => last_match(window.as_str(), query),
    };
    let found = match hit {
        Some(offset) => cluster_at_offset(parts, start, end, offset),
        None => None,
    };
    proof {
        let all = texts(parts@);
        assert(window@ == all.subrange(start as int, end as int).flatten());
        assert(is_occurrence(direction, encode_utf8(window@), encode_utf8(query@), hit) && match hit {
            Some(offset) => is_cluster_at(all, start as int, end as int, offset as int, found),
            None => found is None,
        });
        assert(found_in_window(
            all,
            start as int,
            end as int,
            encode_utf8(query@),
            direction,
            found,
        ));
    }
    found
}

} // verus!
