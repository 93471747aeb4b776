//! An ordered collection of rows, with the edits that split and merge them.

use crate::editor::Position;
use crate::row::{find_outcome, spec_delete, spec_head, spec_insert, spec_tail};
use crate::row::Row;
use crate::search::{lemma_found_in_parts_unique, SearchDirection};
use crate::segment::{grapheme_clusters, texts};
use vstd::prelude::*;
use vstd::utf8::encode_utf8;

verus! {

/// The lines after `c` is inserted at column `x` of row `y`: a newline splits
/// the row in two, any other character goes into the row. Unchanged where
/// there is no row `y`.
pub open spec fn spec_document_insert(lines: Seq<Seq<char>>, x: int, y: int, c: char) -> Seq<
    Seq<char>,
> {
    if y >= lines.len() {
        lines
    } else if c == '\n' {
        lines.update(y, spec_head(lines[y], x)).insert(y + 1, spec_tail(lines[y], x))
    } else {
        lines.update(y, spec_insert(lines[y], x, c))
    }
}

/// The lines after a delete at column `x` of row `y`: at the end of a row
/// that has a successor the two rows become one, elsewhere the cluster at
/// `x` leaves the row. Unchanged where there is no row `y`.
pub open spec fn spec_document_delete(lines: Seq<Seq<char>>, x: int, y: int) -> Seq<Seq<char>> {
    if y >= lines.len() {
        lines
    } else if x == grapheme_clusters(lines[y]).len() && y + 1 < lines.len() {
        lines.update(y, lines[y] + lines[y + 1]).remove(y + 1)
    } else {
        lines.update(y, spec_delete(lines[y], x))
    }
}

/// The column from which row `y` is searched when a search starts at `from`:
/// the starting row from `from.x`, another row from its first column when
/// scanning forward and from its end when scanning backward.
pub open spec fn search_column(
    lines: Seq<Seq<char>>,
    from: Position,
    direction: SearchDirection,
    y: int,
) -> int {
    if y == from.y {
        from.x as int
    } else if direction == SearchDirection::Forward {
        0
    } else {
        grapheme_clusters(lines[y]).len() as int
    }
}

/// Row `y` is searched before row `limit` is, in a search that starts at
/// `from`.
pub open spec fn scanned_before(from: Position, direction: SearchDirection, y: int, limit: int) -> bool {
    match direction {
        SearchDirection::Forward => from.y <= y < limit,
        SearchDirection::Backward => limit < y <= from.y,
    }
}

/// The row index just past the last row that a search in `direction` visits.
pub open spec fn scan_end(lines: Seq<Seq<char>>, direction: SearchDirection) -> int {
    match direction {
        SearchDirection::Forward => lines.len() as int,
        SearchDirection::Backward => -1,
    }
}

/// `found` is what the search of row `y` gives, in a search that starts at
/// `from`.
pub open spec fn row_outcome(
    lines: Seq<Seq<char>>,
    query: Seq<char>,
    from: Position,
    direction: SearchDirection,
    y: int,
    found: Option<usize>,
) -> bool {
    find_outcome(lines[y], query, search_column(lines, from, direction, y), direction, found)
}

/// No row that is searched before row `limit` holds a match.
pub open spec fn none_before(
    lines: Seq<Seq<char>>,
    query: Seq<char>,
    from: Position,
    direction: SearchDirection,
    limit: int,
) -> bool {
    forall|y: int| #[trigger]
        scanned_before(from, direction, y, limit) ==> row_outcome(
            lines,
            query,
            from,
            direction,
            y,
            None,
        )
}

/// `found` is the first match of `query` that a search from `from` meets:
/// rows are visited one by one in `direction` without wrapping around, and
/// every row visited before the match holds none. A search that starts
/// outside the document finds nothing.
pub open spec fn search_outcome(
    lines: Seq<Seq<char>>,
    query: Seq<char>,
    from: Position,
    direction: SearchDirection,
    found: Option<Position>,
) -> bool {
    if from.y >= lines.len() {
        found is None
    } else {
        match found {
            Some(place) => {
                &&& scanned_before(from, direction, place.y as int, scan_end(lines, direction))
                &&& row_outcome(lines, query, from, direction, place.y as int, Some(place.x))
                &&& none_before(lines, query, from, direction, place.y as int)
            },
            None => none_before(lines, query, from, direction, scan_end(lines, direction)),
        }
    }
}

/// The row that a search visits after row `y`.
pub open spec fn scan_next(direction: SearchDirection, y: int) -> int {
    match direction {
        SearchDirection::Forward => y + 1,
        SearchDirection::Backward => y - 1,
    }
}

/// Where no row before row `y` holds a match and row `y` holds none either,
/// no row before the one after it does.
pub proof fn lemma_scan_step(
    lines: Seq<Seq<char>>,
    query: Seq<char>,
    from: Position,
    direction: SearchDirection,
    y: int,
)
    requires
        none_before(lines, query, from, direction, y),
        row_outcome(lines, query, from, direction, y, None),
    ensures
        none_before(lines, query, from, direction, scan_next(direction, y)),
{
    assert forall|k: int| #[trigger]
        scanned_before(from, direction, k, scan_next(direction, y)) implies row_outcome(
        lines,
        query,
        from,
        direction,
        k,
        None,
    ) by {
        if k != y {
            assert(scanned_before(from, direction, k, y));
        }
    }
}

/// The search of one row has one outcome.
pub proof fn lemma_row_outcome_unique(
    lines: Seq<Seq<char>>,
    query: Seq<char>,
    from: Position,
    direction: SearchDirection,
    y: int,
    a: Option<usize>,
    b: Option<usize>,
)
    requires
        row_outcome(lines, query, from, direction, y, a),
        row_outcome(lines, query, from, direction, y, b),
    ensures
        a == b,
{
    lemma_found_in_parts_unique(
        grapheme_clusters(lines[y]),
        encode_utf8(query),
        search_column(lines, from, direction, y),
        direction,
        a,
        b,
    );
}

/// A search has one outcome: two results that both answer the same search
/// are the same result.
pub proof fn lemma_search_outcome_unique(
    lines: Seq<Seq<char>>,
    query: Seq<char>,
    from: Position,
    direction: SearchDirection,
    a: Option<Position>,
    b: Option<Position>,
)
    requires
        search_outcome(lines, query, from, direction, a),
        search_outcome(lines, query, from, direction, b),
    ensures
        a == b,
{
    if from.y < lines.len() {
        match (a, b) {
            (Some(p), Some(q)) => {
                if p.y == q.y {
                    lemma_row_outcome_unique(
                        lines,
                        query,
                        from,
                        direction,
                        p.y as int,
                        Some(p.x),
                        Some(q.x),
                    );
                } else if scanned_before(from, direction, p.y as int, q.y as int) {
                    lemma_row_outcome_unique(lines, query, from, direction, p.y as int, Some(p.x), None);
                } else {
                    assert(scanned_before(from, direction, q.y as int, p.y as int));
                    lemma_row_outcome_unique(lines, query, from, direction, q.y as int, Some(q.x), None);
                }
            },
            (Some(p), None) => {
                lemma_row_outcome_unique(lines, query, from, direction, p.y as int, Some(p.x), None);
            },
            (None, Some(q)) => {
                lemma_row_outcome_unique(lines, query, from, direction, q.y as int, Some(q.x), None);
            },
            (None, None) => {},
        }
    }
}

/// The rows of a text, top to bottom.
pub struct Document {
    rows: Vec<Row>,
}

impl View for Document {
    type V = Seq<Seq<char>>;

    /// The text of each row.
    closed spec fn view(&self) -> Seq<Seq<char>> {
        self.rows@.map_values(|row: Row| row@)
    }
}

impl Default for Document {
    /// The empty document: one row without text.
    fn default() -> (document: Document)
        ensures
            document.wf(),
            document@ == seq![Seq::<char>::empty()],
    {
        let mut rows: Vec<Row> = Vec::new();
        rows.push(Row::default());
        proof {
            assert(rows@.map_values(|row: Row| row@) =~= seq![Seq::<char>::empty()]);
        }
        Document { rows }
    }
}

impl Document {
    /// The rows themselves.
    pub closed spec fn rows(&self) -> Seq<Row> {
        self.rows@
    }

    /// What holds of every document: each row is well formed, and the view
    /// lists the text of each row.
    #[verifier::type_invariant]
    pub open spec fn wf(&self) -> bool {
        &&& self@.len() == self.rows().len()
        &&& forall|i: int|
            0 <= i < self.rows().len() ==> (#[trigger] self.rows()[i]).wf() && self.rows()[i]@
                == self@[i]
    }

    /// The stored length of row `y`, and 0 where there is no such row.
    pub open spec fn row_len(&self, y: int) -> nat {
        if 0 <= y < self.rows().len() {
            self.rows()[y].cached_len()
        } else {
            0
        }
    }

    /// A document with one row for each of `lines`; with one empty row where
    /// there are no lines.
    pub fn from_lines(lines: &Vec<String>) -> (document: Document)
        ensures
            document.wf(),
            document@ == if lines.len() == 0 {
                seq![Seq::<char>::empty()]
            } else {
                texts(lines@)
            },
    {
        if lines.len() == 0 {
            return Document::default();
        }
        let mut rows: Vec<Row> = Vec::new();
        let mut i: usize = 0;
        while i < lines.len()
            invariant
                i <= lines.len(),
                rows@.len() == i,
                forall|k: int| 0 <= k < i ==> (#[trigger] rows@[k]).wf() && rows@[k]@ == lines@[k]@,
            decreases lines.len() - i,
        {
            rows.push(Row::from(lines[i].as_str()));
            i = i + 1;
        }
        assert(rows@.map_values(|row: Row| row@) =~= texts(lines@));
        Document { rows }
    }

    /// The text of each row, top to bottom.
    pub fn lines(&self) -> (lines: Vec<String>)
        ensures
            texts(lines@) == self@,
    {
        let mut lines: Vec<String> = Vec::new();
        let mut i: usize = 0;
        while i < self.rows.len()
            invariant
                i <= self.rows.len(),
                lines@.len() == i,
                forall|k: int| 0 <= k < i ==> (#[trigger] lines@[k])@ == self.rows@[k]@,
            decreases self.rows.len() - i,
        {
            lines.push(self.rows[i].text());
            i = i + 1;
        }
        assert(texts(lines@) =~= self@);
        lines
    }

    /// The row at index `y`, if there is one.
    pub fn row(&self, y: usize) -> (row: Option<&Row>)
        ensures
            match row {
                Some(r) => y < self.rows().len() && *r == self.rows()[y as int],
                None => y >= self.rows().len(),
            },
    {
        if y < self.rows.len() {
            Some(&self.rows[y])
        } else {
            None
        }
    }

    /// The length of row `y`, and 0 where there is no such row.
    pub fn width(&self, y: usize) -> (n: usize)
        ensures
            n == self.row_len(y as int),
            y < self@.len() ==> n == grapheme_clusters(self@[y as int]).len(),
    {
        proof {
            use_type_invariant(self);
        }
        if y < self.rows.len() {
            self.rows[y].len()
        } else {
            0
        }
    }

    /// The number of rows.
    pub fn len(&self) -> (n: usize)
        ensures
            n == self.rows().len(),
            n == self@.len(),
    {
        self.rows.len()
    }

    /// Whether there is no row at all.
    pub fn is_empty(&self) -> (empty: bool)
        ensures
            empty == (self.rows().len() == 0),
    {
        self.rows.len() == 0
    }

    /// Inserts `c` at `at`. A newline splits the row at `at.y` at column
    /// `at.x`: the first half stays, the second half becomes the next row.
    /// Nothing happens where there is no row `at.y`. No row is lost.
    pub fn insert(&mut self, at: &Position, c: char)
        ensures
            final(self).wf(),
            final(self)@ == spec_document_insert(old(self)@, at.x as int, at.y as int, c),
            final(self)@.len() >= old(self)@.len(),
    {
        proof {
            use_type_invariant(&*self);
        }
        if at.y >= self.rows.len() {
            return ;
        }
        let mut rows: Vec<Row> = Vec::new();
        std::mem::swap(&mut rows, &mut self.rows);
        if c == '\n' {
            let rest = rows[at.y].split(at.x);
            rows.insert(at.y + 1, rest);
        } else {
            rows[at.y].insert(at.x, c);
        }
        self.rows = rows;
        assert(self@ =~= spec_document_insert(old(self)@, at.x as int, at.y as int, c));
    }

    /// Deletes at `at`: at the end of a row that has a successor the
    /// successor is appended to the row and leaves the document; elsewhere
    /// the cluster at `at.x` leaves its row. Nothing happens where there is
    /// no row `at.y`. A document with a row keeps at least one.
    pub fn delete(&mut self, at: &Position)
        ensures
            final(self).wf(),
            final(self)@ == spec_document_delete(old(self)@, at.x as int, at.y as int),
            old(self)@.len() >= 1 ==> final(self)@.len() >= 1,
    {
        proof {
            use_type_invariant(&*self);
        }
        if at.y >= self.rows.len() {
            return ;
        }
        let mut rows: Vec<Row> = Vec::new();
        std::mem::swap(&mut rows, &mut self.rows);
        if at.x == rows[at.y].len() && at.y + 1 < rows.len() {
            let next = rows.remove(at.y + 1);
            rows[at.y].append(&next);
        } else {
            rows[at.y].delete(at.x);
        }
        self.rows = rows;
        assert(self@ =~= spec_document_delete(old(self)@, at.x as int, at.y as int));
    }

    /// Searches for `query` from `from` on: first in the row `from.y` from
    /// column `from.x`, then row by row in `direction`, each row as a whole,
    /// until a row holds a match or the rows run out.
    pub fn search(&self, query: &str, from: &Position, direction: SearchDirection) -> (found: Option<
        Position,
    >)
        ensures
            search_outcome(self@, query@, *from, direction, found),
    {
        proof {
            use_type_invariant(self);
        }
        if from.y >= self.rows.len() {
            return None;
        }
        let mut y: usize = from.y;
        let mut x: usize = from.x;
        loop
            invariant
                self.wf(),
                from.y < self.rows.len(),
                y < self.rows.len(),
                scanned_before(*from, direction, y as int, scan_end(self@, direction)),
                x as int == search_column(self@, *from, direction, y as int),
                none_before(self@, query@, *from, direction, y as int),
            decreases
                    if direction == SearchDirection::Forward {
                        self.rows.len() - y
                    } else {
                        y + 1
                    },
        {
            if let Some(column) = self.rows[y].find(query, x, direction) {
                return Some(Position { x: column, y });
            }
            proof {
                lemma_scan_step(self@, query@, *from, direction, y as int);
            }
            match direction {
                SearchDirection::Forward => {
                    if y + 1 >= self.rows.len() {
                        return None;
                    }
                    y = y + 1;
                    x = 0;
                },
                SearchDirection::Backward => {
                    if y == 0 {
                        return None;
                    }
                    y = y - 1;
                    x = self.rows[y].len();
                },
            }
        }
    }
}

} // verus!
