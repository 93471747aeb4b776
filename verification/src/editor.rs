//! The cursor and the viewport: where the cursor goes on each movement or
//! edit, and which part of the document the screen shows.

use crate::document::{spec_document_delete, spec_document_insert, Document};
use crate::row::{spec_render, Row};
use vstd::prelude::*;

verus! {

/// A place in a document: `x` counts grapheme clusters within row `y`.
#[derive(Clone, Copy, PartialEq, Eq, Structural, Debug)]
pub struct Position {
    pub x: usize,
    pub y: usize,
}

impl Default for Position {
    /// The top-left corner.
    fn default() -> (position: Position)
        ensures
            position == (Position { x: 0, y: 0 }),
    {
        Position { x: 0, y: 0 }
    }
}

/// The number of columns and rows of the viewport.
#[derive(Clone, Copy, PartialEq, Eq, Structural, Debug)]
pub struct Size {
    pub width: u16,
    pub height: u16,
}

/// A movement of the cursor.
#[derive(Clone, Copy, PartialEq, Eq, Structural, Debug)]
pub enum Direction {
    Up,
    Down,
    Left,
    Right,
    PageUp,
    PageDown,
    Home,
    End,
}

/// What a key press asks of the editor.
#[derive(Clone, Copy, PartialEq, Eq, Structural, Debug)]
pub enum Intent {
    Move(Direction),
    InsertChar(char),
    DeleteChar,
    Quit,
    Unknown,
}

/// `a` where it is no more than `limit`, else `limit`.
pub open spec fn spec_least(a: usize, limit: nat) -> usize {
    if a <= limit {
        a
    } else {
        limit as usize
    }
}

/// Where the cursor stands after a movement, before it is fitted to the
/// document. Up and down stop at the first row and just below the
/// last; left and right wrap to the neighbouring row at the edges of a row;
/// a page is as many rows as the viewport is high.
pub open spec fn spec_step(document: Document, size: Size, cursor: Position, key: Direction) -> Position {
    let rows = document.rows().len();
    let width = document.row_len(cursor.y as int);
    match key {
        Direction::Up => Position { x: cursor.x, y: cursor.y.saturating_sub(1) },
        Direction::Down => if cursor.y < rows {
            Position { x: cursor.x, y: (cursor.y + 1) as usize }
        } else {
            cursor
        },
        Direction::Left => if cursor.x > 0 {
            Position { x: (cursor.x - 1) as usize, y: cursor.y }
        } else if cursor.y > 0 {
            Position { x: document.row_len(cursor.y - 1) as usize, y: (cursor.y - 1) as usize }
        } else {
            cursor
        },
        Direction::Right => if cursor.x < width {
            Position { x: (cursor.x + 1) as usize, y: cursor.y }
        } else if cursor.y < rows {
            Position { x: 0, y: (cursor.y + 1) as usize }
        } else {
            cursor
        },
        Direction::PageUp => Position {
            x: cursor.x,
            y: cursor.y.saturating_sub(size.height as usize),
        },
        Direction::PageDown => Position {
            x: cursor.x,
            y: spec_least(cursor.y.saturating_add(size.height as usize), rows),
        },
        Direction::Home => Position { x: 0, y: cursor.y },
        Direction::End => Position { x: width as usize, y: cursor.y },
    }
}

/// `place` fitted to `document`: its row no lower than the line just below
/// the last row, its column no further right than the end of that row.
pub open spec fn spec_fit(document: Document, place: Position) -> Position {
    let y = spec_least(place.y, document.rows().len());
    Position { x: spec_least(place.x, document.row_len(y as int)), y }
}

/// Where the cursor stands after a movement.
pub open spec fn spec_move(document: Document, size: Size, cursor: Position, key: Direction) -> Position {
    spec_fit(document, spec_step(document, size, cursor, key))
}

/// Where the cursor stands after `c` was typed at `cursor` in a document of
/// `rows` rows, `after` being the document that the insertion left: at the
/// start of the new row after a newline, one column further right after
/// another character, and where it was below the last row, where nothing is
/// inserted; in each case fitted to `after`.
pub open spec fn spec_typed(after: Document, rows: nat, cursor: Position, c: char) -> Position {
    spec_fit(
        after,
        if cursor.y >= rows {
            cursor
        } else if c == '\n' {
            Position { x: 0, y: (cursor.y + 1) as usize }
        } else {
            Position { x: cursor.x.saturating_add(1), y: cursor.y }
        },
    )
}

/// `place` is a place of `document`: a row or the line just below the last
/// one, and a column of that row or the one just past its end.
pub open spec fn spec_in_document(document: Document, place: Position) -> bool {
    place.y <= document.rows().len() && place.x <= document.row_len(place.y as int)
}

/// The offset of the viewport along one axis after the cursor has moved to
/// `cursor`: the old one where that still shows the cursor, else the nearest
/// one that does.
pub open spec fn spec_scroll_axis(cursor: usize, offset: usize, extent: usize) -> usize {
    if cursor < offset {
        cursor
    } else if cursor >= offset.saturating_add(extent) {
        cursor.saturating_sub(extent).saturating_add(1)
    } else {
        offset
    }
}

/// The offset of the viewport after the cursor has moved to `cursor`.
pub open spec fn spec_scroll(cursor: Position, offset: Position, size: Size) -> Position {
    Position {
        x: spec_scroll_axis(cursor.x, offset.x, size.width as usize),
        y: spec_scroll_axis(cursor.y, offset.y, size.height as usize),
    }
}

/// After a scroll the cursor lies inside the viewport, on an axis along
/// which the viewport has at least one cell.
pub proof fn lemma_scroll_shows_cursor(cursor: usize, offset: usize, extent: usize)
    requires
        extent >= 1,
    ensures
        spec_scroll_axis(cursor, offset, extent) <= cursor < spec_scroll_axis(cursor, offset, extent)
            + extent,
{
}

/// A viewport at the origin stays there as long as the cursor is within its
/// extent, as it always is in a document smaller than the viewport.
pub proof fn lemma_scroll_rests_at_origin(cursor: usize, extent: usize)
    requires
        cursor < extent,
    ensures
        spec_scroll_axis(cursor, 0, extent) == 0,
{
}

/// Scrolling again without moving the cursor or resizing the viewport leaves
/// the offset where it is.
pub proof fn lemma_scroll_idempotent(cursor: usize, offset: usize, extent: usize)
    requires
        extent >= 1,
    ensures
        spec_scroll_axis(cursor, spec_scroll_axis(cursor, offset, extent), extent)
            == spec_scroll_axis(cursor, offset, extent),
{
}

/// Every movement ends at a place of the document, wherever it starts.
pub proof fn lemma_move_stays_in_document(
    document: Document,
    size: Size,
    cursor: Position,
    key: Direction,
)
    ensures
        spec_in_document(document, spec_move(document, size, cursor, key)),
{
}

/// At the end of a row that is not the last, a step right leads to the
/// start of the next row, and a step left from there leads back.
pub proof fn lemma_steps_wrap_between_rows(document: Document, size: Size, cursor: Position)
    requires
        cursor.x == document.row_len(cursor.y as int),
        cursor.y + 1 < document.rows().len() <= usize::MAX,
    ensures
        spec_move(document, size, cursor, Direction::Right) == (Position {
            x: 0,
            y: (cursor.y + 1) as usize,
        }),
        spec_move(
            document,
            size,
            spec_move(document, size, cursor, Direction::Right),
            Direction::Left,
        ) == cursor,
{
}

/// Fitting a place of the document leaves it where it is.
pub proof fn lemma_fit_keeps_places(document: Document, place: Position)
    requires
        spec_in_document(document, place),
    ensures
        spec_fit(document, place) == place,
{
}

/// The offset along one axis after the cursor has moved to `cursor`.
pub fn scroll_axis(cursor: usize, offset: usize, extent: usize) -> (scrolled: usize)
    ensures
        scrolled == spec_scroll_axis(cursor, offset, extent),
        extent >= 1 ==> scrolled <= cursor < scrolled + extent,
{
    if cursor < offset {
        cursor
    } else if cursor >= offset.saturating_add(extent) {
        cursor.saturating_sub(extent).saturating_add(1)
    } else {
        offset
    }
}

/// The state of an editing session: the document, the cursor in it, and the
/// part of it that the viewport shows.
pub struct Editor {
    should_quit: bool,
    size: Size,
    cursor_position: Position,
    offset: Position,
    document: Document,
}

impl Editor {
    /// Where the cursor stands in the document.
    pub closed spec fn cursor(&self) -> Position {
        self.cursor_position
    }

    /// The place of the document shown in the top-left cell of the viewport.
    pub closed spec fn origin(&self) -> Position {
        self.offset
    }

    /// The extent of the viewport.
    pub closed spec fn extent(&self) -> Size {
        self.size
    }

    /// The document being edited.
    pub closed spec fn text(&self) -> Document {
        self.document
    }

    /// Whether the session has been asked to end.
    pub closed spec fn quitting(&self) -> bool {
        self.should_quit
    }

    /// The cursor is a place of the document.
    pub open spec fn cursor_in_document(&self) -> bool {
        spec_in_document(self.text(), self.cursor())
    }

    /// A session on `document` with the cursor and the viewport in the
    /// top-left corner.
    pub fn new(document: Document, size: Size) -> (editor: Editor)
        ensures
            editor.cursor_in_document(),
            editor.text() == document,
            editor.extent() == size,
            editor.cursor() == (Position { x: 0, y: 0 }),
            editor.origin() == (Position { x: 0, y: 0 }),
            !editor.quitting(),
    {
        Editor {
            should_quit: false,
            size,
            cursor_position: Position { x: 0, y: 0 },
            offset: Position { x: 0, y: 0 },
            document,
        }
    }

    /// Where the cursor stands in the document.
    pub fn cursor_position(&self) -> (place: Position)
        ensures
            place == self.cursor(),
    {
        self.cursor_position
    }

    /// The place of the document shown in the top-left cell of the viewport.
    pub fn offset(&self) -> (place: Position)
        ensures
            place == self.origin(),
    {
        self.offset
    }

    /// The extent of the viewport.
    pub fn size(&self) -> (size: &Size)
        ensures
            *size == self.extent(),
    {
        &self.size
    }

    /// The document being edited.
    pub fn document(&self) -> (document: &Document)
        ensures
            *document == self.text(),
    {
        &self.document
    }

    /// Whether the session has been asked to end.
    pub fn should_quit(&self) -> (quit: bool)
        ensures
            quit == self.quitting(),
    {
        self.should_quit
    }

    /// Moves the viewport as little as it takes to show the cursor.
    pub fn scroll(&mut self)
        ensures
            final(self).origin() == spec_scroll(old(self).cursor(), old(self).origin(), old(self).extent()),
            final(self).cursor() == old(self).cursor(),
            final(self).extent() == old(self).extent(),
            final(self).text() == old(self).text(),
            final(self).quitting() == old(self).quitting(),
            final(self).extent().height >= 1 ==> final(self).origin().y <= final(self).cursor().y
                < final(self).origin().y + final(self).extent().height,
            final(self).extent().width >= 1 ==> final(self).origin().x <= final(self).cursor().x
                < final(self).origin().x + final(self).extent().width,
    {
        let width: usize = self.size.width as usize;
        let height: usize = self.size.height as usize;
        let x = scroll_axis(self.cursor_position.x, self.offset.x, width);
        let y = scroll_axis(self.cursor_position.y, self.offset.y, height);
        self.offset = Position { x, y };
    }

    /// Moves the cursor one step, one page, or to an end of its row, and
    /// fits its column to the row it lands on.
    pub fn move_cursor(&mut self, key: Direction)
        ensures
            final(self).cursor_in_document(),
            final(self).cursor() == spec_move(old(self).text(), old(self).extent(), old(self).cursor(), key),
            final(self).origin() == old(self).origin(),
            final(self).extent() == old(self).extent(),
            final(self).text() == old(self).text(),
            final(self).quitting() == old(self).quitting(),
    {
        let Position { x, y } = self.cursor_position;
        let mut x: usize = x;
        let mut y: usize = y;
        let page: usize = self.size.height as usize;
        let height: usize = self.document.len();
        let width: usize = self.document.width(y);
        match key {
            Direction::Up => {
                y = y.saturating_sub(1);
            },
            Direction::Down => {
                if y < height {
                    y = y + 1;
                }
            },
            Direction::Left => {
                if x > 0 {
                    x = x - 1;
                } else if y > 0 {
                    y = y - 1;
                    x = self.document.width(y);
                }
            },
            Direction::Right => {
                if x < width {
                    x = x + 1;
                } else if y < height {
                    y = y + 1;
                    x = 0;
                }
            },
            Direction::PageUp => {
                y = y.saturating_sub(page);
            },
            Direction::PageDown => {
                let target: usize = y.saturating_add(page);
                y = if height <= target { height } else { target };
            },
            Direction::Home => {
                x = 0;
            },
            Direction::End => {
                x = width;
            },
        }
        self.cursor_position = self.fit(Position { x, y });
    }

    /// `place` fitted to the document: its row no lower than the line just
    /// below the last row, its column no further right than the end of that
    /// row.
    pub fn fit(&self, place: Position) -> (fitted: Position)
        ensures
            fitted == spec_fit(self.text(), place),
            spec_in_document(self.text(), fitted),
    {
        let height: usize = self.document.len();
        let y: usize = if place.y <= height { place.y } else { height };
        let width: usize = self.document.width(y);
        Position { x: if place.x <= width { place.x } else { width }, y }
    }

    /// Types `c` at the cursor. After a newline the cursor stands at the
    /// start of the new row; after another character it stands one column
    /// further right. Nothing happens below the last row.
    pub fn insert_char(&mut self, c: char)
        ensures
            final(self).cursor_in_document(),
            final(self).text()@ == spec_document_insert(
                old(self).text()@,
                old(self).cursor().x as int,
                old(self).cursor().y as int,
                c,
            ),
            final(self).cursor() == spec_typed(
                final(self).text(),
                old(self).text().rows().len(),
                old(self).cursor(),
                c,
            ),
            c == '\n' && old(self).cursor().y < old(self).text().rows().len()
                ==> final(self).cursor() == (Position {
                x: 0,
                y: (old(self).cursor().y + 1) as usize,
            }),
            final(self).origin() == old(self).origin(),
            final(self).extent() == old(self).extent(),
            final(self).quitting() == old(self).quitting(),
    {
        proof {
            use_type_invariant(&self.document);
        }
        let at = self.cursor_position;
        let next = if at.y >= self.document.len() {
            at
        } else if c == '\n' {
            Position { x: 0, y: at.y + 1 }
        } else {
            Position { x: at.x.saturating_add(1), y: at.y }
        };
        self.document.insert(&at, c);
        self.cursor_position = self.fit(next);
    }

    /// Deletes at the cursor and keeps the cursor within its row.
    pub fn delete_char(&mut self)
        ensures
            final(self).cursor_in_document(),
            final(self).text()@ == spec_document_delete(
                old(self).text()@,
                old(self).cursor().x as int,
                old(self).cursor().y as int,
            ),
            final(self).cursor() == spec_fit(final(self).text(), old(self).cursor()),
            final(self).origin() == old(self).origin(),
            final(self).extent() == old(self).extent(),
            final(self).quitting() == old(self).quitting(),
    {
        let at = self.cursor_position;
        self.document.delete(&at);
        self.cursor_position = self.fit(at);
    }

    /// Asks the session to end.
    pub fn quit(&mut self)
        ensures
            final(self).quitting(),
            final(self).cursor() == old(self).cursor(),
            final(self).origin() == old(self).origin(),
            final(self).extent() == old(self).extent(),
            final(self).text() == old(self).text(),
    {
        self.should_quit = true;
    }

    /// Carries out what one key press asks for, then scrolls so that the
    /// cursor is on screen. Whatever was asked, the cursor ends at a place of
    /// the document.
    pub fn process(&mut self, intent: Intent)
        ensures
            final(self).cursor_in_document(),
            final(self).extent() == old(self).extent(),
            final(self).origin() == spec_scroll(
                final(self).cursor(),
                old(self).origin(),
                old(self).extent(),
            ),
            final(self).quitting() == (old(self).quitting() || intent == Intent::Quit),
            match intent {
                Intent::Move(key) => final(self).text() == old(self).text() && final(self).cursor()
                    == spec_move(old(self).text(), old(self).extent(), old(self).cursor(), key),
                Intent::InsertChar(c) => final(self).text()@ == spec_document_insert(
                    old(self).text()@,
                    old(self).cursor().x as int,
                    old(self).cursor().y as int,
                    c,
                ) && final(self).cursor() == spec_typed(
                    final(self).text(),
                    old(self).text().rows().len(),
                    old(self).cursor(),
                    c,
                ),
                Intent::DeleteChar => final(self).text()@ == spec_document_delete(
                    old(self).text()@,
                    old(self).cursor().x as int,
                    old(self).cursor().y as int,
                ) && final(self).cursor() == spec_fit(final(self).text(), old(self).cursor()),
                Intent::Quit | Intent::Unknown => final(self).text() == old(self).text()
                    && final(self).cursor() == spec_fit(old(self).text(), old(self).cursor()),
            },
    {
        match intent {
            Intent::Move(key) => self.move_cursor(key),
            Intent::InsertChar(c) => self.insert_char(c),
            Intent::DeleteChar => self.delete_char(),
            Intent::Quit => {
                self.quit();
                self.cursor_position = self.fit(self.cursor_position);
            },
            Intent::Unknown => {
                self.cursor_position = self.fit(self.cursor_position);
            },
        }
        self.scroll();
    }

    /// The text to draw for `row`: the columns of it that the viewport
    /// shows.
    pub fn draw_row(&self, row: &Row) -> (text: String)
        ensures
            text@ == spec_render(
                row@,
                self.origin().x as int,
                self.origin().x.saturating_add(self.extent().width as usize) as int,
            ),
    {
        let width: usize = self.size.width as usize;
        let start: usize = self.offset.x;
        let end: usize = self.offset.x.saturating_add(width);
        row.render(start, end)
    }

    /// The row shown on line `line` of the viewport, if there is one.
    pub fn row_on_screen(&self, line: u16) -> (row: Option<&Row>)
        ensures
            match row {
                Some(r) => self.origin().y + line < self.text().rows().len() && *r
                    == self.text().rows()[self.origin().y + line],
                None => self.origin().y + line >= self.text().rows().len(),
            },
    {
        let height: usize = self.document.len();
        let top: usize = self.offset.y;
        if top < height && (line as usize) < height - top {
            self.document.row(top + line as usize)
        } else {
            None
        }
    }

    /// The cell of the viewport in which the cursor is drawn.
    pub fn screen_cursor(&self) -> (cell: Position)
        ensures
            cell.x == self.cursor().x.saturating_sub(self.origin().x),
            cell.y == self.cursor().y.saturating_sub(self.origin().y),
    {
        Position {
            x: self.cursor_position.x.saturating_sub(self.offset.x),
            y: self.cursor_position.y.saturating_sub(self.offset.y),
        }
    }
}

} // verus!
