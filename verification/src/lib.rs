//! The core of a small terminal text editor: rows of text indexed by grapheme
//! cluster, a document made of rows, and the cursor and viewport rules that
//! keep the cursor on screen.

pub mod document;
pub mod editor;
pub mod row;
pub mod search;
pub mod segment;

pub use document::Document;
pub use editor::Direction;
pub use editor::Editor;
pub use editor::Intent;
pub use editor::Position;
pub use editor::Size;
pub use row::Row;
pub use search::SearchDirection;
