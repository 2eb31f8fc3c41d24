//! Text buffer of a terminal editor: rows of text indexed by grapheme
//! cluster, a per-character syntax classifier, and search across rows.

pub mod classify;
pub mod clusters;
pub mod document;
pub mod editor;
pub mod filetype;
pub mod highlighting;
pub mod position;
pub mod row;
pub mod text;

pub use document::Document;
pub use editor::{edit, move_cursor, scroll, Edit, Movement};
pub use filetype::{FileType, HighlightingOptions};
pub use highlighting::Type;
pub use position::{Position, SearchDirection, Size};
pub use row::Row;
pub use text::graphemes_of;
