pub mod document;
pub mod editor;
pub mod grapheme;
pub mod row;
