//! Splits the text of a paged document into one plain-text file per chapter.
//!
//! A page comes as a list of content operations and a table of fonts. The
//! interpreter walks the operations and gathers the text they show; the
//! classifier reads the marker at the start of that text and decides whether
//! the page opens a new file, goes to the file that is open, or is dropped.
//! The library touches no file: for each page it says which file to create and
//! which text to append, and the caller carries that out.

pub mod chapter;
pub mod collector;
pub mod context;
pub mod error;
pub mod folder;
pub mod fonts;
pub mod interpreter;
pub mod operand;
pub mod text;
pub mod theorems;
