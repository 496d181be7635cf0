//! The ways in which a page can fail.

use vstd::prelude::*;

verus! {

/// Why a page could not be taken in. Either failure ends the run: the pages
/// before it have been handed over, the page itself and those after it have
/// not.
#[derive(Clone, Copy, Debug, PartialEq, Eq, Structural)]
pub enum ExtractError {
    /// An operator lacks the operand it needs, or the operand is of another
    /// kind: a font-setting operator needs a name for its first operand, a
    /// text-showing operator a string or an array.
    OperandType,
    /// A chapter marker is followed by fewer than two characters.
    ChapterNumber,
}

} // verus!
