//! Operands and operations of a page's content stream.

use vstd::prelude::*;

verus! {

/// One operand of a content operation.
///
/// The value of a real number, the entries of a dictionary and the bytes of a
/// stream play no part in text extraction, so they are not kept.
#[derive(Debug, PartialEq, Eq)]
pub enum Operand {
    Null,
    Boolean(bool),
    Integer(i64),
    Real,
    Name(Vec<u8>),
    String(Vec<u8>),
    Array(Vec<Operand>),
    Dictionary,
    Stream,
    Reference(u32, u16),
}

/// One instruction of a content stream: an operator and its operands, in order.
#[derive(Debug, PartialEq, Eq)]
pub struct Operation {
    pub operator: String,
    pub operands: Vec<Operand>,
}

impl Operand {
    /// The bytes of a name operand.
    pub open spec fn name_bytes(self) -> Option<Seq<u8>> {
        match self {
            Operand::Name(bytes) => Some(bytes@),
            _ => None,
        }
    }

    /// Whether an operand is text to show: a string, or an array of strings and
    /// displacements.
    pub open spec fn shows_text(self) -> bool {
        self is String || self is Array
    }

    /// Tells whether an operand is text to show.
    pub fn is_text(&self) -> (shown: bool)
        ensures
            shown == self.shows_text(),
    {
        match self {
            Operand::String(_) => true,
            Operand::Array(_) => true,
            _ => false,
        }
    }

    /// Reads a name operand; any other kind of operand has no name.
    pub fn as_name(&self) -> (name: Option<&Vec<u8>>)
        ensures
            match name {
                Some(bytes) => self.name_bytes() == Some(bytes@),
                None => self.name_bytes().is_none(),
            },
    {
        match self {
            Operand::Name(bytes) => Some(bytes),
            _ => None,
        }
    }
}

} // verus!
