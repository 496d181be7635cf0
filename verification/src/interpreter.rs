//! The walk over the content operations of one page.

use vstd::prelude::*;
use crate::error::ExtractError;
use crate::collector::{encoding_view, operands_text};
use crate::context::{processed, ContextView, ExtractionContext, PageOutput, PageOutputView};
use crate::fonts::{font_encoding, font_encoding_name, FontTable};
use crate::operand::{Operand, Operation};
use crate::text::{closed_line, same_text};

verus! {

/// What the walk over a page carries from one operation to the next.
pub struct PageState {
    /// The encoding of the font that was set last, if one was found.
    pub encoding: Option<Seq<char>>,
    /// The text gathered so far.
    pub text: Seq<char>,
}

/// The state at the start of a page: no encoding is active.
pub open spec fn page_start(text: Seq<char>) -> PageState {
    PageState { encoding: None, text }
}

/// The font name that a font-setting operation carries as its first operand.
pub open spec fn font_operand(operation: Operation) -> Result<Seq<u8>, ExtractError> {
    if operation.operands@.len() == 0 {
        Err(ExtractError::OperandType)
    } else {
        match operation.operands@[0] {
            Operand::Name(name) => Ok(name@),
            _ => Err(ExtractError::OperandType),
        }
    }
}

/// Whether a text-showing operation carries what it needs: its first operand is
/// there and is a string or an array.
pub open spec fn has_text_operand(operation: Operation) -> bool {
    operation.operands@.len() > 0 && operation.operands@[0].shows_text()
}

/// The encoding after a font of the given name is set: that of the font, where
/// the page has a font of that name, else the one that was active before.
pub open spec fn selected_encoding(
    fonts: Map<Seq<u8>, lopdf::Dictionary>,
    active: Option<Seq<char>>,
    name: Seq<u8>,
) -> Option<Seq<char>> {
    if fonts.contains_key(name) {
        Some(font_encoding_name(fonts[name]))
    } else {
        active
    }
}

/// What one operation does to the state of the walk.
///
/// `Tf` sets the font, `Tj` and `TJ` show text, `ET` ends a text object, and
/// every other operator leaves the state as it is. `Tf` fails without a font
/// name for its first operand, `Tj` and `TJ` fail without a string or an array
/// for theirs. A text-showing operation that has its first operand hands all
/// its operands to the collector.
pub open spec fn step(
    fonts: Map<Seq<u8>, lopdf::Dictionary>,
    state: PageState,
    operation: Operation,
) -> Result<PageState, ExtractError> {
    if operation.operator@ == "Tf"@ {
        match font_operand(operation) {
            Ok(name) => Ok(
                PageState {
                    encoding: selected_encoding(fonts, state.encoding, name),
                    text: state.text,
                },
            ),
            Err(error) => Err(error),
        }
    } else if operation.operator@ == "Tj"@ || operation.operator@ == "TJ"@ {
        if has_text_operand(operation) {
            Ok(
                PageState {
                    encoding: state.encoding,
                    text: state.text + operands_text(state.encoding, operation.operands@),
                },
            )
        } else {
            Err(ExtractError::OperandType)
        }
    } else if operation.operator@ == "ET"@ {
        Ok(PageState { encoding: state.encoding, text: closed_line(state.text) })
    } else {
        Ok(state)
    }
}

/// The state after the operations of a page, taken in order; the first
/// operation that fails ends the walk with its error.
pub open spec fn interpreted(
    fonts: Map<Seq<u8>, lopdf::Dictionary>,
    state: PageState,
    operations: Seq<Operation>,
) -> Result<PageState, ExtractError>
    decreases operations.len(),
{
    if operations.len() == 0 {
        Ok(state)
    } else {
        match interpreted(fonts, state, operations.drop_last()) {
            Ok(before) => step(fonts, before, operations.last()),
            Err(error) => Err(error),
        }
    }
}

/// What a page makes of a context: the context for the next page and what goes
/// to the output folder.
pub open spec fn page_outcome(
    context: ContextView,
    fonts: Map<Seq<u8>, lopdf::Dictionary>,
    operations: Seq<Operation>,
) -> Result<(ContextView, PageOutputView), ExtractError> {
    match interpreted(fonts, page_start(context.text), operations) {
        Ok(state) => match processed(ContextView { text: state.text, ..context }) {
            Ok((next, output)) => Ok((ContextView { text: Seq::empty(), ..next }, output)),
            Err(error) => Err(error),
        },
        Err(error) => Err(error),
    }
}

/// A walk that has failed on some of the first operations fails in the same way
/// on all of them.
proof fn lemma_failure_ends_walk(
    fonts: Map<Seq<u8>, lopdf::Dictionary>,
    state: PageState,
    operations: Seq<Operation>,
    done: int,
)
    requires
        0 <= done <= operations.len(),
        interpreted(fonts, state, operations.take(done)) is Err,
    ensures
        interpreted(fonts, state, operations) == interpreted(fonts, state, operations.take(done)),
    decreases operations.len(),
{
    if done == operations.len() {
        assert(operations.take(done) =~= operations);
    } else {
        assert(operations.drop_last().take(done) =~= operations.take(done));
        lemma_failure_ends_walk(fonts, state, operations.drop_last(), done);
    }
}

impl ExtractionContext {
    /// Carries out one operation of a page under the active `encoding` and
    /// returns the encoding that is active afterwards.
    ///
    /// Where the operation fails, the context stays as it was.
    pub fn apply_operation<'a>(
        &mut self,
        fonts: &FontTable<'a>,
        encoding: Option<&'a str>,
        operation: &Operation,
    ) -> (outcome: Result<Option<&'a str>, ExtractError>)
        ensures
            match step(
                fonts@,
                PageState { encoding: encoding_view(encoding), text: old(self)@.text },
                *operation,
            ) {
                Ok(state) => {
                    &&& outcome is Ok
                    &&& encoding_view(outcome->Ok_0) == state.encoding
                    &&& final(self)@ == (ContextView { text: state.text, ..old(self)@ })
                },
                Err(error) => {
                    &&& outcome == Err::<Option<&'a str>, ExtractError>(error)
                    &&& final(self)@ == old(self)@
                },
            },
    {
        let operator = operation.operator.as_str();
        if same_text(operator, "Tf") {
            if operation.operands.len() == 0 {
                return Err(ExtractError::OperandType);
            }
            match operation.operands[0].as_name() {
                Some(name) => match fonts.get(name) {
                    Some(font) => Ok(Some(font_encoding(font))),
                    None => Ok(encoding),
                },
                None => Err(ExtractError::OperandType),
            }
        } else if same_text(operator, "Tj") || same_text(operator, "TJ") {
            if operation.operands.len() == 0 || !operation.operands[0].is_text() {
                return Err(ExtractError::OperandType);
            }
            self.collect_text(encoding, &operation.operands);
            Ok(encoding)
        } else if same_text(operator, "ET") {
            self.end_text_object();
            Ok(encoding)
        } else {
            Ok(encoding)
        }
    }

    /// Takes in one page: walks its operations, classifies the text they give,
    /// and says what goes to the output folder. The text of the page is dropped
    /// from the context afterwards, whether it was let through or not, and also
    /// where the page fails.
    pub fn add_page<'a>(&mut self, fonts: &FontTable<'a>, operations: &Vec<Operation>) -> (outcome:
        Result<PageOutput, ExtractError>)
        ensures
            match page_outcome(old(self)@, fonts@, operations@) {
                Ok((context, output)) => {
                    &&& outcome is Ok
                    &&& outcome->Ok_0@ == output
                    &&& final(self)@ == context
                },
                Err(error) => {
                    &&& outcome == Err::<PageOutput, ExtractError>(error)
                    &&& final(self)@ == (ContextView { text: Seq::empty(), ..old(self)@ })
                },
            },
    {
        let ghost start = page_start(old(self)@.text);
        let mut encoding: Option<&'a str> = None;
        let mut i: usize = 0;
        assert(operations@.take(0) =~= Seq::<Operation>::empty());
        while i < operations.len()
            invariant
                i <= operations.len(),
                start == page_start(old(self)@.text),
                self@ == (ContextView { text: self@.text, ..old(self)@ }),
                interpreted(fonts@, start, operations@.take(i as int)) == Ok::<
                    PageState,
                    ExtractError,
                >(PageState { encoding: encoding_view(encoding), text: self@.text }),
            decreases operations.len() - i,
        {
            proof {
                assert(operations@.take(i + 1).drop_last() =~= operations@.take(i as int));
                assert(operations@.take(i + 1).last() == operations@[i as int]);
            }
            match self.apply_operation(fonts, encoding, &operations[i]) {
                Ok(next) => {
                    encoding = next;
                },
                Err(error) => {
                    proof {
                        lemma_failure_ends_walk(fonts@, start, operations@, i + 1);
                    }
                    self.clear_text();
                    return Err(error);
                },
            }
            i = i + 1;
        }
        assert(operations@.take(i as int) =~= operations@);
        let outcome = self.process_page();
        self.clear_text();
        outcome
    }
}

} // verus!
