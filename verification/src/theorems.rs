//! What holds of every page and of every run of pages.

use vstd::prelude::*;
use crate::chapter::{
    appendix_file_name, classification, has_chapter_number, marker_action, DecisionView,
};
use crate::error::ExtractError;
use crate::context::{applied, processed, ContextView};
use crate::folder::{carried_out, FolderView};
use crate::interpreter::{interpreted, page_outcome, page_start, PageState};
use crate::operand::Operation;
use crate::text::{closed_line, newline};

verus! {

/// Whether none of the markers that let pages through starts `text`.
pub open spec fn opens_nothing(text: Seq<char>) -> bool {
    &&& !"Introduction"@.is_prefix_of(text)
    &&& !"Chapter "@.is_prefix_of(text)
    &&& !"Appendix"@.is_prefix_of(text)
}

/// The context after a page of the given text, the text itself left aside.
pub open spec fn after_page(context: ContextView, text: Seq<char>) -> Result<
    ContextView,
    ExtractError,
> {
    match classification(text) {
        Ok(decision) => Ok(applied(context, decision)),
        Err(error) => Err(error),
    }
}

/// The context after pages of the given texts, in order.
pub open spec fn after_pages(context: ContextView, texts: Seq<Seq<char>>) -> Result<
    ContextView,
    ExtractError,
>
    decreases texts.len(),
{
    if texts.len() == 0 {
        Ok(context)
    } else {
        match after_pages(context, texts.drop_last()) {
            Ok(before) => after_page(before, texts.last()),
            Err(error) => Err(error),
        }
    }
}

/// Whether no operation of a page shows text.
pub open spec fn shows_no_text(operations: Seq<Operation>) -> bool {
    forall|i: int|
        0 <= i < operations.len() ==> (#[trigger] operations[i]).operator@ != "Tj"@
            && operations[i].operator@ != "TJ"@
}

/// Whether no operation of a page ends a text object.
pub open spec fn ends_no_text_object(operations: Seq<Operation>) -> bool {
    forall|i: int| 0 <= i < operations.len() ==> (#[trigger] operations[i]).operator@ != "ET"@
}

/// A text without characters, and one that is a lone line break, start with no
/// marker.
proof fn lemma_blank_has_no_marker(text: Seq<char>)
    requires
        text.len() == 0 || text =~= seq![newline()],
    ensures
        marker_action(text) is None,
        classification(text) == Ok::<DecisionView, ExtractError>(DecisionView::Keep),
{
    reveal_strlit("Introduction");
    reveal_strlit("Chapter ");
    reveal_strlit("Appendix");
    reveal_strlit("Part ");
    reveal_strlit("Index");
    if text.len() > 0 {
        assert(text.subrange(0, 1)[0] == '\n');
    }
}

/// Every page whose text starts with the appendix marker opens the same file,
/// `A.txt`, whatever follows the marker.
pub proof fn lemma_appendix_opens_one_file(text: Seq<char>)
    requires
        "Appendix"@.is_prefix_of(text),
    ensures
        classification(text) == Ok::<DecisionView, ExtractError>(
            DecisionView::Open(appendix_file_name()),
        ),
        appendix_file_name() == "A.txt"@,
{
    reveal_strlit("Introduction");
    reveal_strlit("Chapter ");
    reveal_strlit("Appendix");
    assert(text[0] == 'A') by {
        assert(text.subrange(0, 8)[0] == "Appendix"@[0]);
    }
    assert(!"Introduction"@.is_prefix_of(text)) by {
        if "Introduction"@.is_prefix_of(text) {
            assert(text.subrange(0, 12)[0] == "Introduction"@[0]);
        }
    }
    assert(!"Chapter "@.is_prefix_of(text)) by {
        if "Chapter "@.is_prefix_of(text) {
            assert(text.subrange(0, 8)[0] == "Chapter "@[0]);
        }
    }
}

/// A page that starts with the appendix marker leaves the file of the appendices
/// holding its own text and nothing else, whatever the file held before.
pub proof fn lemma_appendix_replaces_file(folder: FolderView, context: ContextView)
    requires
        "Appendix"@.is_prefix_of(context.text),
    ensures
        processed(context) is Ok,
        carried_out(folder, processed(context)->Ok_0.1).open_file == appendix_file_name(),
        carried_out(folder, processed(context)->Ok_0.1).files.contains_key(appendix_file_name()),
        carried_out(folder, processed(context)->Ok_0.1).files[appendix_file_name()]
            == context.text,
{
    lemma_appendix_opens_one_file(context.text);
    let output = processed(context)->Ok_0.1;
    assert(output.created == Some(appendix_file_name()));
    assert(output.text == Some(context.text));
    assert(Seq::<char>::empty() + context.text =~= context.text);
}

/// Of two appendices in a row, the second overwrites the first: after both pages
/// the file of the appendices holds the text of the second alone.
pub proof fn lemma_second_appendix_overwrites(
    folder: FolderView,
    context: ContextView,
    first: Seq<char>,
    second: Seq<char>,
)
    requires
        "Appendix"@.is_prefix_of(first),
        "Appendix"@.is_prefix_of(second),
    ensures
        ({
            let one = processed(ContextView { text: first, ..context });
            let two = processed(ContextView { text: second, ..one->Ok_0.0 });
            &&& one is Ok
            &&& two is Ok
            &&& carried_out(carried_out(folder, one->Ok_0.1), two->Ok_0.1).files[appendix_file_name()]
                == second
        }),
{
    let one = processed(ContextView { text: first, ..context });
    lemma_appendix_replaces_file(folder, ContextView { text: first, ..context });
    lemma_appendix_replaces_file(
        carried_out(folder, one->Ok_0.1),
        ContextView { text: second, ..one->Ok_0.0 },
    );
}

/// Where the open file of a folder is the open file of a context, it still is
/// after a page has been taken in and its output carried out.
pub proof fn lemma_folder_follows_context(folder: FolderView, context: ContextView)
    requires
        folder.open_file == context.file_name,
        processed(context) is Ok,
    ensures
        carried_out(folder, processed(context)->Ok_0.1).open_file
            == processed(context)->Ok_0.0.file_name,
{
}

/// A page that is dropped leaves every file of the folder as it was.
pub proof fn lemma_dropped_page_leaves_folder(folder: FolderView, context: ContextView)
    requires
        processed(context) is Ok,
        !processed(context)->Ok_0.0.can_write,
    ensures
        carried_out(folder, processed(context)->Ok_0.1) == folder,
{
}

/// A page that starts with the part marker, or with the index marker, turns
/// writing off and leaves the open file as it is.
pub proof fn lemma_part_and_index_suppress(context: ContextView, text: Seq<char>)
    requires
        "Part "@.is_prefix_of(text) || "Index"@.is_prefix_of(text),
    ensures
        after_page(context, text) == Ok::<ContextView, ExtractError>(
            ContextView { can_write: false, ..context },
        ),
{
    reveal_strlit("Introduction");
    reveal_strlit("Chapter ");
    reveal_strlit("Appendix");
    reveal_strlit("Part ");
    reveal_strlit("Index");
    if "Part "@.is_prefix_of(text) {
        assert(text[0] == 'P') by {
            assert(text.subrange(0, 5)[0] == "Part "@[0]);
        }
    } else {
        assert(text[0] == 'I' && text[1] == 'n' && text[2] == 'd') by {
            assert(text.subrange(0, 5)[0] == "Index"@[0]);
            assert(text.subrange(0, 5)[1] == "Index"@[1]);
            assert(text.subrange(0, 5)[2] == "Index"@[2]);
        }
    }
    assert(!"Introduction"@.is_prefix_of(text)) by {
        if "Introduction"@.is_prefix_of(text) {
            assert(text.subrange(0, 12)[0] == "Introduction"@[0]);
            assert(text.subrange(0, 12)[2] == "Introduction"@[2]);
        }
    }
    assert(!"Chapter "@.is_prefix_of(text)) by {
        if "Chapter "@.is_prefix_of(text) {
            assert(text.subrange(0, 8)[0] == "Chapter "@[0]);
        }
    }
    assert(!"Appendix"@.is_prefix_of(text)) by {
        if "Appendix"@.is_prefix_of(text) {
            assert(text.subrange(0, 8)[0] == "Appendix"@[0]);
        }
    }
}

/// While writing is off, a page that starts with none of the markers
/// `Introduction`, `Chapter ` and `Appendix` leaves the context as it is.
pub proof fn lemma_writing_stays_off(context: ContextView, text: Seq<char>)
    requires
        !context.can_write,
        opens_nothing(text),
    ensures
        after_page(context, text) == Ok::<ContextView, ExtractError>(context),
{
}

/// After a page that starts with the part marker, pages are dropped for as long
/// as none starts with `Introduction`, `Chapter ` or `Appendix`: writing is
/// off after every such run of pages, and the open file is the one that was
/// open before.
pub proof fn lemma_suppressed_until_marker(
    context: ContextView,
    part: Seq<char>,
    later: Seq<Seq<char>>,
)
    requires
        "Part "@.is_prefix_of(part),
        forall|i: int| 0 <= i < later.len() ==> opens_nothing(#[trigger] later[i]),
    ensures
        after_pages(context, seq![part] + later) == Ok::<ContextView, ExtractError>(
            ContextView { can_write: false, ..context },
        ),
    decreases later.len(),
{
    let texts = seq![part] + later;
    let shut = ContextView { can_write: false, ..context };
    if later.len() == 0 {
        assert(texts.drop_last() =~= Seq::<Seq<char>>::empty());
        assert(texts.last() == part);
        assert(after_pages(context, texts.drop_last()) == Ok::<ContextView, ExtractError>(context));
        lemma_part_and_index_suppress(context, part);
    } else {
        assert(texts.drop_last() =~= seq![part] + later.drop_last());
        assert(texts.last() == later.last());
        lemma_suppressed_until_marker(context, part, later.drop_last());
        lemma_writing_stays_off(shut, later.last());
    }
}

/// A page that starts with `Introduction`, with `Appendix`, or with `Chapter `
/// and the two characters of a number, turns writing on.
pub proof fn lemma_marker_turns_writing_on(context: ContextView, text: Seq<char>)
    requires
        !opens_nothing(text),
        "Chapter "@.is_prefix_of(text) ==> has_chapter_number(text),
    ensures
        after_page(context, text) is Ok,
        after_page(context, text)->Ok_0.can_write,
{
    reveal_strlit("Introduction");
    reveal_strlit("Chapter ");
    reveal_strlit("Appendix");
    if "Introduction"@.is_prefix_of(text) {
    } else if "Chapter "@.is_prefix_of(text) {
    } else {
        lemma_appendix_opens_one_file(text);
    }
}

/// Where no operation of a page shows text, none but the last does, and the
/// last does not either.
proof fn lemma_no_text_before_last(operations: Seq<Operation>)
    requires
        operations.len() > 0,
        shows_no_text(operations),
    ensures
        shows_no_text(operations.drop_last()),
        operations.last().operator@ != "Tj"@,
        operations.last().operator@ != "TJ"@,
{
    let before = operations.drop_last();
    assert forall|i: int| 0 <= i < before.len() implies (#[trigger] before[i]).operator@ != "Tj"@
        && before[i].operator@ != "TJ"@ by {
        assert(before[i] == operations[i]);
    }
    assert(operations.last() == operations[operations.len() - 1]);
}

/// Where no operation of a page ends a text object, none but the last does, and
/// the last does not either.
proof fn lemma_no_end_before_last(operations: Seq<Operation>)
    requires
        operations.len() > 0,
        ends_no_text_object(operations),
    ensures
        ends_no_text_object(operations.drop_last()),
        operations.last().operator@ != "ET"@,
{
    let before = operations.drop_last();
    assert forall|i: int| 0 <= i < before.len() implies (#[trigger] before[i]).operator@ != "ET"@ by {
        assert(before[i] == operations[i]);
    }
    assert(operations.last() == operations[operations.len() - 1]);
}

/// Operations that neither show text nor end a text object leave the text as
/// it is, unless one of them fails.
pub proof fn lemma_text_untouched(
    fonts: Map<Seq<u8>, lopdf::Dictionary>,
    state: PageState,
    operations: Seq<Operation>,
)
    requires
        shows_no_text(operations),
        ends_no_text_object(operations),
    ensures
        match interpreted(fonts, state, operations) {
            Ok(after) => after.text == state.text,
            Err(error) => error == ExtractError::OperandType,
        },
    decreases operations.len(),
{
    if operations.len() > 0 {
        let before = operations.drop_last();
        lemma_no_text_before_last(operations);
        lemma_no_end_before_last(operations);
        lemma_text_untouched(fonts, state, before);
    }
}

/// Operations that do not show text leave an empty text empty or make it a
/// lone line break, unless one of them fails.
pub proof fn lemma_text_stays_blank(
    fonts: Map<Seq<u8>, lopdf::Dictionary>,
    state: PageState,
    operations: Seq<Operation>,
)
    requires
        shows_no_text(operations),
        state.text.len() == 0,
    ensures
        match interpreted(fonts, state, operations) {
            Ok(after) => after.text.len() == 0 || after.text =~= seq![newline()],
            Err(error) => error == ExtractError::OperandType,
        },
    decreases operations.len(),
{
    if operations.len() > 0 {
        let before = operations.drop_last();
        lemma_no_text_before_last(operations);
        lemma_text_stays_blank(fonts, state, before);
        match interpreted(fonts, state, before) {
            Ok(middle) => {
                if middle.text.len() == 0 {
                    assert(closed_line(middle.text) =~= seq![newline()]);
                } else {
                    assert(closed_line(middle.text) == middle.text);
                }
            },
            Err(_) => {},
        }
    }
}

/// A page that neither shows text nor ends a text object gathers no text: taken
/// in with an empty text buffer, it leaves the context as it was, opens no file,
/// and hands no character to the open file.
pub proof fn lemma_page_without_text(
    context: ContextView,
    fonts: Map<Seq<u8>, lopdf::Dictionary>,
    operations: Seq<Operation>,
)
    requires
        context.text.len() == 0,
        shows_no_text(operations),
        ends_no_text_object(operations),
    ensures
        match page_outcome(context, fonts, operations) {
            Ok((next, output)) => {
                &&& next == context
                &&& output.created is None
                &&& output.text == if context.can_write {
                    Some(Seq::<char>::empty())
                } else {
                    None
                }
            },
            Err(error) => error == ExtractError::OperandType,
        },
{
    lemma_text_untouched(fonts, page_start(context.text), operations);
    lemma_blank_has_no_marker(context.text);
    match interpreted(fonts, page_start(context.text), operations) {
        Ok(state) => {
            assert(state.text =~= Seq::<char>::empty());
            assert(context.text =~= Seq::<char>::empty());
        },
        Err(_) => {},
    }
}

/// A page that shows no text changes neither the write flag nor the open file and
/// opens no file; what it hands to the open file is at most a lone line break.
pub proof fn lemma_page_of_line_breaks(
    context: ContextView,
    fonts: Map<Seq<u8>, lopdf::Dictionary>,
    operations: Seq<Operation>,
)
    requires
        context.text.len() == 0,
        shows_no_text(operations),
    ensures
        match page_outcome(context, fonts, operations) {
            Ok((next, output)) => {
                &&& next == context
                &&& output.created is None
                &&& output.text is Some <==> context.can_write
                &&& output.text is Some ==> output.text->Some_0.len() == 0
                    || output.text->Some_0 == seq![newline()]
            },
            Err(error) => error == ExtractError::OperandType,
        },
{
    lemma_text_stays_blank(fonts, page_start(context.text), operations);
    match interpreted(fonts, page_start(context.text), operations) {
        Ok(state) => {
            lemma_blank_has_no_marker(state.text);
            assert(context.text =~= Seq::<char>::empty());
        },
        Err(_) => {},
    }
}

} // verus!
