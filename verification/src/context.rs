//! The state of one extraction run: the output folder, the file that is open,
//! the text of the page at hand and the flag that lets pages through.

use vstd::prelude::*;
use vstd::string::StringExecFns;
use crate::chapter::{classification, classify, preamble_file_name, Decision, DecisionView};
use crate::error::ExtractError;
use crate::collector::{collect_into, encoding_view, operands_text};
use crate::operand::Operand;
use crate::text::{closed_line, has_trailing_newline};

verus! {

/// What an extraction context stands for.
pub struct ContextView {
    /// The folder that takes the output files.
    pub folder_name: Seq<char>,
    /// The file that is open, by its name inside the folder.
    pub file_name: Seq<char>,
    /// The text gathered from the page at hand.
    pub text: Seq<char>,
    /// Whether pages are written or dropped.
    pub can_write: bool,
}

/// The state of one extraction run.
pub struct ExtractionContext {
    folder_name: String,
    file_name: String,
    text: String,
    can_write: bool,
}

impl View for ExtractionContext {
    type V = ContextView;

    closed spec fn view(&self) -> ContextView {
        ContextView {
            folder_name: self.folder_name@,
            file_name: self.file_name@,
            text: self.text@,
            can_write: self.can_write,
        }
    }
}

/// What a page asks of the output folder.
#[derive(Debug, PartialEq, Eq)]
pub struct PageOutput {
    /// The file to create, or to empty if it exists, and to keep open from now on.
    pub created: Option<String>,
    /// The text to append to the file that is open.
    pub text: Option<String>,
}

/// What a page output stands for.
pub struct PageOutputView {
    pub created: Option<Seq<char>>,
    pub text: Option<Seq<char>>,
}

/// The characters of a text that may be absent.
pub open spec fn text_view(text: Option<String>) -> Option<Seq<char>> {
    match text {
        Some(text) => Some(text@),
        None => None,
    }
}

impl View for PageOutput {
    type V = PageOutputView;

    open spec fn view(&self) -> PageOutputView {
        PageOutputView { created: text_view(self.created), text: text_view(self.text) }
    }
}

/// The context as a decision leaves it.
pub open spec fn applied(context: ContextView, decision: DecisionView) -> ContextView {
    match decision {
        DecisionView::Keep => context,
        DecisionView::Resume => ContextView { can_write: true, ..context },
        DecisionView::Open(name) => ContextView { file_name: name, can_write: true, ..context },
        DecisionView::Suppress => ContextView { can_write: false, ..context },
    }
}

/// The file that a decision opens.
pub open spec fn created_file(decision: DecisionView) -> Option<Seq<char>> {
    match decision {
        DecisionView::Open(name) => Some(name),
        _ => None,
    }
}

/// The text that a context lets through to the open file.
pub open spec fn flushed_text(context: ContextView) -> Option<Seq<char>> {
    if context.can_write {
        Some(context.text)
    } else {
        None
    }
}

/// What the text in a context makes of it: the context with the write flag and
/// the open file brought up to date, and what goes to the output folder.
pub open spec fn processed(context: ContextView) -> Result<
    (ContextView, PageOutputView),
    ExtractError,
> {
    match classification(context.text) {
        Ok(decision) => Ok(
            (
                applied(context, decision),
                PageOutputView {
                    created: created_file(decision),
                    text: flushed_text(applied(context, decision)),
                },
            ),
        ),
        Err(error) => Err(error),
    }
}

/// The context at the start of a run into the given folder: the file for the
/// preamble is open, no text is gathered, and pages are dropped until a marker
/// lets them through.
pub open spec fn start_of_run(folder_name: Seq<char>) -> ContextView {
    ContextView {
        folder_name,
        file_name: preamble_file_name(),
        text: Seq::empty(),
        can_write: false,
    }
}

/// The stem of a path: the name of its last component without the extension,
/// where the path has a file name. The platform that the program is built for
/// decides how a path falls into components.
pub uninterp spec fn path_stem(path: Seq<char>) -> Option<Seq<char>>;

/// Takes the stem of a path through `std::path::Path::file_stem`.
///
/// Nothing is proved of the stem; the contract only gives it the name
/// `path_stem`, a function of the characters of the path.
#[verifier::external_body]
fn file_stem(path: &str) -> (stem: Option<String>)
    ensures
        text_view(stem) == path_stem(path@),
{
    std::path::Path::new(path).file_stem().and_then(|stem| stem.to_str()).map(|stem| stem.to_owned())
}

impl ExtractionContext {
    /// The context at the start of a run into `folder_name`.
    pub fn in_folder(folder_name: String) -> (context: Self)
        ensures
            context@ == start_of_run(folder_name@),
    {
        ExtractionContext {
            folder_name,
            file_name: String::from_str("00.txt"),
            text: String::new(),
            can_write: false,
        }
    }

    /// The context at the start of a run on the document at `file_name`. The
    /// output folder is named after the stem of that path, so after the document
    /// without its extension. A path without a file name gives no context.
    pub fn new_with_saving_folder(file_name: &str) -> (context: Option<Self>)
        ensures
            match path_stem(file_name@) {
                Some(stem) => context is Some && context->Some_0@ == start_of_run(stem),
                None => context is None,
            },
    {
        ExtractionContext::from_stem(file_stem(file_name))
    }

    /// The context at the start of a run on a document whose path has the given
    /// stem: the run goes into the folder of that name. Without a stem there is
    /// no folder to run into, and no context.
    pub fn from_stem(stem: Option<String>) -> (context: Option<Self>)
        ensures
            match stem {
                Some(folder_name) => context is Some && context->Some_0@ == start_of_run(
                    folder_name@,
                ),
                None => context is None,
            },
    {
        match stem {
            Some(folder_name) => Some(ExtractionContext::in_folder(folder_name)),
            None => None,
        }
    }

    /// The folder that takes the output files.
    pub fn folder_name(&self) -> (name: &str)
        ensures
            name@ == self@.folder_name,
    {
        self.folder_name.as_str()
    }

    /// The name of the file that is open.
    pub fn file_name(&self) -> (name: &str)
        ensures
            name@ == self@.file_name,
    {
        self.file_name.as_str()
    }

    /// The text gathered from the page at hand.
    pub fn text(&self) -> (text: &str)
        ensures
            text@ == self@.text,
    {
        self.text.as_str()
    }

    /// Whether pages are written.
    pub fn can_write(&self) -> (open: bool)
        ensures
            open == self@.can_write,
    {
        self.can_write
    }

    /// Appends decoded text to the text of the page.
    pub fn append_text(&mut self, decoded: &str)
        ensures
            final(self)@ == (ContextView { text: old(self)@.text + decoded@, ..old(self)@ }),
    {
        self.text.append(decoded);
    }

    /// Appends the text of the operands of a text-showing operator.
    pub fn collect_text(&mut self, encoding: Option<&str>, operands: &Vec<Operand>)
        ensures
            final(self)@ == (ContextView {
                text: old(self)@.text + operands_text(encoding_view(encoding), operands@),
                ..old(self)@
            }),
    {
        collect_into(&mut self.text, encoding, operands);
    }

    /// Ends a text object: the text of the page ends with a line break afterwards,
    /// and none is added where one is there already.
    pub fn end_text_object(&mut self)
        ensures
            final(self)@ == (ContextView { text: closed_line(old(self)@.text), ..old(self)@ }),
    {
        if !has_trailing_newline(self.text.as_str()) {
            proof {
                reveal_strlit("\n");
            }
            self.text.append("\n");
            assert(self.text@ =~= old(self).text@.push('\n'));
        }
    }

    /// Classifies the text of the page and brings the write flag and the open file up to
    /// date. Returns the name of the file that the page opens, if it opens one.
    ///
    /// Where a chapter marker lacks its number, nothing changes.
    pub fn split_into_chapters(&mut self) -> (outcome: Result<Option<String>, ExtractError>)
        ensures
            match classification(old(self)@.text) {
                Ok(decision) => {
                    &&& final(self)@ == applied(old(self)@, decision)
                    &&& outcome is Ok
                    &&& text_view(outcome->Ok_0) == created_file(decision)
                },
                Err(error) => {
                    &&& final(self)@ == old(self)@
                    &&& outcome == Err::<Option<String>, ExtractError>(error)
                },
            },
    {
        match classify(self.text.as_str()) {
            Ok(Decision::Keep) => Ok(None),
            Ok(Decision::Resume) => {
                self.can_write = true;
                Ok(None)
            },
            Ok(Decision::Open(name)) => {
                let opened = name.clone();
                self.create_file(name);
                Ok(Some(opened))
            },
            Ok(Decision::Suppress) => {
                self.can_write = false;
                Ok(None)
            },
            Err(error) => Err(error),
        }
    }

    /// Classifies the text of the page and says what goes to the output folder:
    /// the file to open, if any, and the text to append, unless pages are dropped.
    /// The text of the page stays in the context.
    pub fn process_page(&mut self) -> (outcome: Result<PageOutput, ExtractError>)
        ensures
            match processed(old(self)@) {
                Ok((context, output)) => {
                    &&& final(self)@ == context
                    &&& outcome is Ok
                    &&& outcome->Ok_0@ == output
                },
                Err(error) => {
                    &&& final(self)@ == old(self)@
                    &&& outcome == Err::<PageOutput, ExtractError>(error)
                },
            },
    {
        match self.split_into_chapters() {
            Ok(created) => {
                let text = if self.can_write {
                    Some(self.text.clone())
                } else {
                    None
                };
                Ok(PageOutput { created, text })
            },
            Err(error) => Err(error),
        }
    }

    /// Empties the text of the page.
    pub fn clear_text(&mut self)
        ensures
            final(self)@ == (ContextView { text: Seq::empty(), ..old(self)@ }),
    {
        self.text = String::new();
    }

    /// Makes `name` the file that is open and lets pages through.
    pub fn create_file(&mut self, name: String)
        ensures
            final(self)@ == (ContextView { file_name: name@, can_write: true, ..old(self)@ }),
    {
        self.file_name = name;
        self.can_write = true;
    }
}

} // verus!
