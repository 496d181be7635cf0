//! The output folder as the pages leave it: a model of what the files hold once
//! the output of each page has been carried out.

use vstd::prelude::*;
use crate::chapter::preamble_file_name;
use crate::context::PageOutputView;

verus! {

/// An output folder: what each file holds, by name, and the one file that is
/// open.
pub struct FolderView {
    pub files: Map<Seq<char>, Seq<char>>,
    pub open_file: Seq<char>,
}

/// The folder at the start of a run: it holds the empty file for the preamble,
/// which is open.
pub open spec fn folder_at_start() -> FolderView {
    FolderView {
        files: Map::<Seq<char>, Seq<char>>::empty().insert(preamble_file_name(), Seq::empty()),
        open_file: preamble_file_name(),
    }
}

/// The folder after a file is created: the file is empty, whatever it held
/// before, and it is the open file.
pub open spec fn with_created(folder: FolderView, name: Seq<char>) -> FolderView {
    FolderView { files: folder.files.insert(name, Seq::empty()), open_file: name }
}

/// The folder after text is appended to the open file.
pub open spec fn with_appended(folder: FolderView, text: Seq<char>) -> FolderView {
    FolderView {
        files: folder.files.insert(folder.open_file, folder.files[folder.open_file] + text),
        open_file: folder.open_file,
    }
}

/// The folder after the output of one page is carried out: first the file is
/// created, if the page opens one, then the text is appended, if the page hands
/// text over.
pub open spec fn carried_out(folder: FolderView, output: PageOutputView) -> FolderView {
    let opened = match output.created {
        Some(name) => with_created(folder, name),
        None => folder,
    };
    match output.text {
        Some(text) => with_appended(opened, text),
        None => opened,
    }
}

} // verus!
