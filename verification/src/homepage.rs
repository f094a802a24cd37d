//! The file-picker view: the session's registry of note paths shown as one
//! document, navigated with the same motions as an editor.

use vstd::prelude::*;

use crate::command::Command;
use crate::document::Document;
use crate::text::line_clean;
use crate::text::view_lines;
use crate::vim::Search;

verus! {

/// What one key in the file-picker asks the session to do.
pub enum InputResult {
    /// Leave the session; the picker is its top level.
    Quit,
    /// Nothing to act on: keep reading keys.
    Continue,
    /// Open the file at the given path.
    File(Vec<char>),
    /// Enter the search dialog, or repeat the search in a direction.
    Search(Search),
    /// Enter the command line.
    Command,
    /// Run a command directly.
    CommandExec(Command),
}

/// The picker document: one line per known note path, cursor at the origin.
pub fn homepage_document(file_paths: &Vec<Vec<char>>) -> (d: Document)
    requires
        forall|i: int|
            0 <= i < file_paths@.len() ==> line_clean(#[trigger] view_lines(file_paths@)[i]),
    ensures
        d@.wf(),
        d@.lines == if file_paths@.len() == 0 {
            seq![Seq::<char>::empty()]
        } else {
            view_lines(file_paths@)
        },
        d@.row == 0,
        d@.col == 0,
        d@.path is None,
{
    if file_paths.len() == 0 {
        Document::empty()
    } else {
        let lines = crate::text::copy_lines(file_paths);
        Document::from_lines(lines, None)
    }
}

} // verus!
