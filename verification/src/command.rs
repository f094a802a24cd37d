//! The closed set of commands a typed command line can mean, and the
//! case-sensitive alias table that parses one line of text into a command.

use vstd::prelude::*;

use crate::text::str_eq;

verus! {

/// One session command.
#[derive(Clone, Copy, Debug, PartialEq, Eq, Structural)]
pub enum Command {
    /// Close the current tab; the session ends with the last one.
    Quit,
    /// Write the current document to its backing path.
    Save,
    /// Save, then quit.
    SaveQuit,
    /// Name and create a new note, then open it.
    NewNote,
    /// Open the target of the wiki link under the cursor.
    FollowLink,
    /// Pick a template note and insert its expanded lines.
    InsertTemplate,
    /// Open one more tab.
    NewTab,
    /// Move tab focus by one: `0` to the previous tab, anything else to the
    /// next, clamped at the ends.
    FocusTab(u8),
    /// Switch to the next document of the current tab, clamped.
    NextBuffer,
    /// Switch to the previous document of the current tab, clamped.
    PreviousBuffer,
    /// Open the file-search dialog.
    SearchNote,
    /// Unrecognized input: silently do nothing.
    Nothing,
}

/// What a line of command text means. Unmatched text means
/// [`Command::Nothing`], by design not an error.
pub open spec fn spec_str_to_command(s: Seq<char>) -> Command {
    if s == "quit"@ || s == "q"@ {
        Command::Quit
    } else if s == "write"@ || s == "w"@ || s == "save"@ {
        Command::Save
    } else if s == "wq"@ {
        Command::SaveQuit
    } else if s == "new note"@ || s == "nn"@ {
        Command::NewNote
    } else if s == "follow"@ || s == "follow link"@ || s == "fl"@ {
        Command::FollowLink
    } else if s == "insert template"@ || s == "itm"@ {
        Command::InsertTemplate
    } else if s == "new tab"@ || s == "nt"@ {
        Command::NewTab
    } else if s == "next buffer"@ || s == "nb"@ {
        Command::NextBuffer
    } else if s == "previous buffer"@ || s == "prev buffer"@ || s == "pb"@ {
        Command::PreviousBuffer
    } else if s == "search note"@ || s == "search"@ || s == "sn"@ {
        Command::SearchNote
    } else {
        Command::Nothing
    }
}

impl Command {
    /// Parse one line of command text by the fixed, case-sensitive alias
    /// table.
    pub fn str_to_command(string: &str) -> (c: Command)
        ensures
            c == spec_str_to_command(string@),
    {
        if str_eq(string, "quit") || str_eq(string, "q") {
            Command::Quit
        } else if str_eq(string, "write") || str_eq(string, "w") || str_eq(string, "save") {
            Command::Save
        } else if str_eq(string, "wq") {
            Command::SaveQuit
        } else if str_eq(string, "new note") || str_eq(string, "nn") {
            Command::NewNote
        } else if str_eq(string, "follow") || str_eq(string, "follow link") || str_eq(
            string,
            "fl",
        ) {
            Command::FollowLink
        } else if str_eq(string, "insert template") || str_eq(string, "itm") {
            Command::InsertTemplate
        } else if str_eq(string, "new tab") || str_eq(string, "nt") {
            Command::NewTab
        } else if str_eq(string, "next buffer") || str_eq(string, "nb") {
            Command::NextBuffer
        } else if str_eq(string, "previous buffer") || str_eq(string, "prev buffer") || str_eq(
            string,
            "pb",
        ) {
            Command::PreviousBuffer
        } else if str_eq(string, "search note") || str_eq(string, "search") || str_eq(
            string,
            "sn",
        ) {
            Command::SearchNote
        } else {
            Command::Nothing
        }
    }
}

} // verus!
