//! The modal input interpreter: a finite state machine over the active mode
//! and one pending key, turning each key event into cursor motions, text
//! edits, mode transitions and higher-level commands.
//!
//! The whole machine is specified by [`step`] (and [`homepage_step`] for the
//! file picker): pure functions from `(mode, pending key, key event, buffer)`
//! to `(transition, buffer)`. [`Vim::exec`] promises to realise exactly those
//! functions.

use vstd::prelude::*;

use crate::command::Command;
use crate::document::DocView;
use crate::document::Document;
use crate::document::Motion;
use crate::document::spec_copy;
use crate::document::spec_cut;
use crate::document::spec_delete_char;
use crate::document::spec_delete_line_by_end;
use crate::document::spec_delete_next_char;
use crate::document::spec_insert_char;
use crate::document::spec_insert_newline;
use crate::document::spec_insert_str;
use crate::document::spec_move;
use crate::document::spec_paste;
use crate::document::spec_redo;
use crate::document::spec_scroll_down;
use crate::document::spec_scroll_up;
use crate::document::spec_undo;
use crate::homepage::InputResult;
use crate::input::Input;
use crate::input::Key;
use crate::text::view_lines;

verus! {

/// The active editing mode.
#[derive(Clone, Copy, Debug, PartialEq, Eq, Structural)]
pub enum Mode {
    /// Keys insert text.
    Insert,
    /// Keys are motions and commands.
    Normal,
    /// Motions extend a selection anchored where the mode was entered.
    Visual,
    /// The file-picker view is active.
    HomePage,
    /// An operator key awaits the motion that defines its range.
    Operator(char),
}

/// A search request handed up to the session.
#[derive(Clone, Copy, Debug, PartialEq, Eq, Structural)]
pub enum Search {
    /// Open the search dialog.
    Open,
    /// Repeat the last search forward.
    Forward,
    /// Repeat the last search backward.
    Backward,
}

/// What one key event did, as told to the session.
pub enum Transition {
    /// Nothing to report.
    Nop,
    /// The machine is now in this mode.
    Mode(Mode),
    /// The key was not consumed: store it as the pending key.
    Pending(Input),
    /// A file-picker result.
    InputResult(InputResult),
    /// Enter the command line.
    CommandMode,
    /// Run this command.
    CommandExec(Command),
    /// A search request.
    Search(Search),
}

/// The modal interpreter state: the mode and the one pending key.
#[derive(Clone, Copy, Debug)]
pub struct Vim {
    /// The active mode.
    pub mode: Mode,
    /// The last unconsumed key, for two-key sequences.
    pub pending: Input,
}

// ---------------------------------------------------------------------------
// The transition function
// ---------------------------------------------------------------------------

/// The whole-line shortcut taken when the operator key repeats: select from
/// the line head to the next line's head, or to the line end on the last
/// line.
pub open spec fn line_shortcut(d: DocView) -> DocView {
    let d1 = spec_move(d, Motion::Head);
    let d2 = DocView { anchor: Some((d1.row, d1.col)), ..d1 };
    let d3 = spec_move(d2, Motion::Down);
    if d3.row == d2.row && d3.col == d2.col {
        spec_move(d3, Motion::End)
    } else {
        d3
    }
}

/// Whether the pending slot holds a plain `g`, the first half of the two-key
/// go-to-top sequence.
pub open spec fn pending_is_g(pending: Input) -> bool {
    pending.key == Key::Char('g') && !pending.ctrl
}

/// The first phase of a Normal/Visual/Operator key: either a finished
/// transition, or `None` for a motion that falls through to the operator.
pub open spec fn edit_phase1(m: Mode, pending: Input, i: Input, d: DocView) -> (
    Option<Transition>,
    DocView,
) {
    match i.key {
        Key::Char(c) => {
            if c == 'h' {
                (None, spec_move(d, Motion::Back))
            } else if c == 'j' {
                (None, spec_move(d, Motion::Down))
            } else if c == 'k' {
                (None, spec_move(d, Motion::Up))
            } else if c == 'l' {
                (None, spec_move(d, Motion::Forward))
            } else if c == 'w' {
                (None, spec_move(d, Motion::WordForward))
            } else if c == 'e' && !i.ctrl {
                let d1 = spec_move(d, Motion::WordEnd);
                let d2 = if m is Operator {
                    spec_move(d1, Motion::Forward)
                } else {
                    d1
                };
                (None, d2)
            } else if c == 'b' && !i.ctrl {
                (None, spec_move(d, Motion::WordBack))
            } else if c == '^' {
                (None, spec_move(d, Motion::Head))
            } else if c == '$' {
                (None, spec_move(d, Motion::End))
            } else if c == 'D' {
                (Some(Transition::Mode(Mode::Normal)), spec_delete_line_by_end(d))
            } else if c == 'C' {
                (
                    Some(Transition::Mode(Mode::Insert)),
                    DocView { anchor: None, ..spec_delete_line_by_end(d) },
                )
            } else if c == 'p' {
                (Some(Transition::Mode(Mode::Normal)), spec_paste(d))
            } else if c == 'u' && !i.ctrl {
                (Some(Transition::Mode(Mode::Normal)), spec_undo(d))
            } else if c == 'r' && i.ctrl {
                (Some(Transition::Mode(Mode::Normal)), spec_redo(d))
            } else if c == 'x' {
                (Some(Transition::Mode(Mode::Normal)), spec_delete_next_char(d))
            } else if c == 'i' {
                (Some(Transition::Mode(Mode::Insert)), DocView { anchor: None, ..d })
            } else if c == 'a' {
                (
                    Some(Transition::Mode(Mode::Insert)),
                    spec_move(DocView { anchor: None, ..d }, Motion::Forward),
                )
            } else if c == 'A' {
                (
                    Some(Transition::Mode(Mode::Insert)),
                    spec_move(DocView { anchor: None, ..d }, Motion::End),
                )
            } else if c == 'o' && i.ctrl {
                (Some(Transition::CommandExec(Command::PreviousBuffer)), d)
            } else if c == 'o' {
                (
                    Some(Transition::Mode(Mode::Insert)),
                    spec_insert_newline(spec_move(d, Motion::End)),
                )
            } else if c == 'O' {
                (
                    Some(Transition::Mode(Mode::Insert)),
                    spec_move(spec_insert_newline(spec_move(d, Motion::Head)), Motion::Up),
                )
            } else if c == 'I' {
                (
                    Some(Transition::Mode(Mode::Insert)),
                    spec_move(DocView { anchor: None, ..d }, Motion::Head),
                )
            } else if c == 'e' && i.ctrl {
                (None, spec_scroll_down(d, 1))
            } else if c == 'y' && i.ctrl {
                (None, spec_scroll_up(d, 1))
            } else if c == 'd' && i.ctrl {
                (None, spec_scroll_down(d, d.view_rows / 2))
            } else if c == 'u' && i.ctrl {
                (None, spec_scroll_up(d, d.view_rows / 2))
            } else if c == 'f' && i.ctrl {
                (None, spec_scroll_down(d, d.view_rows))
            } else if c == 'b' && i.ctrl {
                (None, spec_scroll_up(d, d.view_rows))
            } else if c == '/' {
                (Some(Transition::Search(Search::Open)), d)
            } else if c == 'n' && !i.shift {
                (Some(Transition::Search(Search::Forward)), d)
            } else if c == 'N' {
                (Some(Transition::Search(Search::Backward)), d)
            } else if c == 'v' && !i.ctrl && m == Mode::Normal {
                (
                    Some(Transition::Mode(Mode::Visual)),
                    DocView { anchor: Some((d.row, d.col)), ..d },
                )
            } else if c == 'V' && !i.ctrl && m == Mode::Normal {
                let d1 = spec_move(d, Motion::Head);
                let d2 = DocView { anchor: Some((d1.row, d1.col)), ..d1 };
                (Some(Transition::Mode(Mode::Visual)), spec_move(d2, Motion::End))
            } else if c == 'v' && !i.ctrl && m == Mode::Visual {
                (Some(Transition::Mode(Mode::Normal)), DocView { anchor: None, ..d })
            } else if c == 'g' && !i.ctrl && pending_is_g(pending) {
                (None, spec_move(d, Motion::Top))
            } else if c == 'G' && !i.ctrl {
                (None, spec_move(d, Motion::Bottom))
            } else if !i.ctrl && m == Mode::Operator(c) {
                (None, line_shortcut(d))
            } else if (c == 'y' || c == 'd' || c == 'c') && !i.ctrl && m == Mode::Normal {
                (
                    Some(Transition::Mode(Mode::Operator(c))),
                    DocView { anchor: Some((d.row, d.col)), ..d },
                )
            } else if c == 'y' && !i.ctrl && m == Mode::Visual {
                (
                    Some(Transition::Mode(Mode::Normal)),
                    spec_copy(spec_move(d, Motion::Forward)),
                )
            } else if c == 'd' && !i.ctrl && m == Mode::Visual {
                (
                    Some(Transition::Mode(Mode::Normal)),
                    spec_cut(spec_move(d, Motion::Forward)),
                )
            } else if c == 'c' && !i.ctrl && m == Mode::Visual {
                (
                    Some(Transition::Mode(Mode::Insert)),
                    spec_cut(spec_move(d, Motion::Forward)),
                )
            } else if c == ':' && m == Mode::Normal {
                (Some(Transition::CommandMode), d)
            } else {
                (Some(Transition::Pending(i)), d)
            }
        },
        Key::Esc => {
            if m == Mode::Visual {
                (Some(Transition::Mode(Mode::Normal)), DocView { anchor: None, ..d })
            } else {
                (Some(Transition::Pending(i)), d)
            }
        },
        Key::Enter => {
            if m == Mode::Normal {
                (Some(Transition::CommandExec(Command::FollowLink)), d)
            } else {
                (Some(Transition::Pending(i)), d)
            }
        },
        _ => (Some(Transition::Pending(i)), d),
    }
}

/// After a motion in Operator mode the operator fires: `y` copies, `d` cuts,
/// `c` cuts and enters Insert. Other modes do nothing.
pub open spec fn fire_op(m: Mode, d: DocView) -> (Transition, DocView) {
    match m {
        Mode::Operator(op) => {
            if op == 'y' {
                (Transition::Mode(Mode::Normal), spec_copy(d))
            } else if op == 'd' {
                (Transition::Mode(Mode::Normal), spec_cut(d))
            } else if op == 'c' {
                (Transition::Mode(Mode::Insert), spec_cut(d))
            } else {
                (Transition::Nop, d)
            }
        },
        _ => (Transition::Nop, d),
    }
}

/// One key in Normal, Visual or Operator mode.
pub open spec fn edit_step(m: Mode, pending: Input, i: Input, d: DocView) -> (Transition, DocView) {
    let (t0, d1) = edit_phase1(m, pending, i, d);
    match t0 {
        Some(t) => (t, d1),
        None => fire_op(m, d1),
    }
}

/// A forwarded editing key in Insert mode: newline, backspace, delete, tab
/// (spaces to the next tab stop), plain navigation. Anything else does
/// nothing.
pub open spec fn input_step(i: Input, d: DocView) -> DocView {
    match i.key {
        Key::Enter => spec_insert_newline(d),
        Key::Backspace => spec_delete_char(d),
        Key::Delete => spec_delete_next_char(d),
        Key::Tab => spec_insert_str(d, Seq::new((4 - d.col % 4) as nat, |k: int| ' ')),
        Key::Up => spec_move(d, Motion::Up),
        Key::Down => spec_move(d, Motion::Down),
        Key::Left => spec_move(d, Motion::Back),
        Key::Right => spec_move(d, Motion::Forward),
        Key::Home => spec_move(d, Motion::Head),
        Key::End => spec_move(d, Motion::End),
        Key::PageUp => spec_scroll_up(d, d.view_rows),
        Key::PageDown => spec_scroll_down(d, d.view_rows),
        _ => d,
    }
}

/// One key in Insert mode: `Esc` steps back one column and returns to
/// Normal, so the cursor rests on the last typed character; a character
/// inserts itself; other keys forward to the buffer's input handler.
pub open spec fn insert_step(i: Input, d: DocView) -> (Transition, DocView) {
    match i.key {
        Key::Esc => (
            Transition::Mode(Mode::Normal),
            if d.col > 0 {
                spec_move(d, Motion::Back)
            } else {
                d
            },
        ),
        Key::Char(c) => (Transition::Mode(Mode::Insert), spec_insert_char(d, c)),
        _ => (Transition::Mode(Mode::Insert), input_step(i, d)),
    }
}

/// One non-idle key in any document-editing mode.
pub open spec fn step(m: Mode, pending: Input, i: Input, d: DocView) -> (Transition, DocView) {
    match m {
        Mode::Insert => insert_step(i, d),
        _ => edit_step(m, pending, i, d),
    }
}

// ---------------------------------------------------------------------------
// The file-picker machine
// ---------------------------------------------------------------------------

/// What a file-picker key asks for, before the registry is consulted.
pub ghost enum HomeOut {
    /// Keep reading keys.
    Continue,
    /// Enter the command line.
    Command,
    /// Switch to the previous document.
    CommandExecPrev,
    /// Open the search dialog.
    SearchOpen,
    /// Repeat the search forward.
    SearchFwd,
    /// Repeat the search backward.
    SearchBack,
    /// Open the file listed on this row.
    FileAt(int),
    /// Leave the session.
    Quit,
}

/// One key in the file picker: the navigation subset of the editing motions,
/// `Enter` to open the file under the cursor, `Esc` to leave the session.
/// Unlike Normal mode, the picker tracks no pending key, so a single plain
/// go-to-top key moves to the first row at once: that is this picker's
/// chosen policy.
pub open spec fn homepage_step(i: Input, d: DocView) -> (DocView, HomeOut) {
    match i.key {
        Key::Char(c) => {
            if c == 'h' {
                (spec_move(d, Motion::Back), HomeOut::Continue)
            } else if c == 'j' {
                (spec_move(d, Motion::Down), HomeOut::Continue)
            } else if c == 'k' {
                (spec_move(d, Motion::Up), HomeOut::Continue)
            } else if c == 'l' {
                (spec_move(d, Motion::Forward), HomeOut::Continue)
            } else if c == 'w' {
                (spec_move(d, Motion::WordForward), HomeOut::Continue)
            } else if c == 'e' && !i.ctrl {
                (spec_move(d, Motion::WordEnd), HomeOut::Continue)
            } else if c == 'b' && !i.ctrl {
                (spec_move(d, Motion::WordBack), HomeOut::Continue)
            } else if c == ':' {
                (d, HomeOut::Command)
            } else if c == 'o' && i.ctrl {
                (d, HomeOut::CommandExecPrev)
            } else if c == '^' {
                (spec_move(d, Motion::Head), HomeOut::Continue)
            } else if c == '$' {
                (spec_move(d, Motion::End), HomeOut::Continue)
            } else if c == 'd' && i.ctrl {
                (spec_scroll_down(d, d.view_rows / 2), HomeOut::Continue)
            } else if c == 'u' && i.ctrl {
                (spec_scroll_up(d, d.view_rows / 2), HomeOut::Continue)
            } else if c == 'g' && !i.ctrl {
                (spec_move(d, Motion::Top), HomeOut::Continue)
            } else if c == 'G' && !i.ctrl {
                (spec_move(d, Motion::Bottom), HomeOut::Continue)
            } else if c == '/' {
                (d, HomeOut::SearchOpen)
            } else if c == 'n' && !i.shift {
                (d, HomeOut::SearchFwd)
            } else if c == 'N' {
                (d, HomeOut::SearchBack)
            } else {
                (d, HomeOut::Continue)
            }
        },
        Key::Enter => (d, HomeOut::FileAt(d.row)),
        Key::Esc => (d, HomeOut::Quit),
        _ => (d, HomeOut::Continue),
    }
}

/// Whether a picker result reports the asked-for action; opening a file
/// reports the path on the cursor's row of the registry, and a cursor beyond
/// the registry reports nothing.
pub open spec fn home_result_matches(h: HomeOut, files: Seq<Seq<char>>, r: InputResult) -> bool {
    match h {
        HomeOut::Continue => r is Continue,
        HomeOut::Command => r is Command,
        HomeOut::CommandExecPrev => r == InputResult::CommandExec(Command::PreviousBuffer),
        HomeOut::SearchOpen => r == InputResult::Search(Search::Open),
        HomeOut::SearchFwd => r == InputResult::Search(Search::Forward),
        HomeOut::SearchBack => r == InputResult::Search(Search::Backward),
        HomeOut::FileAt(idx) => {
            if 0 <= idx < files.len() {
                r matches InputResult::File(p) && p@ == files[idx]
            } else {
                r is Continue
            }
        },
        HomeOut::Quit => r is Quit,
    }
}

// ---------------------------------------------------------------------------
// The interpreter
// ---------------------------------------------------------------------------

impl Vim {
    /// A machine in the given mode with nothing pending.
    pub fn new(mode: Mode) -> (v: Vim)
        ensures
            v.mode == mode,
            v.pending == (Input { key: Key::Null, ctrl: false, alt: false, shift: false }),
    {
        Vim { mode, pending: Input::default() }
    }

    /// The same mode with the given key pending.
    pub fn with_pending(self, pending: Input) -> (v: Vim)
        ensures
            v.mode == self.mode,
            v.pending == pending,
    {
        Vim { mode: self.mode, pending }
    }

    /// Interpret one key event against a document. A `Null` key is the idle
    /// tick and does nothing. In the file picker the result is an
    /// [`InputResult`] naming a path from the registry; in every other mode
    /// the machine behaves exactly as [`step`] says.
    pub fn exec(&self, input: Input, doc: &mut Document, file_paths: &Vec<Vec<char>>) -> (t:
        Transition)
        requires
            old(doc)@.wf(),
        ensures
            input.key is Null ==> t == Transition::Nop && final(doc)@ == old(doc)@,
            !(input.key is Null) && !(self.mode is HomePage) ==> ({
                let (t2, d2) = step(self.mode, self.pending, input, old(doc)@);
                t == t2 && final(doc)@ == d2
            }),
            !(input.key is Null) && self.mode is HomePage ==> ({
                let (d2, h) = homepage_step(input, old(doc)@);
                final(doc)@ == d2 && (t matches Transition::InputResult(ir)
                    && home_result_matches(h, view_lines(file_paths@), ir))
            }),
            final(doc)@.wf(),
    {
        if let Key::Null = input.key {
            return Transition::Nop;
        }
        match self.mode {
            Mode::HomePage => Transition::InputResult(
                self.exec_homepage(input, doc, file_paths),
            ),
            Mode::Insert => self.exec_insert(input, doc),
            _ => self.exec_edit(input, doc),
        }
    }

    /// One Normal/Visual/Operator key.
    fn exec_edit(&self, input: Input, doc: &mut Document) -> (t: Transition)
        requires
            old(doc)@.wf(),
            !(self.mode is HomePage),
            !(self.mode is Insert),
            !(input.key is Null),
        ensures
            ({
                let (t2, d2) = edit_step(self.mode, self.pending, input, old(doc)@);
                t == t2 && final(doc)@ == d2
            }),
            final(doc)@.wf(),
    {
        let t0: Option<Transition> = match input.key {
            Key::Char(c) => {
                if c == 'h' {
                    doc.move_cursor(Motion::Back);
                    Option::None
                } else if c == 'j' {
                    doc.move_cursor(Motion::Down);
                    Option::None
                } else if c == 'k' {
                    doc.move_cursor(Motion::Up);
                    Option::None
                } else if c == 'l' {
                    doc.move_cursor(Motion::Forward);
                    Option::None
                } else if c == 'w' {
                    doc.move_cursor(Motion::WordForward);
                    Option::None
                } else if c == 'e' && !input.ctrl {
                    doc.move_cursor(Motion::WordEnd);
                    let in_op = match self.mode {
                        Mode::Operator(_) => true,
                        _ => false,
                    };
                    if in_op {
                        doc.move_cursor(Motion::Forward);
                    }
                    Option::None
                } else if c == 'b' && !input.ctrl {
                    doc.move_cursor(Motion::WordBack);
                    Option::None
                } else if c == '^' {
                    doc.move_cursor(Motion::Head);
                    Option::None
                } else if c == '$' {
                    doc.move_cursor(Motion::End);
                    Option::None
                } else if c == 'D' {
                    doc.delete_line_by_end();
                    return Transition::Mode(Mode::Normal);
                } else if c == 'C' {
                    doc.delete_line_by_end();
                    doc.cancel_selection();
                    return Transition::Mode(Mode::Insert);
                } else if c == 'p' {
                    doc.paste();
                    return Transition::Mode(Mode::Normal);
                } else if c == 'u' && !input.ctrl {
                    doc.undo();
                    return Transition::Mode(Mode::Normal);
                } else if c == 'r' && input.ctrl {
                    doc.redo();
                    return Transition::Mode(Mode::Normal);
                } else if c == 'x' {
                    doc.delete_next_char();
                    return Transition::Mode(Mode::Normal);
                } else if c == 'i' {
                    doc.cancel_selection();
                    return Transition::Mode(Mode::Insert);
                } else if c == 'a' {
                    doc.cancel_selection();
                    doc.move_cursor(Motion::Forward);
                    return Transition::Mode(Mode::Insert);
                } else if c == 'A' {
                    doc.cancel_selection();
                    doc.move_cursor(Motion::End);
                    return Transition::Mode(Mode::Insert);
                } else if c == 'o' && input.ctrl {
                    return Transition::CommandExec(Command::PreviousBuffer);
                } else if c == 'o' {
                    doc.move_cursor(Motion::End);
                    doc.insert_newline();
                    return Transition::Mode(Mode::Insert);
                } else if c == 'O' {
                    doc.move_cursor(Motion::Head);
                    doc.insert_newline();
                    doc.move_cursor(Motion::Up);
                    return Transition::Mode(Mode::Insert);
                } else if c == 'I' {
                    doc.cancel_selection();
                    doc.move_cursor(Motion::Head);
                    return Transition::Mode(Mode::Insert);
                } else if c == 'e' && input.ctrl {
                    doc.scroll_down(1);
                    Option::None
                } else if c == 'y' && input.ctrl {
                    doc.scroll_up(1);
                    Option::None
                } else if c == 'd' && input.ctrl {
                    let half = doc.view_rows / 2;
                    doc.scroll_down(half);
                    Option::None
                } else if c == 'u' && input.ctrl {
                    let half = doc.view_rows / 2;
                    doc.scroll_up(half);
                    Option::None
                } else if c == 'f' && input.ctrl {
                    let page = doc.view_rows;
                    doc.scroll_down(page);
                    Option::None
                } else if c == 'b' && input.ctrl {
                    let page = doc.view_rows;
                    doc.scroll_up(page);
                    Option::None
                } else if c == '/' {
                    return Transition::Search(Search::Open);
                } else if c == 'n' && !input.shift {
                    return Transition::Search(Search::Forward);
                } else if c == 'N' {
                    return Transition::Search(Search::Backward);
                } else if c == 'v' && !input.ctrl && self.mode == Mode::Normal {
                    doc.start_selection();
                    return Transition::Mode(Mode::Visual);
                } else if c == 'V' && !input.ctrl && self.mode == Mode::Normal {
                    doc.move_cursor(Motion::Head);
                    doc.start_selection();
                    doc.move_cursor(Motion::End);
                    return Transition::Mode(Mode::Visual);
                } else if c == 'v' && !input.ctrl && self.mode == Mode::Visual {
                    doc.cancel_selection();
                    return Transition::Mode(Mode::Normal);
                } else if c == 'g' && !input.ctrl && {
                    let pg = match self.pending.key {
                        Key::Char(pc) => pc == 'g',
                        _ => false,
                    };
                    pg && !self.pending.ctrl
                } {
                    doc.move_cursor(Motion::Top);
                    Option::None
                } else if c == 'G' && !input.ctrl {
                    doc.move_cursor(Motion::Bottom);
                    Option::None
                } else if !input.ctrl && self.mode == Mode::Operator(c) {
                    doc.move_cursor(Motion::Head);
                    doc.start_selection();
                    let (r0, c0) = doc.cursor();
                    doc.move_cursor(Motion::Down);
                    let (r1, c1) = doc.cursor();
                    if r0 == r1 && c0 == c1 {
                        doc.move_cursor(Motion::End);
                    }
                    Option::None
                } else if (c == 'y' || c == 'd' || c == 'c') && !input.ctrl && self.mode
                    == Mode::Normal {
                    doc.start_selection();
                    return Transition::Mode(Mode::Operator(c));
                } else if c == 'y' && !input.ctrl && self.mode == Mode::Visual {
                    doc.move_cursor(Motion::Forward);
                    doc.copy();
                    return Transition::Mode(Mode::Normal);
                } else if c == 'd' && !input.ctrl && self.mode == Mode::Visual {
                    doc.move_cursor(Motion::Forward);
                    doc.cut();
                    return Transition::Mode(Mode::Normal);
                } else if c == 'c' && !input.ctrl && self.mode == Mode::Visual {
                    doc.move_cursor(Motion::Forward);
                    doc.cut();
                    return Transition::Mode(Mode::Insert);
                } else if c == ':' && self.mode == Mode::Normal {
                    return Transition::CommandMode;
                } else {
                    return Transition::Pending(input);
                }
            },
            Key::Esc => {
                if self.mode == Mode::Visual {
                    doc.cancel_selection();
                    return Transition::Mode(Mode::Normal);
                } else {
                    return Transition::Pending(input);
                }
            },
            Key::Enter => {
                if self.mode == Mode::Normal {
                    return Transition::CommandExec(Command::FollowLink);
                } else {
                    return Transition::Pending(input);
                }
            },
            _ => {
                return Transition::Pending(input);
            },
        };
        match t0 {
            Option::Some(t) => t,
            Option::None => {
                match self.mode {
                    Mode::Operator(op) => {
                        if op == 'y' {
                            doc.copy();
                            Transition::Mode(Mode::Normal)
                        } else if op == 'd' {
                            doc.cut();
                            Transition::Mode(Mode::Normal)
                        } else if op == 'c' {
                            doc.cut();
                            Transition::Mode(Mode::Insert)
                        } else {
                            Transition::Nop
                        }
                    },
                    _ => Transition::Nop,
                }
            },
        }
    }

    /// One Insert-mode key.
    fn exec_insert(&self, input: Input, doc: &mut Document) -> (t: Transition)
        requires
            old(doc)@.wf(),
            !(input.key is Null),
        ensures
            ({
                let (t2, d2) = insert_step(input, old(doc)@);
                t == t2 && final(doc)@ == d2
            }),
            final(doc)@.wf(),
    {
        match input.key {
            Key::Esc => {
                if doc.col > 0 {
                    doc.move_cursor(Motion::Back);
                }
                Transition::Mode(Mode::Normal)
            },
            Key::Char(c) => {
                doc.insert_char(c);
                Transition::Mode(Mode::Insert)
            },
            Key::Enter => {
                doc.insert_newline();
                Transition::Mode(Mode::Insert)
            },
            Key::Backspace => {
                doc.delete_char();
                Transition::Mode(Mode::Insert)
            },
            Key::Delete => {
                doc.delete_next_char();
                Transition::Mode(Mode::Insert)
            },
            Key::Tab => {
                let n = 4 - (doc.col % 4);
                let mut spaces: Vec<char> = Vec::new();
                let mut k: usize = 0;
                while k < n
                    invariant
                        k <= n,
                        spaces@.len() == k,
                        forall|j: int| 0 <= j < k ==> spaces@[j] == ' ',
                    decreases n - k,
                {
                    spaces.push(' ');
                    k = k + 1;
                }
                proof {
                    assert(spaces@ =~= Seq::new((4 - old(doc)@.col % 4) as nat, |j: int| ' '));
                }
                doc.insert_str(&spaces);
                Transition::Mode(Mode::Insert)
            },
            Key::Up => {
                doc.move_cursor(Motion::Up);
                Transition::Mode(Mode::Insert)
            },
            Key::Down => {
                doc.move_cursor(Motion::Down);
                Transition::Mode(Mode::Insert)
            },
            Key::Left => {
                doc.move_cursor(Motion::Back);
                Transition::Mode(Mode::Insert)
            },
            Key::Right => {
                doc.move_cursor(Motion::Forward);
                Transition::Mode(Mode::Insert)
            },
            Key::Home => {
                doc.move_cursor(Motion::Head);
                Transition::Mode(Mode::Insert)
            },
            Key::End => {
                doc.move_cursor(Motion::End);
                Transition::Mode(Mode::Insert)
            },
            Key::PageUp => {
                let page = doc.view_rows;
                doc.scroll_up(page);
                Transition::Mode(Mode::Insert)
            },
            Key::PageDown => {
                let page = doc.view_rows;
                doc.scroll_down(page);
                Transition::Mode(Mode::Insert)
            },
            _ => Transition::Mode(Mode::Insert),
        }
    }

    /// One file-picker key.
    fn exec_homepage(&self, input: Input, doc: &mut Document, file_paths: &Vec<Vec<char>>) -> (r:
        InputResult)
        requires
            old(doc)@.wf(),
        ensures
            ({
                let (d2, h) = homepage_step(input, old(doc)@);
                final(doc)@ == d2 && home_result_matches(h, view_lines(file_paths@), r)
            }),
            final(doc)@.wf(),
    {
        match input.key {
            Key::Char(c) => {
                if c == 'h' {
                    doc.move_cursor(Motion::Back);
                    InputResult::Continue
                } else if c == 'j' {
                    doc.move_cursor(Motion::Down);
                    InputResult::Continue
                } else if c == 'k' {
                    doc.move_cursor(Motion::Up);
                    InputResult::Continue
                } else if c == 'l' {
                    doc.move_cursor(Motion::Forward);
                    InputResult::Continue
                } else if c == 'w' {
                    doc.move_cursor(Motion::WordForward);
                    InputResult::Continue
                } else if c == 'e' && !input.ctrl {
                    doc.move_cursor(Motion::WordEnd);
                    InputResult::Continue
                } else if c == 'b' && !input.ctrl {
                    doc.move_cursor(Motion::WordBack);
                    InputResult::Continue
                } else if c == ':' {
                    InputResult::Command
                } else if c == 'o' && input.ctrl {
                    InputResult::CommandExec(Command::PreviousBuffer)
                } else if c == '^' {
                    doc.move_cursor(Motion::Head);
                    InputResult::Continue
                } else if c == '$' {
                    doc.move_cursor(Motion::End);
                    InputResult::Continue
                } else if c == 'd' && input.ctrl {
                    let half = doc.view_rows / 2;
                    doc.scroll_down(half);
                    InputResult::Continue
                } else if c == 'u' && input.ctrl {
                    let half = doc.view_rows / 2;
                    doc.scroll_up(half);
                    InputResult::Continue
                } else if c == 'g' && !input.ctrl {
                    doc.move_cursor(Motion::Top);
                    InputResult::Continue
                } else if c == 'G' && !input.ctrl {
                    doc.move_cursor(Motion::Bottom);
                    InputResult::Continue
                } else if c == '/' {
                    InputResult::Search(Search::Open)
                } else if c == 'n' && !input.shift {
                    InputResult::Search(Search::Forward)
                } else if c == 'N' {
                    InputResult::Search(Search::Backward)
                } else {
                    InputResult::Continue
                }
            },
            Key::Enter => {
                let (row, _col) = doc.cursor();
                if row < file_paths.len() {
                    InputResult::File(crate::text::copy_line(&file_paths[row]))
                } else {
                    InputResult::Continue
                }
            },
            Key::Esc => InputResult::Quit,
            _ => InputResult::Continue,
        }
    }
}

} // verus!
