//! The modal machine driven key by key, checking the scenarios the editor
//! promises: the strict two-key go-to-top, the delete-line/paste round trip,
//! inclusive visual deletion, and leaving insert mode.

use vault_tui::document::{Document, Motion};
use vault_tui::input::{Input, Key};
use vault_tui::vim::{Mode, Transition, Vim};

fn s2v(s: &str) -> Vec<char> {
    s.chars().collect()
}

fn v2s(v: &Vec<char>) -> String {
    v.iter().collect()
}

fn doc_of(lines: &[&str]) -> Document {
    let ls: Vec<Vec<char>> = lines.iter().map(|l| s2v(l)).collect();
    Document::from_lines(ls, None)
}

fn ch(c: char) -> Input {
    Input::plain(Key::Char(c))
}

fn lines_of(doc: &Document) -> Vec<String> {
    doc.lines.iter().map(|l| v2s(l)).collect()
}

#[test]
fn two_key_top_moves_only_when_confirmed() {
    let files: Vec<Vec<char>> = Vec::new();
    let mut doc = doc_of(&["one", "two", "three"]);
    doc.move_cursor(Motion::Down);
    doc.move_cursor(Motion::Down);
    assert_eq!(doc.cursor(), (2, 0));

    // a single top-key press is not enough: it only becomes pending
    let vim = Vim::new(Mode::Normal);
    let t = vim.exec(ch('g'), &mut doc, &files);
    assert!(matches!(t, Transition::Pending(_)));
    assert_eq!(doc.cursor(), (2, 0));

    // the second press right after moves to the first row
    let vim = vim.with_pending(ch('g'));
    let t = vim.exec(ch('g'), &mut doc, &files);
    assert!(matches!(t, Transition::Nop));
    assert_eq!(doc.cursor(), (0, 0));
}

#[test]
fn delete_line_then_paste_restores_single_line() {
    let files: Vec<Vec<char>> = Vec::new();
    let mut doc = doc_of(&["only line"]);
    doc.move_cursor(Motion::Forward);
    doc.move_cursor(Motion::Forward);

    let vim = Vim::new(Mode::Normal);
    let t = vim.exec(ch('d'), &mut doc, &files);
    assert!(matches!(t, Transition::Mode(Mode::Operator('d'))));

    let vim = Vim::new(Mode::Operator('d'));
    let t = vim.exec(ch('d'), &mut doc, &files);
    assert!(matches!(t, Transition::Mode(Mode::Normal)));
    assert_eq!(lines_of(&doc), vec!["".to_string()]);

    let vim = Vim::new(Mode::Normal);
    let t = vim.exec(ch('p'), &mut doc, &files);
    assert!(matches!(t, Transition::Mode(Mode::Normal)));
    assert_eq!(lines_of(&doc), vec!["only line".to_string()]);
}

#[test]
fn visual_delete_is_inclusive() {
    let files: Vec<Vec<char>> = Vec::new();
    let mut doc = doc_of(&["abcdef"]);

    let vim = Vim::new(Mode::Normal);
    let t = vim.exec(ch('v'), &mut doc, &files);
    assert!(matches!(t, Transition::Mode(Mode::Visual)));

    let vim = Vim::new(Mode::Visual);
    vim.exec(ch('l'), &mut doc, &files);
    vim.exec(ch('l'), &mut doc, &files);
    assert_eq!(doc.cursor(), (0, 2));

    let t = vim.exec(ch('d'), &mut doc, &files);
    assert!(matches!(t, Transition::Mode(Mode::Normal)));
    assert_eq!(lines_of(&doc), vec!["def".to_string()]);
}

#[test]
fn insert_then_escape_rests_on_typed_character() {
    let files: Vec<Vec<char>> = Vec::new();
    let mut doc = doc_of(&[""]);

    let vim = Vim::new(Mode::Normal);
    let t = vim.exec(ch('i'), &mut doc, &files);
    assert!(matches!(t, Transition::Mode(Mode::Insert)));

    let vim = Vim::new(Mode::Insert);
    vim.exec(ch('x'), &mut doc, &files);
    assert_eq!(lines_of(&doc), vec!["x".to_string()]);
    assert_eq!(doc.cursor(), (0, 1));

    let t = vim.exec(Input::plain(Key::Esc), &mut doc, &files);
    assert!(matches!(t, Transition::Mode(Mode::Normal)));
    assert_eq!(lines_of(&doc), vec!["x".to_string()]);
    assert_eq!(doc.cursor(), (0, 0));
}

#[test]
fn yank_line_and_paste_duplicates() {
    let files: Vec<Vec<char>> = Vec::new();
    let mut doc = doc_of(&["abc", "def"]);

    let vim = Vim::new(Mode::Normal);
    vim.exec(ch('y'), &mut doc, &files);
    let vim = Vim::new(Mode::Operator('y'));
    vim.exec(ch('y'), &mut doc, &files);
    // the whole first line plus its break is yanked; the text is unchanged
    assert_eq!(lines_of(&doc), vec!["abc".to_string(), "def".to_string()]);

    let vim = Vim::new(Mode::Normal);
    vim.exec(ch('p'), &mut doc, &files);
    assert_eq!(
        lines_of(&doc),
        vec!["abc".to_string(), "abc".to_string(), "def".to_string()]
    );
}

#[test]
fn delete_char_under_cursor() {
    let files: Vec<Vec<char>> = Vec::new();
    let mut doc = doc_of(&["abc"]);
    doc.move_cursor(Motion::Forward);
    let vim = Vim::new(Mode::Normal);
    let t = vim.exec(ch('x'), &mut doc, &files);
    assert!(matches!(t, Transition::Mode(Mode::Normal)));
    assert_eq!(lines_of(&doc), vec!["ac".to_string()]);
}

#[test]
fn delete_to_line_end_and_change() {
    let files: Vec<Vec<char>> = Vec::new();
    let mut doc = doc_of(&["abcde"]);
    doc.move_cursor(Motion::Forward);
    doc.move_cursor(Motion::Forward);
    let vim = Vim::new(Mode::Normal);
    let t = vim.exec(ch('D'), &mut doc, &files);
    assert!(matches!(t, Transition::Mode(Mode::Normal)));
    assert_eq!(lines_of(&doc), vec!["ab".to_string()]);

    let t = vim.exec(ch('C'), &mut doc, &files);
    assert!(matches!(t, Transition::Mode(Mode::Insert)));
}

#[test]
fn undo_redo_round_trip() {
    let files: Vec<Vec<char>> = Vec::new();
    let mut doc = doc_of(&["one"]);
    let vim = Vim::new(Mode::Insert);
    vim.exec(ch('!'), &mut doc, &files);
    assert_eq!(lines_of(&doc), vec!["!one".to_string()]);

    let vim = Vim::new(Mode::Normal);
    vim.exec(ch('u'), &mut doc, &files);
    assert_eq!(lines_of(&doc), vec!["one".to_string()]);

    let mut redo_key = Input::plain(Key::Char('r'));
    redo_key.ctrl = true;
    vim.exec(redo_key, &mut doc, &files);
    assert_eq!(lines_of(&doc), vec!["!one".to_string()]);
}

#[test]
fn word_motions_step_over_words() {
    let files: Vec<Vec<char>> = Vec::new();
    let mut doc = doc_of(&["foo bar(baz)"]);
    let vim = Vim::new(Mode::Normal);
    vim.exec(ch('w'), &mut doc, &files);
    assert_eq!(doc.cursor(), (0, 4));
    vim.exec(ch('w'), &mut doc, &files);
    assert_eq!(doc.cursor(), (0, 7));
    vim.exec(ch('b'), &mut doc, &files);
    assert_eq!(doc.cursor(), (0, 4));
    vim.exec(ch('e'), &mut doc, &files);
    assert_eq!(doc.cursor(), (0, 6));
}

#[test]
fn open_line_below_and_above() {
    let files: Vec<Vec<char>> = Vec::new();
    let mut doc = doc_of(&["top", "bottom"]);
    let vim = Vim::new(Mode::Normal);
    let t = vim.exec(ch('o'), &mut doc, &files);
    assert!(matches!(t, Transition::Mode(Mode::Insert)));
    assert_eq!(
        lines_of(&doc),
        vec!["top".to_string(), "".to_string(), "bottom".to_string()]
    );
    assert_eq!(doc.cursor(), (1, 0));

    let mut doc = doc_of(&["top"]);
    let t = vim.exec(ch('O'), &mut doc, &files);
    assert!(matches!(t, Transition::Mode(Mode::Insert)));
    assert_eq!(lines_of(&doc), vec!["".to_string(), "top".to_string()]);
    assert_eq!(doc.cursor(), (0, 0));
}

#[test]
fn escape_in_visual_cancels_selection() {
    let files: Vec<Vec<char>> = Vec::new();
    let mut doc = doc_of(&["abc"]);
    let vim = Vim::new(Mode::Normal);
    vim.exec(ch('v'), &mut doc, &files);
    assert!(doc.anchor.is_some());
    let vim = Vim::new(Mode::Visual);
    let t = vim.exec(Input::plain(Key::Esc), &mut doc, &files);
    assert!(matches!(t, Transition::Mode(Mode::Normal)));
    assert!(doc.anchor.is_none());
}

#[test]
fn colon_and_enter_reach_the_session() {
    let files: Vec<Vec<char>> = Vec::new();
    let mut doc = doc_of(&["abc"]);
    let vim = Vim::new(Mode::Normal);
    assert!(matches!(
        vim.exec(ch(':'), &mut doc, &files),
        Transition::CommandMode
    ));
    assert!(matches!(
        vim.exec(Input::plain(Key::Enter), &mut doc, &files),
        Transition::CommandExec(vault_tui::command::Command::FollowLink)
    ));
    assert!(matches!(
        vim.exec(ch('/'), &mut doc, &files),
        Transition::Search(vault_tui::vim::Search::Open)
    ));
}

#[test]
fn idle_tick_does_nothing() {
    let files: Vec<Vec<char>> = Vec::new();
    let mut doc = doc_of(&["abc"]);
    let vim = Vim::new(Mode::Normal);
    let t = vim.exec(Input::default(), &mut doc, &files);
    assert!(matches!(t, Transition::Nop));
    assert_eq!(lines_of(&doc), vec!["abc".to_string()]);
    assert_eq!(doc.cursor(), (0, 0));
}

#[test]
fn delete_line_in_the_middle_selects_to_next_head() {
    let files: Vec<Vec<char>> = Vec::new();
    let mut doc = doc_of(&["one", "two", "three"]);
    doc.move_cursor(Motion::Down);

    let vim = Vim::new(Mode::Normal);
    vim.exec(ch('d'), &mut doc, &files);
    let vim = Vim::new(Mode::Operator('d'));
    vim.exec(ch('d'), &mut doc, &files);
    assert_eq!(lines_of(&doc), vec!["one".to_string(), "three".to_string()]);

    // pasting the yanked line and its break brings it back
    let vim = Vim::new(Mode::Normal);
    vim.exec(ch('p'), &mut doc, &files);
    assert_eq!(
        lines_of(&doc),
        vec!["one".to_string(), "two".to_string(), "three".to_string()]
    );
}

#[test]
fn visual_line_selects_the_whole_line() {
    let files: Vec<Vec<char>> = Vec::new();
    let mut doc = doc_of(&["alpha", "beta"]);
    doc.move_cursor(Motion::Forward);
    let vim = Vim::new(Mode::Normal);
    let t = vim.exec(ch('V'), &mut doc, &files);
    assert!(matches!(t, Transition::Mode(Mode::Visual)));
    let vim = Vim::new(Mode::Visual);
    vim.exec(ch('d'), &mut doc, &files);
    // the whole first line goes, inclusively past its end
    assert_eq!(lines_of(&doc), vec!["beta".to_string()]);
}

#[test]
fn change_in_visual_enters_insert_after_cutting() {
    let files: Vec<Vec<char>> = Vec::new();
    let mut doc = doc_of(&["abcdef"]);
    let vim = Vim::new(Mode::Normal);
    vim.exec(ch('v'), &mut doc, &files);
    let vim = Vim::new(Mode::Visual);
    vim.exec(ch('l'), &mut doc, &files);
    let t = vim.exec(ch('c'), &mut doc, &files);
    assert!(matches!(t, Transition::Mode(Mode::Insert)));
    assert_eq!(lines_of(&doc), vec!["cdef".to_string()]);
    assert_eq!(doc.cursor(), (0, 0));
}

#[test]
fn operator_with_word_motion_cuts_inclusively() {
    let files: Vec<Vec<char>> = Vec::new();
    let mut doc = doc_of(&["foo bar"]);
    let vim = Vim::new(Mode::Normal);
    vim.exec(ch('d'), &mut doc, &files);
    let vim = Vim::new(Mode::Operator('d'));
    // the word-end motion is made inclusive inside an operator
    vim.exec(ch('e'), &mut doc, &files);
    assert_eq!(lines_of(&doc), vec![" bar".to_string()]);
}

#[test]
fn backspace_at_line_head_joins_lines() {
    let files: Vec<Vec<char>> = Vec::new();
    let mut doc = doc_of(&["ab", "cd"]);
    doc.move_cursor(Motion::Down);
    let vim = Vim::new(Mode::Insert);
    vim.exec(Input::plain(Key::Backspace), &mut doc, &files);
    assert_eq!(lines_of(&doc), vec!["abcd".to_string()]);
    assert_eq!(doc.cursor(), (0, 2));
}

#[test]
fn enter_in_insert_splits_the_line() {
    let files: Vec<Vec<char>> = Vec::new();
    let mut doc = doc_of(&["abcd"]);
    doc.move_cursor(Motion::Forward);
    doc.move_cursor(Motion::Forward);
    let vim = Vim::new(Mode::Insert);
    vim.exec(Input::plain(Key::Enter), &mut doc, &files);
    assert_eq!(lines_of(&doc), vec!["ab".to_string(), "cd".to_string()]);
    assert_eq!(doc.cursor(), (1, 0));
}
