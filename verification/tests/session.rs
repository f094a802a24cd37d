//! The session layer: tabs, buffers, commands, link following and the file
//! picker.

use vault_tui::command::Command;
use vault_tui::document::Motion;
use vault_tui::editor::Editor;
use vault_tui::homepage::{homepage_document, InputResult};
use vault_tui::input::{Input, Key};
use vault_tui::vault::{HostAction, Vault};
use vault_tui::vim::{Mode, Vim};

fn s2v(s: &str) -> Vec<char> {
    s.chars().collect()
}

fn v2s(v: &Vec<char>) -> String {
    v.iter().collect()
}

fn lines(ls: &[&str]) -> Vec<Vec<char>> {
    ls.iter().map(|l| s2v(l)).collect()
}

#[test]
fn reopening_a_loaded_path_switches_without_duplicating() {
    let mut ed = Editor::new();
    ed.open(s2v("a.md"), lines(&["alpha"]));
    assert_eq!(ed.current, 1);
    ed.open(s2v("b.md"), lines(&["beta"]));
    assert_eq!(ed.current, 2);
    assert_eq!(ed.docs.len(), 3);

    // edit a.md so it gains undo history
    {
        let doc = &mut ed.docs[1];
        doc.insert_char('!');
        assert_eq!(doc.undo.len(), 1);
    }

    // re-opening a.md switches back without a new document, and the history
    // of the existing document is untouched
    ed.open(s2v("a.md"), lines(&["stale copy"]));
    assert_eq!(ed.current, 1);
    assert_eq!(ed.docs.len(), 3);
    assert_eq!(v2s(&ed.docs[1].lines[0]), "!alpha");
    assert_eq!(ed.docs[1].undo.len(), 1);
}

#[test]
fn focus_tab_clamps_at_both_ends() {
    let mut vault = Vault::new(Vec::new());
    vault.exec_command(Command::NewTab);
    vault.exec_command(Command::NewTab);
    assert_eq!(vault.tabs.len(), 3);
    assert_eq!(vault.current_tab, 2);

    vault.exec_command(Command::FocusTab(1));
    assert_eq!(vault.current_tab, 2);
    vault.exec_command(Command::FocusTab(0));
    assert_eq!(vault.current_tab, 1);
    vault.exec_command(Command::FocusTab(0));
    assert_eq!(vault.current_tab, 0);
    vault.exec_command(Command::FocusTab(0));
    assert_eq!(vault.current_tab, 0);
    vault.exec_command(Command::FocusTab(1));
    assert_eq!(vault.current_tab, 1);
}

#[test]
fn buffer_switching_clamps() {
    let mut vault = Vault::new(Vec::new());
    vault.finish_open(s2v("a.md"), lines(&["a"]));
    vault.finish_open(s2v("b.md"), lines(&["b"]));
    assert_eq!(vault.tabs[0].current, 2);

    vault.exec_command(Command::NextBuffer);
    assert_eq!(vault.tabs[0].current, 2);
    vault.exec_command(Command::PreviousBuffer);
    assert_eq!(vault.tabs[0].current, 1);
    vault.exec_command(Command::PreviousBuffer);
    vault.exec_command(Command::PreviousBuffer);
    assert_eq!(vault.tabs[0].current, 0);
}

#[test]
fn quit_closes_tabs_and_ends_with_the_last() {
    let mut vault = Vault::new(Vec::new());
    vault.exec_command(Command::NewTab);
    assert!(vault.run);
    vault.exec_command(Command::Quit);
    assert!(vault.run);
    assert_eq!(vault.tabs.len(), 1);
    vault.exec_command(Command::Quit);
    assert!(!vault.run);
    assert_eq!(vault.tabs.len(), 0);
}

#[test]
fn save_hands_serialized_content_to_the_host() {
    let mut vault = Vault::new(Vec::new());
    // the scratch buffer has no backing path: saving asks nothing
    assert!(matches!(vault.exec_command(Command::Save), HostAction::Idle));

    vault.finish_open(s2v("note.md"), lines(&["one", "two"]));
    match vault.exec_command(Command::Save) {
        HostAction::SaveFile(p, c) => {
            assert_eq!(v2s(&p), "note.md");
            assert_eq!(v2s(&c), "one\ntwo\n");
        }
        _ => panic!("saving a backed document must write"),
    }
}

#[test]
fn follow_link_ignores_the_alias() {
    let mut vault = Vault::new(Vec::new());
    vault.finish_open(s2v("start.md"), lines(&["[[my-note|Shown Text]]"]));
    {
        let tab = &mut vault.tabs[0];
        let cur = tab.current;
        tab.docs[cur].move_cursor(Motion::Forward);
    }
    match vault.exec_command(Command::FollowLink) {
        HostAction::ReadFile(p) => assert_eq!(v2s(&p), "my-note.md"),
        _ => panic!("an unloaded link target must be read"),
    }

    // once my-note.md is open in the tab, following switches instead
    vault.finish_open(s2v("my-note.md"), lines(&["target"]));
    {
        let tab = &mut vault.tabs[0];
        tab.current = 1;
    }
    match vault.exec_command(Command::FollowLink) {
        HostAction::Idle => {}
        _ => panic!("a loaded link target must not be re-read"),
    }
    assert_eq!(vault.tabs[0].current, 2);
    assert_eq!(vault.tabs[0].docs.len(), 3);
}

#[test]
fn command_aliases_parse_case_sensitively() {
    assert_eq!(Command::str_to_command("q"), Command::Quit);
    assert_eq!(Command::str_to_command("quit"), Command::Quit);
    assert_eq!(Command::str_to_command("w"), Command::Save);
    assert_eq!(Command::str_to_command("write"), Command::Save);
    assert_eq!(Command::str_to_command("save"), Command::Save);
    assert_eq!(Command::str_to_command("wq"), Command::SaveQuit);
    assert_eq!(Command::str_to_command("nn"), Command::NewNote);
    assert_eq!(Command::str_to_command("new note"), Command::NewNote);
    assert_eq!(Command::str_to_command("fl"), Command::FollowLink);
    assert_eq!(Command::str_to_command("follow"), Command::FollowLink);
    assert_eq!(Command::str_to_command("follow link"), Command::FollowLink);
    assert_eq!(Command::str_to_command("itm"), Command::InsertTemplate);
    assert_eq!(
        Command::str_to_command("insert template"),
        Command::InsertTemplate
    );
    assert_eq!(Command::str_to_command("nt"), Command::NewTab);
    assert_eq!(Command::str_to_command("new tab"), Command::NewTab);
    assert_eq!(Command::str_to_command("nb"), Command::NextBuffer);
    assert_eq!(Command::str_to_command("next buffer"), Command::NextBuffer);
    assert_eq!(Command::str_to_command("pb"), Command::PreviousBuffer);
    assert_eq!(
        Command::str_to_command("previous buffer"),
        Command::PreviousBuffer
    );
    assert_eq!(
        Command::str_to_command("prev buffer"),
        Command::PreviousBuffer
    );
    assert_eq!(Command::str_to_command("sn"), Command::SearchNote);
    assert_eq!(Command::str_to_command("search"), Command::SearchNote);
    assert_eq!(Command::str_to_command("search note"), Command::SearchNote);
    assert_eq!(Command::str_to_command("Q"), Command::Nothing);
    assert_eq!(Command::str_to_command("unknown"), Command::Nothing);
    assert_eq!(Command::str_to_command(""), Command::Nothing);
}

#[test]
fn typed_command_line_runs() {
    let mut vault = Vault::new(Vec::new());
    assert!(matches!(
        vault.run_command_line("nt"),
        HostAction::Idle
    ));
    assert_eq!(vault.tabs.len(), 2);
    assert!(matches!(
        vault.run_command_line("gibberish"),
        HostAction::Idle
    ));
    assert_eq!(vault.tabs.len(), 2);
    assert!(matches!(
        vault.run_command_line("sn"),
        HostAction::SearchNoteDialog
    ));
}

#[test]
fn session_input_dispatches_transitions() {
    let mut vault = Vault::new(Vec::new());
    // ':' asks for the command dialog and resets the machine to Normal
    let a = vault.input(Input::plain(Key::Char(':')));
    assert!(matches!(a, HostAction::CommandDialog));
    assert!(matches!(vault.vim.mode, Mode::Normal));

    // 'i' switches the machine into Insert
    let a = vault.input(Input::plain(Key::Char('i')));
    assert!(matches!(a, HostAction::Idle));
    assert!(matches!(vault.vim.mode, Mode::Insert));

    // typed text lands in the scratch buffer
    vault.input(Input::plain(Key::Char('#')));
    let tab = &vault.tabs[0];
    assert_eq!(v2s(&tab.docs[0].lines[0]), "#Press ':' and type search to search for notes");
}

#[test]
fn search_dialog_sets_and_restores_the_pattern() {
    let mut vault = Vault::new(Vec::new());
    vault.finish_open(s2v("n.md"), lines(&["hello", "west world"]));

    let found = vault.set_pattern_and_search(s2v("wor"));
    assert!(found);
    {
        let tab = &vault.tabs[0];
        assert_eq!(tab.docs[tab.current].cursor(), (1, 5));
    }
    let found = vault.set_pattern_and_search(s2v("xyz"));
    assert!(!found);

    vault.restore_pattern(s2v("wor"));
    let tab = &vault.tabs[0];
    assert_eq!(v2s(&tab.docs[tab.current].pattern), "wor");
}

#[test]
fn picker_navigates_and_opens_the_row_under_the_cursor() {
    let files = lines(&["a.md", "b.md", "c.md"]);
    let mut doc = homepage_document(&files);
    let vim = Vim::new(Mode::HomePage);

    let t = vim.exec(Input::plain(Key::Char('j')), &mut doc, &files);
    match t {
        vault_tui::vim::Transition::InputResult(InputResult::Continue) => {}
        _ => panic!("a motion key continues the picker"),
    }
    let t = vim.exec(Input::plain(Key::Enter), &mut doc, &files);
    match t {
        vault_tui::vim::Transition::InputResult(InputResult::File(p)) => {
            assert_eq!(v2s(&p), "b.md")
        }
        _ => panic!("enter opens the file under the cursor"),
    }
    let t = vim.exec(Input::plain(Key::Esc), &mut doc, &files);
    match t {
        vault_tui::vim::Transition::InputResult(InputResult::Quit) => {}
        _ => panic!("escape leaves the session"),
    }
}

#[test]
fn registry_grows_with_new_notes() {
    let mut vault = Vault::new(lines(&["a.md"]));
    vault.register_note(s2v("b.md"));
    assert_eq!(vault.file_paths.len(), 2);
    assert_eq!(v2s(&vault.file_paths[1]), "b.md");
}

#[test]
fn closed_span_before_cursor_is_no_link() {
    let mut vault = Vault::new(Vec::new());
    vault.finish_open(s2v("start.md"), lines(&["]] stray [[x"]));
    {
        let tab = &mut vault.tabs[0];
        let cur = tab.current;
        tab.docs[cur].move_cursor(Motion::End);
    }
    // the line closes no span after its opener: following resolves nothing
    assert!(matches!(
        vault.exec_command(Command::FollowLink),
        HostAction::Idle
    ));
    assert_eq!(vault.tabs[0].docs.len(), 2);
}

#[test]
fn save_quit_saves_then_closes() {
    let mut vault = Vault::new(Vec::new());
    vault.finish_open(s2v("note.md"), lines(&["body"]));
    vault.exec_command(Command::NewTab);
    assert_eq!(vault.tabs.len(), 2);
    match vault.exec_command(Command::SaveQuit) {
        // the fresh tab's scratch buffer has no backing path
        HostAction::Idle => {}
        _ => panic!("a scratch buffer saves nothing"),
    }
    assert_eq!(vault.tabs.len(), 1);
    assert_eq!(vault.current_tab, 0);
}
