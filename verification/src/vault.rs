//! The session: the open tabs, the current-tab index, the modal interpreter
//! state, the registry of known note paths and the run flag. Every command is
//! executed here as a pure state change; what needs the outside world — a
//! file read or write, a dialog — is handed back to the host as a
//! [`HostAction`] and its result comes back through a dedicated method.

use vstd::prelude::*;

use crate::command::Command;
use crate::date::DateParts;
use crate::document::DocView;
use crate::document::spec_search_back;
use crate::document::spec_search_forward;
use crate::document::spec_insert_newline;
use crate::document::spec_insert_str;
use crate::editor::EdView;
use crate::editor::Editor;
use crate::editor::find_path;
use crate::editor::fresh_doc;
use crate::editor::norm_lines;
use crate::input::Input;
use crate::input::Key;
use crate::link::link_target;
use crate::text::line_clean;
use crate::text::lines_clean;
use crate::text::spec_serialize;
use crate::text::view_lines;
use crate::vim::Mode;
use crate::vim::Search;
use crate::vim::Transition;
use crate::vim::Vim;
use crate::vim::step;

verus! {

/// The mathematical model of a [`Vault`].
#[verifier::ext_equal]
pub ghost struct VaultView {
    /// The open tabs.
    pub tabs: Seq<EdView>,
    /// The index of the focused tab.
    pub current_tab: int,
    /// The modal interpreter state.
    pub vim: Vim,
    /// The registry of known note paths.
    pub file_paths: Seq<Seq<char>>,
    /// Whether the session keeps running.
    pub run: bool,
}

/// One running session.
pub struct Vault {
    /// The open tabs.
    pub tabs: Vec<Editor>,
    /// The index of the focused tab.
    pub current_tab: usize,
    /// The modal interpreter state.
    pub vim: Vim,
    /// The registry of known note paths.
    pub file_paths: Vec<Vec<char>>,
    /// Whether the session keeps running.
    pub run: bool,
}

/// The models of a list of tabs.
pub open spec fn tabs_view(ts: Seq<Editor>) -> Seq<EdView> {
    Seq::new(ts.len(), |i: int| ts[i]@)
}

impl View for Vault {
    type V = VaultView;

    open spec fn view(&self) -> VaultView {
        VaultView {
            tabs: tabs_view(self.tabs@),
            current_tab: self.current_tab as int,
            vim: self.vim,
            file_paths: view_lines(self.file_paths@),
            run: self.run,
        }
    }
}

impl VaultView {
    /// The focused tab.
    pub open spec fn cur_tab(self) -> EdView {
        self.tabs[self.current_tab]
    }

    /// The document being edited.
    pub open spec fn cur_doc(self) -> DocView {
        self.cur_tab().cur_doc()
    }

    /// Well-formedness: while the session runs a focused tab exists, every
    /// tab is well-formed, the registry paths are single-line, and the
    /// interpreter is in a document-editing mode.
    pub open spec fn wf(self) -> bool {
        &&& self.run ==> self.tabs.len() >= 1
        &&& self.tabs.len() >= 1 ==> 0 <= self.current_tab < self.tabs.len()
        &&& forall|i: int| 0 <= i < self.tabs.len() ==> (#[trigger] self.tabs[i]).wf()
        &&& lines_clean(self.file_paths)
        &&& !(self.vim.mode is HomePage)
    }

    /// This session with the edited document replaced.
    pub open spec fn with_cur_doc(self, d: DocView) -> VaultView {
        let tab = self.cur_tab();
        VaultView {
            tabs: self.tabs.update(
                self.current_tab,
                EdView { docs: tab.docs.update(tab.current, d), ..tab },
            ),
            ..self
        }
    }
}

/// What the host must do next.
pub enum HostAction {
    /// Nothing: read the next key.
    Idle,
    /// Write the content to the path, then report failure if any.
    SaveFile(Vec<char>, Vec<char>),
    /// Read the file at the path and hand its lines to
    /// [`Vault::finish_open`]; report failure if any.
    ReadFile(Vec<char>),
    /// Run the command-line dialog; hand the typed line to
    /// [`Vault::run_command_line`].
    CommandDialog,
    /// Run the search dialog; the payload is the pattern to restore when the
    /// dialog is dismissed.
    SearchDialog(Vec<char>),
    /// Run the new-note naming dialog.
    NewNoteDialog,
    /// Run the template picker dialog.
    TemplateDialog,
    /// Run the note-search dialog.
    SearchNoteDialog,
    /// Leave the session.
    Quit,
}

/// The model of a host action.
pub ghost enum ActKind {
    /// Nothing to do.
    Idle,
    /// Write this content to this path.
    SaveTo(Seq<char>, Seq<char>),
    /// Read this path.
    Read(Seq<char>),
    /// The command-line dialog.
    CommandDialog,
    /// The search dialog, with the pattern to restore on dismissal.
    SearchDialog(Seq<char>),
    /// The new-note naming dialog.
    NewNoteDialog,
    /// The template picker dialog.
    TemplateDialog,
    /// The note-search dialog.
    SearchNoteDialog,
    /// Leave the session.
    Quit,
}

/// Whether a host action reports the asked-for work.
pub open spec fn act_matches(k: ActKind, a: HostAction) -> bool {
    match k {
        ActKind::Idle => a is Idle,
        ActKind::SaveTo(p, c) => a matches HostAction::SaveFile(ap, ac) && ap@ == p && ac@ == c,
        ActKind::Read(p) => a matches HostAction::ReadFile(ap) && ap@ == p,
        ActKind::CommandDialog => a is CommandDialog,
        ActKind::SearchDialog(p) => a matches HostAction::SearchDialog(ap) && ap@ == p,
        ActKind::NewNoteDialog => a is NewNoteDialog,
        ActKind::TemplateDialog => a is TemplateDialog,
        ActKind::SearchNoteDialog => a is SearchNoteDialog,
        ActKind::Quit => a is Quit,
    }
}

/// A closed tab: the list without it, and the focus clamped.
pub open spec fn quit_effect(sv: VaultView) -> VaultView {
    let tabs2 = sv.tabs.remove(sv.current_tab);
    if tabs2.len() == 0 {
        VaultView { tabs: tabs2, run: false, ..sv }
    } else {
        let ct2 = if sv.current_tab >= tabs2.len() && sv.current_tab != 0 {
            sv.current_tab - 1
        } else {
            sv.current_tab
        };
        VaultView { tabs: tabs2, current_tab: ct2, ..sv }
    }
}

/// The freshly created scratch tab.
pub open spec fn fresh_tab() -> EdView {
    EdView {
        docs: seq![
            fresh_doc(seq!["Press ':' and type search to search for notes"@], None),
        ],
        current: 0,
    }
}

/// What saving the shown document asks of the host.
pub open spec fn save_act(sv: VaultView) -> ActKind {
    match sv.cur_doc().path {
        None => ActKind::Idle,
        Some(p) => ActKind::SaveTo(p, spec_serialize(sv.cur_doc().lines)),
    }
}

/// The session after one command, together with what the host must do:
/// `Quit`/`SaveQuit` close the tab and clamp the focus; `Save` hands the
/// serialized document to the host; `FollowLink` resolves the span under the
/// cursor and either switches to the loaded document or asks the host to
/// read it; the tab and buffer motions clamp at their ends; the dialog
/// commands ask the host to run the dialog; unrecognized input does nothing.
pub open spec fn cmd_effect(sv: VaultView, cmd: Command) -> (VaultView, ActKind) {
    match cmd {
        Command::Quit => (quit_effect(sv), ActKind::Idle),
        Command::Save => (sv, save_act(sv)),
        Command::SaveQuit => (quit_effect(sv), save_act(sv)),
        Command::NewNote => (sv, ActKind::NewNoteDialog),
        Command::FollowLink => {
            let d = sv.cur_doc();
            match link_target(d.cur_line(), d.col) {
                None => (sv, ActKind::Idle),
                Some(p) => {
                    match find_path(sv.cur_tab().docs, p, 0) {
                        Some(i) => (
                            VaultView {
                                tabs: sv.tabs.update(
                                    sv.current_tab,
                                    EdView { current: i, ..sv.cur_tab() },
                                ),
                                ..sv
                            },
                            ActKind::Idle,
                        ),
                        None => (sv, ActKind::Read(p)),
                    }
                },
            }
        },
        Command::InsertTemplate => (sv, ActKind::TemplateDialog),
        Command::NewTab => (
            VaultView {
                tabs: sv.tabs.push(fresh_tab()),
                current_tab: sv.current_tab + 1,
                ..sv
            },
            ActKind::Idle,
        ),
        Command::FocusTab(dir) => {
            let t = if dir == 0 {
                sv.current_tab - 1
            } else {
                sv.current_tab + 1
            };
            let ct2 = if t < 0 {
                0
            } else if t >= sv.tabs.len() {
                sv.tabs.len() - 1
            } else {
                t
            };
            (VaultView { current_tab: ct2, ..sv }, ActKind::Idle)
        },
        Command::NextBuffer => {
            let tab = sv.cur_tab();
            let cur2 = if tab.current != tab.docs.len() - 1 {
                tab.current + 1
            } else {
                tab.current
            };
            (
                VaultView {
                    tabs: sv.tabs.update(sv.current_tab, EdView { current: cur2, ..tab }),
                    ..sv
                },
                ActKind::Idle,
            )
        },
        Command::PreviousBuffer => {
            let tab = sv.cur_tab();
            let cur2 = if tab.current != 0 {
                tab.current - 1
            } else {
                0
            };
            (
                VaultView {
                    tabs: sv.tabs.update(sv.current_tab, EdView { current: cur2, ..tab }),
                    ..sv
                },
                ActKind::Idle,
            )
        },
        Command::SearchNote => (sv, ActKind::SearchNoteDialog),
        Command::Nothing => (sv, ActKind::Idle),
    }
}

/// The interpreter state after a transition: a mode change resets the
/// machine, an unconsumed key is stored as pending, entering the command
/// line returns to Normal, everything else leaves it alone.
pub open spec fn vim_after(v: Vim, t: Transition) -> Vim {
    match t {
        Transition::Mode(m) => if v.mode != m {
            Vim { mode: m, pending: Input { key: Key::Null, ctrl: false, alt: false, shift: false } }
        } else {
            v
        },
        Transition::Pending(i) => Vim { mode: v.mode, pending: i },
        Transition::CommandMode => Vim {
            mode: Mode::Normal,
            pending: Input { key: Key::Null, ctrl: false, alt: false, shift: false },
        },
        _ => v,
    }
}

/// The session and host action one interpreted key leads to, given the
/// transition and the document the interpreter left behind.
pub open spec fn apply_transition(sv: VaultView, t: Transition, d1: DocView) -> (
    VaultView,
    ActKind,
) {
    let sv1 = VaultView { vim: vim_after(sv.vim, t), ..sv.with_cur_doc(d1) };
    match t {
        Transition::CommandMode => (sv1, ActKind::CommandDialog),
        Transition::CommandExec(cmd) => cmd_effect(sv1, cmd),
        Transition::Search(s) => {
            match s {
                Search::Open => (sv1, ActKind::SearchDialog(d1.pattern)),
                Search::Forward => (
                    sv1.with_cur_doc(spec_search_forward(d1, false)),
                    ActKind::Idle,
                ),
                Search::Backward => (sv1.with_cur_doc(spec_search_back(d1, false)), ActKind::Idle),
            }
        },
        _ => (sv1, ActKind::Idle),
    }
}

/// No edit operation changes which file backs the document.
#[verifier::rlimit(100)]
#[verifier::spinoff_prover]
proof fn lemma_phase1_keeps_path(m: Mode, pending: Input, i: Input, d: DocView)
    ensures
        crate::vim::edit_phase1(m, pending, i, d).1.path == d.path,
        crate::vim::edit_phase1(m, pending, i, d).1.view_rows == d.view_rows,
{
    broadcast use crate::document::lemma_move_frame;
    broadcast use crate::document::lemma_delete_sel_frame;
    broadcast use crate::document::lemma_copy_frame;
    broadcast use crate::document::lemma_cut_frame;
    broadcast use crate::document::lemma_paste_frame;
    broadcast use crate::document::lemma_insert_newline_frame;
    broadcast use crate::document::lemma_undo_frame;
    broadcast use crate::document::lemma_redo_frame;
    broadcast use crate::document::lemma_scroll_frame;
    broadcast use crate::document::lemma_delete_next_char_frame;
    broadcast use crate::document::lemma_delete_line_by_end_frame;
}

/// Firing an operator keeps the backing file.
proof fn lemma_fire_keeps_path(m: Mode, d: DocView)
    ensures
        crate::vim::fire_op(m, d).1.path == d.path,
        crate::vim::fire_op(m, d).1.view_rows == d.view_rows,
{
    broadcast use crate::document::lemma_copy_frame;
    broadcast use crate::document::lemma_cut_frame;
}

/// An Insert-mode key keeps the backing file.
#[verifier::rlimit(100)]
#[verifier::spinoff_prover]
proof fn lemma_insert_keeps_path(i: Input, d: DocView)
    ensures
        crate::vim::insert_step(i, d).1.path == d.path,
        crate::vim::insert_step(i, d).1.view_rows == d.view_rows,
{
    broadcast use crate::document::lemma_move_frame;
    broadcast use crate::document::lemma_insert_char_frame;
    broadcast use crate::document::lemma_insert_newline_frame;
    broadcast use crate::document::lemma_delete_char_frame;
    broadcast use crate::document::lemma_delete_next_char_frame;
    broadcast use crate::document::lemma_insert_str_frame;
    broadcast use crate::document::lemma_scroll_frame;
}

/// A step of the interpreter never changes which file backs the document.
pub proof fn lemma_step_keeps_path(m: Mode, pending: Input, i: Input, d: DocView)
    ensures
        step(m, pending, i, d).1.path == d.path,
        step(m, pending, i, d).1.view_rows == d.view_rows,
{
    match m {
        Mode::Insert => {
            lemma_insert_keeps_path(i, d);
        },
        _ => {
            lemma_phase1_keeps_path(m, pending, i, d);
            lemma_fire_keeps_path(m, crate::vim::edit_phase1(m, pending, i, d).1);
        },
    }
}

impl Editor {
    /// Interpret one key against the shown document.
    pub fn apply_key(&mut self, vim: &Vim, input: Input, files: &Vec<Vec<char>>) -> (t: Transition)
        requires
            old(self)@.wf(),
            !(vim.mode is HomePage),
        ensures
            ({
                let d0 = old(self)@.cur_doc();
                let (t2, d2) = if input.key is Null {
                    (Transition::Nop, d0)
                } else {
                    step(vim.mode, vim.pending, input, d0)
                };
                t == t2 && final(self)@ == (EdView {
                    docs: old(self)@.docs.update(old(self)@.current, d2),
                    ..old(self)@
                })
            }),
            final(self)@.wf(),
    {
        let ghost e0 = self@;
        let cur = self.current;
        let t = {
            let doc = &mut self.docs[cur];
            vim.exec(input, doc, files)
        };
        proof {
            assert(self@ =~~= (EdView {
                docs: e0.docs.update(e0.current, self@.docs[e0.current]),
                ..e0
            }));
            if !(input.key is Null) {
                lemma_step_keeps_path(vim.mode, vim.pending, input, e0.cur_doc());
            }
            assert forall|i2: int, j2: int|
                #![trigger self@.docs[i2], self@.docs[j2]]
                0 <= i2 < j2 < self@.docs.len() && self@.docs[i2].path is Some implies self@.docs[i2].path
                != self@.docs[j2].path by {
                assert(e0.docs[i2].path == self@.docs[i2].path);
                assert(e0.docs[j2].path == self@.docs[j2].path);
            }
        }
        t
    }
}

/// The interpreter never switches a document-editing session into the
/// file-picker mode.
#[verifier::rlimit(100)]
#[verifier::spinoff_prover]
pub proof fn lemma_step_stays_editing(m: Mode, pending: Input, i: Input, d: DocView)
    ensures
        match step(m, pending, i, d).0 {
            Transition::Mode(m2) => !(m2 is HomePage),
            _ => true,
        },
{
}

impl Vault {
    /// A session over the given registry: one tab holding the scratch
    /// introduction buffer, Normal mode, running.
    pub fn new(file_paths: Vec<Vec<char>>) -> (v: Vault)
        requires
            lines_clean(view_lines(file_paths@)),
        ensures
            v@.wf(),
            v@.run,
            v@.tabs == seq![fresh_tab()],
            v@.current_tab == 0,
            v@.vim.mode == Mode::Normal,
            v@.vim.pending == (Input { key: Key::Null, ctrl: false, alt: false, shift: false }),
            v@.file_paths == view_lines(file_paths@),
    {
        let mut tabs: Vec<Editor> = Vec::new();
        tabs.push(Editor::new());
        let v = Vault {
            tabs,
            current_tab: 0,
            vim: Vim::new(Mode::Normal),
            file_paths,
            run: true,
        };
        proof {
            assert(v@.tabs[0] =~~= fresh_tab());
            assert(v@.tabs =~~= seq![fresh_tab()]);
        }
        v
    }

    /// Close the focused tab and clamp the focus; the session ends with the
    /// last tab.
    fn quit_tab(&mut self)
        requires
            old(self)@.wf(),
            old(self)@.tabs.len() >= 1,
        ensures
            final(self)@ == quit_effect(old(self)@),
            final(self)@.wf(),
    {
        let ghost sv0 = self@;
        let _ = self.tabs.remove(self.current_tab);
        if self.tabs.len() == 0 {
            self.run = false;
        } else {
            if self.current_tab >= self.tabs.len() && self.current_tab != 0 {
                self.current_tab = self.current_tab - 1;
            }
        }
        proof {
            assert(tabs_view(self.tabs@) =~~= sv0.tabs.remove(sv0.current_tab));
            assert(self@ =~~= quit_effect(sv0));
            assert forall|k: int| 0 <= k < self@.tabs.len() implies (
            #[trigger] self@.tabs[k]).wf() by {
                if k < sv0.current_tab {
                    assert(self@.tabs[k] == sv0.tabs[k]);
                } else {
                    assert(self@.tabs[k] == sv0.tabs[k + 1]);
                }
            }
        }
    }

    /// Execute one command against the session; what needs the outside world
    /// comes back as the host's work.
    pub fn exec_command(&mut self, command: Command) -> (a: HostAction)
        requires
            old(self)@.wf(),
            old(self)@.tabs.len() >= 1,
        ensures
            ({
                let (sv2, k) = cmd_effect(old(self)@, command);
                final(self)@ == sv2 && act_matches(k, a)
            }),
            final(self)@.wf(),
    {
        let ghost sv0 = self@;
        let ct = self.current_tab;
        match command {
            Command::Quit => {
                self.quit_tab();
                HostAction::Idle
            },
            Command::Save => {
                match self.tabs[ct].save() {
                    Option::None => HostAction::Idle,
                    Option::Some((p, c)) => HostAction::SaveFile(p, c),
                }
            },
            Command::SaveQuit => {
                let saved = self.tabs[ct].save();
                self.quit_tab();
                match saved {
                    Option::None => HostAction::Idle,
                    Option::Some((p, c)) => HostAction::SaveFile(p, c),
                }
            },
            Command::NewNote => HostAction::NewNoteDialog,
            Command::FollowLink => {
                let target = {
                    let tab = &self.tabs[ct];
                    let doc = tab.document();
                    let (row, col) = doc.cursor();
                    crate::link::link_target_at(doc.line_at(row), col)
                };
                match target {
                    Option::None => HostAction::Idle,
                    Option::Some(p) => {
                        if self.tabs[ct].switch_to_path(&p) {
                            proof {
                                assert(self@ =~~= cmd_effect(sv0, command).0);
                            }
                            HostAction::Idle
                        } else {
                            proof {
                                assert(self@ =~~= cmd_effect(sv0, command).0);
                            }
                            HostAction::ReadFile(p)
                        }
                    },
                }
            },
            Command::InsertTemplate => HostAction::TemplateDialog,
            Command::NewTab => {
                let len = self.tabs.len();
                proof {
                    assert(ct < len);
                }
                self.tabs.push(Editor::new());
                self.current_tab = ct + 1;
                proof {
                    assert(tabs_view(self.tabs@)[sv0.tabs.len() as int] =~~= fresh_tab());
                    assert(tabs_view(self.tabs@) =~~= sv0.tabs.push(fresh_tab()));
                    assert(self@ =~~= cmd_effect(sv0, command).0);
                }
                HostAction::Idle
            },
            Command::FocusTab(dir) => {
                let len = self.tabs.len();
                if dir == 0 {
                    if ct > 0 {
                        self.current_tab = ct - 1;
                    } else {
                        self.current_tab = 0;
                    }
                } else {
                    if ct + 1 >= len {
                        self.current_tab = len - 1;
                    } else {
                        self.current_tab = ct + 1;
                    }
                }
                proof {
                    assert(self@ =~~= cmd_effect(sv0, command).0);
                }
                HostAction::Idle
            },
            Command::NextBuffer => {
                self.tabs[ct].next_buffer();
                proof {
                    assert(self@ =~~= cmd_effect(sv0, command).0);
                }
                HostAction::Idle
            },
            Command::PreviousBuffer => {
                self.tabs[ct].previous_buffer();
                proof {
                    assert(self@ =~~= cmd_effect(sv0, command).0);
                }
                HostAction::Idle
            },
            Command::SearchNote => HostAction::SearchNoteDialog,
            Command::Nothing => HostAction::Idle,
        }
    }

    /// Interpret one key event against the edited document, update the
    /// interpreter state, and execute whatever the transition asks.
    #[verifier::rlimit(100)]
    #[verifier::spinoff_prover]
    pub fn input(&mut self, input: Input) -> (r: HostAction)
        requires
            old(self)@.wf(),
            old(self)@.run,
        ensures
            ({
                let d0 = old(self)@.cur_doc();
                let (t, d1) = if input.key is Null {
                    (Transition::Nop, d0)
                } else {
                    step(old(self)@.vim.mode, old(self)@.vim.pending, input, d0)
                };
                let (sv2, k) = apply_transition(old(self)@, t, d1);
                final(self)@ == sv2 && act_matches(k, r)
            }),
            final(self)@.wf(),
    {
        let ghost sv0 = self@;
        let ct = self.current_tab;
        let t = {
            let tab = &mut self.tabs[ct];
            tab.apply_key(&self.vim, input, &self.file_paths)
        };
        proof {
            let d1 = if input.key is Null {
                sv0.cur_doc()
            } else {
                step(sv0.vim.mode, sv0.vim.pending, input, sv0.cur_doc()).1
            };
            assert(self@ =~~= sv0.with_cur_doc(d1));
            if !(input.key is Null) {
                lemma_step_stays_editing(sv0.vim.mode, sv0.vim.pending, input, sv0.cur_doc());
            }
        }
        match t {
            Transition::Nop => {
                proof {
                    let d0 = sv0.cur_doc();
                    let (t2, d1) = if input.key is Null {
                        (Transition::Nop, d0)
                    } else {
                        step(sv0.vim.mode, sv0.vim.pending, input, d0)
                    };
                    let (sv2, k) = apply_transition(sv0, t2, d1);
                    assert(t2 is Nop);
                    assert(self@.vim == sv2.vim);
                    assert(self@.tabs =~~= sv2.tabs);
                    assert(self@ =~~= sv2);
                    assert(act_matches(k, HostAction::Idle));
                }
                HostAction::Idle
            },
            Transition::Mode(m) => {
                if self.vim.mode != m {
                    self.vim = Vim::new(m);
                }
                proof {
                    let d0 = sv0.cur_doc();
                    let (t2, d1) = if input.key is Null {
                        (Transition::Nop, d0)
                    } else {
                        step(sv0.vim.mode, sv0.vim.pending, input, d0)
                    };
                    assert(self@ =~~= apply_transition(sv0, t2, d1).0);
                }
                HostAction::Idle
            },
            Transition::Pending(i2) => {
                self.vim = self.vim.with_pending(i2);
                proof {
                    let d0 = sv0.cur_doc();
                    let (t2, d1) = if input.key is Null {
                        (Transition::Nop, d0)
                    } else {
                        step(sv0.vim.mode, sv0.vim.pending, input, d0)
                    };
                    assert(self@ =~~= apply_transition(sv0, t2, d1).0);
                }
                HostAction::Idle
            },
            Transition::CommandMode => {
                self.vim = Vim::new(Mode::Normal);
                proof {
                    let d0 = sv0.cur_doc();
                    let (t2, d1) = if input.key is Null {
                        (Transition::Nop, d0)
                    } else {
                        step(sv0.vim.mode, sv0.vim.pending, input, d0)
                    };
                    assert(self@ =~~= apply_transition(sv0, t2, d1).0);
                }
                HostAction::CommandDialog
            },
            Transition::CommandExec(cmd) => {
                proof {
                    let d0 = sv0.cur_doc();
                    let (t2, d1) = if input.key is Null {
                        (Transition::Nop, d0)
                    } else {
                        step(sv0.vim.mode, sv0.vim.pending, input, d0)
                    };
                    assert(self@ =~~= (VaultView {
                        vim: vim_after(sv0.vim, t2),
                        ..sv0.with_cur_doc(d1)
                    }));
                }
                self.exec_command(cmd)
            },
            Transition::Search(s) => {
                match s {
                    Search::Open => {
                        let pat = {
                            let tab = &self.tabs[ct];
                            let cur = tab.current;
                            crate::text::copy_line(&tab.docs[cur].pattern)
                        };
                        proof {
                            let d0 = sv0.cur_doc();
                            let (t2, d1) = if input.key is Null {
                                (Transition::Nop, d0)
                            } else {
                                step(sv0.vim.mode, sv0.vim.pending, input, d0)
                            };
                            assert(self@ =~~= apply_transition(sv0, t2, d1).0);
                            assert(self@.cur_doc() == d1);
                            assert(pat@ == self@.tabs[ct as int].docs[self@.tabs[
                                ct as int
                            ].current].pattern);
                            assert(pat@ == d1.pattern);
                        }
                        HostAction::SearchDialog(pat)
                    },
                    Search::Forward => {
                        let ghost svm = self@;
                        let tab = &mut self.tabs[ct];
                        let cur = tab.current;
                        let doc = &mut tab.docs[cur];
                        let _ = doc.search_forward(false);
                        proof {
                            let d0 = sv0.cur_doc();
                            let (t2, d1) = if input.key is Null {
                                (Transition::Nop, d0)
                            } else {
                                step(sv0.vim.mode, sv0.vim.pending, input, d0)
                            };
                            assert(self@ =~~= apply_transition(sv0, t2, d1).0);
                        }
                        HostAction::Idle
                    },
                    Search::Backward => {
                        let ghost svm = self@;
                        let tab = &mut self.tabs[ct];
                        let cur = tab.current;
                        let doc = &mut tab.docs[cur];
                        let _ = doc.search_back(false);
                        proof {
                            let d0 = sv0.cur_doc();
                            let (t2, d1) = if input.key is Null {
                                (Transition::Nop, d0)
                            } else {
                                step(sv0.vim.mode, sv0.vim.pending, input, d0)
                            };
                            assert(self@ =~~= apply_transition(sv0, t2, d1).0);
                        }
                        HostAction::Idle
                    },
                }
            },
            Transition::InputResult(_) => {
                proof {
                    let d0 = sv0.cur_doc();
                    let (t2, d1) = if input.key is Null {
                        (Transition::Nop, d0)
                    } else {
                        step(sv0.vim.mode, sv0.vim.pending, input, d0)
                    };
                    assert(self@ =~~= apply_transition(sv0, t2, d1).0);
                }
                HostAction::Idle
            },
        }
    }
}

// ---------------------------------------------------------------------------
// Template expansion
// ---------------------------------------------------------------------------

/// Every occurrence of `pat` replaced by `rep`, scanning left to right.
pub open spec fn replace_all(s: Seq<char>, pat: Seq<char>, rep: Seq<char>) -> Seq<char>
    decreases s.len(),
    via replace_all_decreases
{
    if pat.len() == 0 {
        s
    } else {
        match crate::document::first_match_from(s, pat, 0) {
            Some(i) => s.take(i) + rep + replace_all(s.skip(i + pat.len()), pat, rep),
            None => s,
        }
    }
}

#[via_fn]
proof fn replace_all_decreases(s: Seq<char>, pat: Seq<char>, rep: Seq<char>) {
    if pat.len() != 0 && crate::document::first_match_from(s, pat, 0) is Some {
        crate::document::lemma_first_match_bounds(s, pat, 0);
    }
}

/// Replacement with a clean pattern keeps a line clean.
pub proof fn lemma_replace_clean(s: Seq<char>, pat: Seq<char>, rep: Seq<char>)
    requires
        line_clean(s),
        line_clean(rep),
    ensures
        line_clean(replace_all(s, pat, rep)),
    decreases s.len(),
{
    if pat.len() != 0 {
        match crate::document::first_match_from(s, pat, 0) {
            Some(i) => {
                crate::document::lemma_first_match_bounds(s, pat, 0);
                crate::document::lemma_clean_take(s, i);
                crate::document::lemma_clean_skip(s, i + pat.len());
                lemma_replace_clean(s.skip(i + pat.len()), pat, rep);
                crate::document::lemma_clean_concat(s.take(i), rep);
                crate::document::lemma_clean_concat(
                    s.take(i) + rep,
                    replace_all(s.skip(i + pat.len()), pat, rep),
                );
            },
            None => {},
        }
    }
}

/// [`replace_all`], computed.
pub fn replace_all_chars(s: &Vec<char>, pat: &Vec<char>, rep: &Vec<char>) -> (r: Vec<char>)
    requires
        pat@.len() >= 1,
    ensures
        r@ == replace_all(s@, pat@, rep@),
{
    let mut out: Vec<char> = Vec::new();
    let mut rest: Vec<char> = crate::text::copy_line(s);
    proof {
        assert(out@ + replace_all(rest@, pat@, rep@) =~= replace_all(s@, pat@, rep@));
    }
    loop
        invariant
            pat@.len() >= 1,
            out@ + replace_all(rest@, pat@, rep@) == replace_all(s@, pat@, rep@),
        decreases rest@.len(),
    {
        let ghost out0 = out@;
        let ghost rest0 = rest@;
        match crate::document::find_from(&rest, pat, 0) {
            Option::Some(i) => {
                let head = crate::text::subvec(&rest, 0, i);
                let rest_len = rest.len();
                let new_rest = crate::text::subvec(&rest, i + pat.len(), rest_len);
                out = crate::text::concat_chars(&out, &head);
                out = crate::text::concat_chars(&out, rep);
                rest = new_rest;
                proof {
                    assert(rest0.take(i as int) =~= head@);
                    assert(rest@ =~= rest0.skip(i + pat@.len()));
                    assert(out@ =~= out0 + rest0.take(i as int) + rep@);
                    assert(out@ + replace_all(rest@, pat@, rep@) =~= out0 + replace_all(
                        rest0,
                        pat@,
                        rep@,
                    ));
                }
            },
            Option::None => {
                out = crate::text::concat_chars(&out, &rest);
                proof {
                    assert(out@ =~= out0 + replace_all(rest0, pat@, rep@));
                }
                return out;
            },
        }
    }
}

/// One template line expanded: `{{title}}` becomes the backing file's path
/// and a line holding a date span is formatted against the clock reading.
pub open spec fn expand_template_line(l: Seq<char>, title: Seq<char>, p: DateParts) -> Seq<char> {
    let l1 = if crate::document::first_match_from(l, "{{title}}"@, 0) is Some {
        replace_all(l, "{{title}}"@, title)
    } else {
        l
    };
    if crate::document::first_match_from(l1, "{{date:"@, 0) is Some {
        crate::date::spec_format_line(l1, p)
    } else {
        l1
    }
}

/// [`expand_template_line`], computed.
fn expand_template_chars(l: &Vec<char>, title: &Vec<char>, p: DateParts) -> (r: Vec<char>)
    ensures
        r@ == expand_template_line(l@, title@, p),
{
    let tpat = crate::text::str_chars("{{title}}");
    let dpat = crate::text::str_chars("{{date:");
    proof {
        reveal_strlit("{{title}}");
        reveal_strlit("{{date:");
    }
    let l1 = if crate::document::find_from(l, &tpat, 0).is_some() {
        replace_all_chars(l, &tpat, title)
    } else {
        crate::text::copy_line(l)
    };
    if crate::document::find_from(&l1, &dpat, 0).is_some() {
        crate::date::format_line(&l1, p)
    } else {
        l1
    }
}

/// The document after appending each line followed by a line break.
pub open spec fn insert_all(d: DocView, ls: Seq<Seq<char>>, i: int) -> DocView
    decreases ls.len() - i,
{
    if i < 0 || i >= ls.len() {
        d
    } else {
        insert_all(spec_insert_newline(spec_insert_str(d, ls[i])), ls, i + 1)
    }
}

/// The expanded lines of a template.
pub open spec fn expanded_lines(tpl: Seq<Seq<char>>, title: Seq<char>, p: DateParts) -> Seq<
    Seq<char>,
> {
    Seq::new(tpl.len(), |k: int| expand_template_line(tpl[k], title, p))
}

impl Vault {
    /// Insert a template into the edited document: each line has `{{title}}`
    /// replaced by the document's backing path and its date spans rendered
    /// against the clock reading, and goes in followed by a line break.
    pub fn insert_template_lines(&mut self, template: &Vec<Vec<char>>, p: DateParts)
        requires
            old(self)@.wf(),
            old(self)@.tabs.len() >= 1,
            lines_clean(view_lines(template@)),
        ensures
            ({
                let title = match old(self)@.cur_doc().path {
                    Some(q) => q,
                    None => Seq::empty(),
                };
                final(self)@ == old(self)@.with_cur_doc(
                    insert_all(
                        old(self)@.cur_doc(),
                        expanded_lines(view_lines(template@), title, p),
                        0,
                    ),
                )
            }),
            final(self)@.wf(),
    {
        let ghost sv0 = self@;
        let ct = self.current_tab;
        let title: Vec<char> = {
            let tab = &self.tabs[ct];
            let cur = tab.current;
            match &tab.docs[cur].path {
                Option::Some(q) => crate::text::copy_line(q),
                Option::None => Vec::new(),
            }
        };
        let ghost titlev = title@;
        let ghost expanded = expanded_lines(view_lines(template@), titlev, p);
        proof {
            if sv0.cur_doc().path is None {
                assert(titlev =~= Seq::<char>::empty());
            }
        }
        let tab = &mut self.tabs[ct];
        let cur = tab.current;
        let doc = &mut tab.docs[cur];
        let ghost d0 = doc@;
        let mut i: usize = 0;
        while i < template.len()
            invariant
                i <= template@.len(),
                doc@.wf(),
                titlev == title@,
                line_clean(titlev),
                lines_clean(view_lines(template@)),
                expanded == expanded_lines(view_lines(template@), titlev, p),
                insert_all(doc@, expanded, i as int) == insert_all(d0, expanded, 0),
                doc@.path == d0.path,
            decreases template.len() - i,
        {
            let line = expand_template_chars(&template[i], &title, p);
            proof {
                assert(line@ == expanded[i as int]);
                assert(line_clean(template@[i as int]@));
                lemma_replace_clean(template@[i as int]@, "{{title}}"@, titlev);
                crate::date::lemma_format_clean(
                    replace_all(template@[i as int]@, "{{title}}"@, titlev),
                    p,
                );
                crate::date::lemma_format_clean(template@[i as int]@, p);
                assert(line_clean(line@));
                crate::document::lemma_insert_str_frame(doc@, line@);
                crate::document::lemma_insert_newline_frame(spec_insert_str(doc@, line@));
            }
            doc.insert_str(&line);
            doc.insert_newline();
            i = i + 1;
        }
        proof {
            assert(insert_all(doc@, expanded, template@.len() as int) == doc@);
            assert(self@ =~~= sv0.with_cur_doc(insert_all(d0, expanded, 0)));
        }
    }

    /// Hand back a file the host read for [`HostAction::ReadFile`]: the
    /// focused tab opens it, or switches to it if it was already loaded.
    pub fn finish_open(&mut self, path: Vec<char>, lines: Vec<Vec<char>>)
        requires
            old(self)@.wf(),
            old(self)@.tabs.len() >= 1,
            line_clean(path@),
            lines_clean(view_lines(lines@)),
        ensures
            ({
                let tab = old(self)@.cur_tab();
                match find_path(tab.docs, path@, 0) {
                    Some(i) => final(self)@ == (VaultView {
                        tabs: old(self)@.tabs.update(
                            old(self)@.current_tab,
                            EdView { current: i, ..tab },
                        ),
                        ..old(self)@
                    }),
                    None => final(self)@ == (VaultView {
                        tabs: old(self)@.tabs.update(
                            old(self)@.current_tab,
                            EdView {
                                docs: tab.docs.push(
                                    fresh_doc(norm_lines(view_lines(lines@)), Some(path@)),
                                ),
                                current: tab.docs.len() as int,
                            },
                        ),
                        ..old(self)@
                    }),
                }
            }),
            final(self)@.wf(),
    {
        let ghost sv0 = self@;
        let ct = self.current_tab;
        self.tabs[ct].open(path, lines);
        proof {
            let tab0 = sv0.cur_tab();
            match find_path(tab0.docs, path@, 0) {
                Some(i) => {
                    assert(self@ =~~= (VaultView {
                        tabs: sv0.tabs.update(ct as int, EdView { current: i, ..tab0 }),
                        ..sv0
                    }));
                },
                None => {
                    assert(self@ =~~= (VaultView {
                        tabs: sv0.tabs.update(
                            ct as int,
                            EdView {
                                docs: tab0.docs.push(
                                    fresh_doc(norm_lines(view_lines(lines@)), Some(path@)),
                                ),
                                current: tab0.docs.len() as int,
                            },
                        ),
                        ..sv0
                    }));
                },
            }
        }
    }

    /// Add a freshly created note to the registry.
    pub fn register_note(&mut self, path: Vec<char>)
        requires
            old(self)@.wf(),
            line_clean(path@),
        ensures
            final(self)@ == (VaultView {
                file_paths: old(self)@.file_paths.push(path@),
                ..old(self)@
            }),
            final(self)@.wf(),
    {
        let ghost sv0 = self@;
        self.file_paths.push(path);
        proof {
            assert(self@ =~~= (VaultView { file_paths: sv0.file_paths.push(
                view_lines(self.file_paths@).last(),
            ), ..sv0 }));
        }
    }

    /// Run the line typed into the command dialog.
    pub fn run_command_line(&mut self, line: &str) -> (a: HostAction)
        requires
            old(self)@.wf(),
            old(self)@.tabs.len() >= 1,
        ensures
            ({
                let (sv2, k) = cmd_effect(
                    old(self)@,
                    crate::command::spec_str_to_command(line@),
                );
                final(self)@ == sv2 && act_matches(k, a)
            }),
            final(self)@.wf(),
    {
        let cmd = Command::str_to_command(line);
        self.exec_command(cmd)
    }

    /// Set the search pattern from the dialog and jump to its first match at
    /// or after the cursor; reports whether one was found.
    pub fn set_pattern_and_search(&mut self, pat: Vec<char>) -> (found: bool)
        requires
            old(self)@.wf(),
            old(self)@.tabs.len() >= 1,
            line_clean(pat@),
        ensures
            ({
                let d1 = DocView { pattern: pat@, ..old(self)@.cur_doc() };
                final(self)@ == old(self)@.with_cur_doc(spec_search_forward(d1, true))
                    && found == (crate::document::spec_search_fwd_pos(d1, true) is Some)
            }),
            final(self)@.wf(),
    {
        let ghost sv0 = self@;
        let ct = self.current_tab;
        let tab = &mut self.tabs[ct];
        let cur = tab.current;
        let doc = &mut tab.docs[cur];
        doc.set_pattern(pat);
        let found = doc.search_forward(true);
        proof {
            assert(self@ =~~= sv0.with_cur_doc(
                spec_search_forward(DocView { pattern: doc@.pattern, ..sv0.cur_doc() }, true),
            ));
        }
        found
    }

    /// Restore the pattern the search dialog replaced, without moving.
    pub fn restore_pattern(&mut self, pat: Vec<char>)
        requires
            old(self)@.wf(),
            old(self)@.tabs.len() >= 1,
            line_clean(pat@),
        ensures
            final(self)@ == old(self)@.with_cur_doc(
                DocView { pattern: pat@, ..old(self)@.cur_doc() },
            ),
            final(self)@.wf(),
    {
        let ghost sv0 = self@;
        let ct = self.current_tab;
        let tab = &mut self.tabs[ct];
        let cur = tab.current;
        let doc = &mut tab.docs[cur];
        doc.set_pattern(pat);
        proof {
            assert(self@ =~~= sv0.with_cur_doc(DocView { pattern: doc@.pattern, ..sv0.cur_doc() }));
        }
    }

    /// Whether the current line has an open link span: the condition for the
    /// autocomplete dialog.
    pub fn autocomplete_open(&self) -> (r: bool)
        requires
            self@.wf(),
            self@.tabs.len() >= 1,
        ensures
            r == crate::link::spec_open_span(self@.cur_doc().cur_line()),
    {
        let tab = &self.tabs[self.current_tab];
        let doc = tab.document();
        let (row, _col) = doc.cursor();
        crate::link::has_open_span(doc.line_at(row))
    }

    /// The autocomplete query: the text of the current line after its `[[`.
    pub fn autocomplete_query(&self) -> (r: Option<Vec<char>>)
        requires
            self@.wf(),
            self@.tabs.len() >= 1,
        ensures
            ({
                let line = self@.cur_doc().cur_line();
                match crate::document::first_match_from(line, "[["@, 0) {
                    Some(s) => r matches Some(q) && q@ == line.skip(s + 2),
                    None => r is None,
                }
            }),
    {
        let tab = &self.tabs[self.current_tab];
        let doc = tab.document();
        let (row, _col) = doc.cursor();
        let line = doc.line_at(row);
        let pat = crate::text::str_chars("[[");
        proof {
            reveal_strlit("[[");
        }
        match crate::document::find_from(line, &pat, 0) {
            Option::Some(s) => {
                let line_len = line.len();
                Option::Some(crate::text::subvec(line, s + 2, line_len))
            },
            Option::None => Option::None,
        }
    }

    /// Rewrite the open link span of the current line with the accepted
    /// candidate.
    pub fn accept_autocomplete(&mut self, chosen: &Vec<char>)
        requires
            old(self)@.wf(),
            old(self)@.tabs.len() >= 1,
            line_clean(chosen@),
        ensures
            final(self)@ == old(self)@.with_cur_doc(
                crate::link::spec_accept(old(self)@.cur_doc(), chosen@),
            ),
            final(self)@.wf(),
    {
        let ghost sv0 = self@;
        let ct = self.current_tab;
        let tab = &mut self.tabs[ct];
        let cur = tab.current;
        let doc = &mut tab.docs[cur];
        crate::link::accept_autocomplete(doc, chosen);
        proof {
            assert(self@ =~~= sv0.with_cur_doc(crate::link::spec_accept(sv0.cur_doc(), chosen@)));
        }
    }
}

/// The file name of a fresh quick note: a compact timestamp, the typed name,
/// and the note extension.
pub fn new_note_name(name: &Vec<char>) -> (r: Vec<char>)
    requires
        line_clean(name@),
    ensures
        exists|p: DateParts|
            p.wf() && r@ == crate::date::spec_format_line("{{date:YMMDDHHmm-}}"@, p) + name@
                + ".md"@,
        line_clean(r@),
{
    let p = crate::date::local_now();
    let stamp = crate::date::format_line(&crate::text::str_chars("{{date:YMMDDHHmm-}}"), p);
    let ext = crate::text::str_chars(".md");
    let a = crate::text::concat_chars(&stamp, name);
    let r = crate::text::concat_chars(&a, &ext);
    proof {
        reveal_strlit("{{date:YMMDDHHmm-}}");
        reveal_strlit(".md");
        crate::date::lemma_format_clean("{{date:YMMDDHHmm-}}"@, p);
        assert(p.wf() && r@ == crate::date::spec_format_line("{{date:YMMDDHHmm-}}"@, p) + name@
            + ".md"@);
    }
    r
}

} // verus!
