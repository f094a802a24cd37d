//! One editable text buffer: lines of characters, a cursor, an optional
//! selection anchor, a yank register, an undo/redo history of whole-buffer
//! snapshots, an optional backing path and a search pattern.
//!
//! Every mutation is specified as a function on the mathematical model
//! [`DocView`]; the executable methods promise to realise exactly that
//! function.

use vstd::prelude::*;

use crate::text::copy_line;
use crate::text::copy_lines;
use crate::text::line_clean;
use crate::text::lines_clean;
use crate::text::subvec;
use crate::text::view_lines;

verus! {

/// One undo/redo snapshot: the lines and the cursor as they were.
#[verifier::ext_equal]
pub ghost struct Snap {
    /// The buffer content of the snapshot.
    pub lines: Seq<Seq<char>>,
    /// Cursor row of the snapshot.
    pub row: int,
    /// Cursor column of the snapshot.
    pub col: int,
}

/// The mathematical model of a [`Document`].
#[verifier::ext_equal]
pub ghost struct DocView {
    /// The text, split into terminator-free lines; never empty.
    pub lines: Seq<Seq<char>>,
    /// Cursor row, `0 <= row < lines.len()`.
    pub row: int,
    /// Cursor column, `0 <= col <= lines[row].len()`.
    pub col: int,
    /// Selection anchor; its presence means a selection is active.
    pub anchor: Option<(int, int)>,
    /// The yank register: no entry means nothing was ever yanked, one entry
    /// is a single-line piece, more entries are a multi-line chunk.
    pub yank: Seq<Seq<char>>,
    /// Snapshots that `undo` restores, oldest first.
    pub undo: Seq<Snap>,
    /// Snapshots that `redo` restores, oldest first.
    pub redo: Seq<Snap>,
    /// The backing path; absent for a scratch buffer, which `save` skips.
    pub path: Option<Seq<char>>,
    /// The active search pattern; empty means no search is set.
    pub pattern: Seq<char>,
    /// Rows of the host's viewport, used by the page scroll motions.
    pub view_rows: int,
}

/// A snapshot is a valid buffer with a valid cursor.
pub open spec fn snap_wf(s: Snap) -> bool {
    &&& s.lines.len() >= 1
    &&& lines_clean(s.lines)
    &&& 0 <= s.row < s.lines.len()
    &&& 0 <= s.col <= s.lines[s.row].len()
}

impl DocView {
    /// The line under the cursor.
    pub open spec fn cur_line(self) -> Seq<char> {
        self.lines[self.row]
    }

    /// The snapshot of the current content and cursor.
    pub open spec fn snap(self) -> Snap {
        Snap { lines: self.lines, row: self.row, col: self.col }
    }

    /// Well-formedness: at least one clean line, cursor and anchor in range,
    /// history and register clean.
    pub open spec fn wf(self) -> bool {
        &&& self.lines.len() >= 1
        &&& lines_clean(self.lines)
        &&& 0 <= self.row < self.lines.len()
        &&& 0 <= self.col <= self.cur_line().len()
        &&& match self.anchor {
            Some((r, c)) => 0 <= r < self.lines.len() && 0 <= c <= self.lines[r].len(),
            None => true,
        }
        &&& lines_clean(self.yank)
        &&& match self.path {
            Some(p) => line_clean(p),
            None => true,
        }
        &&& forall|i: int| 0 <= i < self.undo.len() ==> snap_wf(#[trigger] self.undo[i])
        &&& forall|i: int| 0 <= i < self.redo.len() ==> snap_wf(#[trigger] self.redo[i])
        &&& line_clean(self.pattern)
    }
}

/// An undo/redo snapshot as stored.
pub struct Snapshot {
    /// The buffer content of the snapshot.
    pub lines: Vec<Vec<char>>,
    /// Cursor row of the snapshot.
    pub row: usize,
    /// Cursor column of the snapshot.
    pub col: usize,
}

impl View for Snapshot {
    type V = Snap;

    open spec fn view(&self) -> Snap {
        Snap { lines: view_lines(self.lines@), row: self.row as int, col: self.col as int }
    }
}

/// One editable text buffer.
pub struct Document {
    /// The text, split into lines; never empty.
    pub lines: Vec<Vec<char>>,
    /// Cursor row.
    pub row: usize,
    /// Cursor column.
    pub col: usize,
    /// Selection anchor, if a selection is active.
    pub anchor: Option<(usize, usize)>,
    /// The yank register.
    pub yank: Vec<Vec<char>>,
    /// Undo history, oldest first.
    pub undo: Vec<Snapshot>,
    /// Redo history, oldest first.
    pub redo: Vec<Snapshot>,
    /// The backing path; absent for a scratch buffer.
    pub path: Option<Vec<char>>,
    /// The active search pattern; empty means none.
    pub pattern: Vec<char>,
    /// Rows of the host's viewport, used by the page scroll motions.
    pub view_rows: usize,
}

/// The snapshots of a history stack.
pub open spec fn view_snaps(s: Seq<Snapshot>) -> Seq<Snap> {
    Seq::new(s.len(), |i: int| s[i]@)
}

/// The model of an optional cursor position.
pub open spec fn view_pos(p: Option<(usize, usize)>) -> Option<(int, int)> {
    match p {
        Some((r, c)) => Some((r as int, c as int)),
        None => None,
    }
}

/// The model of an optional path.
pub open spec fn view_path(p: Option<Vec<char>>) -> Option<Seq<char>> {
    match p {
        Some(v) => Some(v@),
        None => None,
    }
}

impl View for Document {
    type V = DocView;

    open spec fn view(&self) -> DocView {
        DocView {
            lines: view_lines(self.lines@),
            row: self.row as int,
            col: self.col as int,
            anchor: view_pos(self.anchor),
            yank: view_lines(self.yank@),
            undo: view_snaps(self.undo@),
            redo: view_snaps(self.redo@),
            path: view_path(self.path),
            pattern: self.pattern@,
            view_rows: self.view_rows as int,
        }
    }
}

// ---------------------------------------------------------------------------
// Word boundaries
// ---------------------------------------------------------------------------

/// Blank characters for the purpose of word motions (ASCII blanks).
pub open spec fn is_blank(c: char) -> bool {
    c == ' ' || c == '\t'
}

/// ASCII punctuation, its own word class.
pub open spec fn is_punct(c: char) -> bool {
    ||| 33 <= c as u32 <= 47
    ||| 58 <= c as u32 <= 64
    ||| 91 <= c as u32 <= 96
    ||| 123 <= c as u32 <= 126
}

/// The word class of a character: 0 blank, 1 punctuation, 2 anything else.
pub open spec fn ckind(c: char) -> int {
    if is_blank(c) {
        0
    } else if is_punct(c) {
        1
    } else {
        2
    }
}

/// The word class, computed.
pub fn char_kind(c: char) -> (k: u8)
    ensures
        k as int == ckind(c),
{
    if c == ' ' || c == '\t' {
        0
    } else {
        let u = c as u32;
        if (33 <= u && u <= 47) || (58 <= u && u <= 64) || (91 <= u && u <= 96) || (123 <= u && u
            <= 126) {
            1
        } else {
            2
        }
    }
}

/// Scan for the start of the next word: the first position at or after `col`
/// whose class differs from the class `prev` of the position before it and is
/// not blank.
pub open spec fn scan_word_start(l: Seq<char>, prev: int, col: int) -> Option<int>
    decreases l.len() - col,
{
    if col < 0 || col >= l.len() {
        None
    } else {
        let cur = ckind(l[col]);
        if cur != 0 && cur != prev {
            Some(col)
        } else {
            scan_word_start(l, cur, col + 1)
        }
    }
}

/// Where the next word starts, looking forward from `start`.
pub open spec fn spec_word_start_forward(l: Seq<char>, start: int) -> Option<int> {
    if start >= l.len() {
        None
    } else {
        scan_word_start(l, ckind(l[start]), start + 1)
    }
}

/// Scan for the inclusive end of a word: the last position of the word the
/// scan is inside of, where `prev` is the class at `col - 1`.
pub open spec fn scan_word_end(l: Seq<char>, prev: int, col: int) -> Option<int>
    decreases l.len() - col,
{
    if col >= l.len() {
        if prev != 0 {
            Some(col - 1)
        } else {
            None
        }
    } else {
        let cur = ckind(l[col]);
        if prev != 0 && cur != prev {
            Some(col - 1)
        } else {
            scan_word_end(l, cur, col + 1)
        }
    }
}

/// The inclusive end of the word at or after `start`.
pub open spec fn spec_word_end_forward(l: Seq<char>, start: int) -> Option<int> {
    if start >= l.len() {
        None
    } else {
        scan_word_end(l, ckind(l[start]), start + 1)
    }
}

/// Scan backward for the start of the word whose class at `pos` is `cur`.
pub open spec fn scan_word_back(l: Seq<char>, cur: int, pos: int) -> Option<int>
    decreases pos,
{
    if pos <= 0 {
        if cur != 0 {
            Some(0)
        } else {
            None
        }
    } else {
        let next = ckind(l[pos - 1]);
        if cur != 0 && next != cur {
            Some(pos)
        } else {
            scan_word_back(l, next, pos - 1)
        }
    }
}

/// Where the word before `start` starts, looking backward.
pub open spec fn spec_word_start_backward(l: Seq<char>, start: int) -> Option<int> {
    if start <= 0 || start > l.len() {
        None
    } else {
        scan_word_back(l, ckind(l[start - 1]), start - 1)
    }
}

/// Computes [`spec_word_start_forward`].
pub fn word_start_forward(l: &Vec<char>, start: usize) -> (r: Option<usize>)
    ensures
        match r {
            Some(c) => spec_word_start_forward(l@, start as int) == Some(c as int) && c < l@.len(),
            None => spec_word_start_forward(l@, start as int) is None,
        },
{
    if start >= l.len() {
        return None;
    }
    let mut prev = char_kind(l[start]);
    let mut col = start + 1;
    while col < l.len()
        invariant
            start < l@.len(),
            start + 1 <= col <= l@.len(),
            prev <= 2,
            spec_word_start_forward(l@, start as int) == scan_word_start(
                l@,
                prev as int,
                col as int,
            ),
        decreases l.len() - col,
    {
        let cur = char_kind(l[col]);
        if cur != 0 && cur != prev {
            return Some(col);
        }
        prev = cur;
        col = col + 1;
    }
    None
}

/// Computes [`spec_word_end_forward`].
pub fn word_end_forward(l: &Vec<char>, start: usize) -> (r: Option<usize>)
    ensures
        match r {
            Some(c) => spec_word_end_forward(l@, start as int) == Some(c as int) && c < l@.len(),
            None => spec_word_end_forward(l@, start as int) is None,
        },
{
    if start >= l.len() {
        return None;
    }
    let mut prev = char_kind(l[start]);
    let mut col = start + 1;
    while col < l.len()
        invariant
            start < l@.len(),
            start + 1 <= col <= l@.len(),
            prev <= 2,
            spec_word_end_forward(l@, start as int) == scan_word_end(l@, prev as int, col as int),
        decreases l.len() - col,
    {
        let cur = char_kind(l[col]);
        if prev != 0 && cur != prev {
            return Some(col - 1);
        }
        prev = cur;
        col = col + 1;
    }
    if prev != 0 {
        Some(l.len() - 1)
    } else {
        None
    }
}

/// Computes [`spec_word_start_backward`].
pub fn word_start_backward(l: &Vec<char>, start: usize) -> (r: Option<usize>)
    ensures
        match r {
            Some(c) => spec_word_start_backward(l@, start as int) == Some(c as int) && c
                < l@.len(),
            None => spec_word_start_backward(l@, start as int) is None,
        },
{
    if start == 0 || start > l.len() {
        return None;
    }
    let mut cur = char_kind(l[start - 1]);
    let mut pos = start - 1;
    while pos > 0
        invariant
            0 <= pos <= start - 1,
            start <= l@.len(),
            cur <= 2,
            pos < l@.len(),
            spec_word_start_backward(l@, start as int) == scan_word_back(
                l@,
                cur as int,
                pos as int,
            ),
        decreases pos,
    {
        let next = char_kind(l[pos - 1]);
        if cur != 0 && next != cur {
            return Some(pos);
        }
        cur = next;
        pos = pos - 1;
    }
    if cur != 0 {
        Some(0)
    } else {
        None
    }
}

// ---------------------------------------------------------------------------
// Motions
// ---------------------------------------------------------------------------

/// One cursor motion.
#[derive(Clone, Copy, Debug, PartialEq, Eq, Structural)]
pub enum Motion {
    /// One character back, wrapping to the previous line end.
    Back,
    /// One character forward, wrapping to the next line head.
    Forward,
    /// One row up, the column fitted to the new line.
    Up,
    /// One row down, the column fitted to the new line.
    Down,
    /// Head of the current line.
    Head,
    /// End of the current line.
    End,
    /// First row, the column fitted.
    Top,
    /// Last row, the column fitted.
    Bottom,
    /// Start of the next word, crossing to the next line head if none.
    WordForward,
    /// Inclusive end of the next word, scanning following lines if none.
    WordEnd,
    /// Start of the previous word, crossing to the previous line end.
    WordBack,
    /// Jump to the given row and column, both clamped into range.
    Jump(usize, usize),
}

/// A column fitted into a line.
pub open spec fn fit_col(c: int, l: Seq<char>) -> int {
    if c <= l.len() {
        c
    } else {
        l.len() as int
    }
}

/// The row holding the inclusive end of the next word, scanning from the row
/// after `row`; falls back to the end of the last line.
pub open spec fn word_end_rows(lines: Seq<Seq<char>>, row: int) -> (int, int)
    decreases lines.len() - row,
{
    if row < 0 || row >= lines.len() - 1 {
        (lines.len() - 1, lines[lines.len() - 1].len() as int)
    } else {
        match spec_word_end_forward(lines[row + 1], 0) {
            Some(c) => (row + 1, c),
            None => word_end_rows(lines, row + 1),
        }
    }
}

/// Where a motion puts the cursor; `None` leaves it in place.
pub open spec fn next_cursor(m: Motion, lines: Seq<Seq<char>>, row: int, col: int) -> Option<
    (int, int),
> {
    match m {
        Motion::Forward => if col >= lines[row].len() {
            if row + 1 < lines.len() {
                Some((row + 1, 0))
            } else {
                None
            }
        } else {
            Some((row, col + 1))
        },
        Motion::Back => if col == 0 {
            if row > 0 {
                Some((row - 1, lines[row - 1].len() as int))
            } else {
                None
            }
        } else {
            Some((row, col - 1))
        },
        Motion::Up => if row == 0 {
            None
        } else {
            Some((row - 1, fit_col(col, lines[row - 1])))
        },
        Motion::Down => if row + 1 >= lines.len() {
            None
        } else {
            Some((row + 1, fit_col(col, lines[row + 1])))
        },
        Motion::Head => Some((row, 0)),
        Motion::End => Some((row, lines[row].len() as int)),
        Motion::Top => Some((0, fit_col(col, lines[0]))),
        Motion::Bottom => Some(
            ((lines.len() - 1) as int, fit_col(col, lines[lines.len() - 1])),
        ),
        Motion::WordForward => match spec_word_start_forward(lines[row], col) {
            Some(c) => Some((row, c)),
            None => if row + 1 < lines.len() {
                Some((row + 1, 0))
            } else {
                Some((row, lines[row].len() as int))
            },
        },
        Motion::WordEnd => match spec_word_end_forward(lines[row], col + 1) {
            Some(c) => Some((row, c)),
            None => Some(word_end_rows(lines, row)),
        },
        Motion::WordBack => match spec_word_start_backward(lines[row], col) {
            Some(c) => Some((row, c)),
            None => if row > 0 {
                Some((row - 1, lines[row - 1].len() as int))
            } else {
                Some((row, 0))
            },
        },
        Motion::Jump(r, c) => {
            let r2 = if r < lines.len() {
                r as int
            } else {
                lines.len() - 1
            };
            Some((r2, fit_col(c as int, lines[r2])))
        },
    }
}

/// The document after a motion: the cursor moves, everything else stays.
pub open spec fn spec_move(d: DocView, m: Motion) -> DocView {
    match next_cursor(m, d.lines, d.row, d.col) {
        Some((r, c)) => DocView { row: r, col: c, ..d },
        None => d,
    }
}

/// Computes [`word_end_rows`].
fn word_end_rows_exec(lines: &Vec<Vec<char>>, row: usize) -> (r: (usize, usize))
    requires
        lines@.len() >= 1,
        row < lines@.len(),
    ensures
        word_end_rows(view_lines(lines@), row as int) == (r.0 as int, r.1 as int),
        r.0 < lines@.len(),
        r.1 <= view_lines(lines@)[r.0 as int].len(),
{
    let mut cur = row;
    loop
        invariant
            lines@.len() >= 1,
            cur < lines@.len(),
            word_end_rows(view_lines(lines@), row as int) == word_end_rows(
                view_lines(lines@),
                cur as int,
            ),
        decreases lines@.len() - cur,
    {
        if cur == lines.len() - 1 {
            return (cur, lines[cur].len());
        }
        cur = cur + 1;
        match word_end_forward(&lines[cur], 0) {
            Some(c2) => {
                return (cur, c2);
            },
            None => {},
        }
    }
}

impl Document {
    /// A buffer holding the given lines, cursor at the origin.
    pub fn from_lines(lines: Vec<Vec<char>>, path: Option<Vec<char>>) -> (d: Document)
        requires
            lines@.len() >= 1,
            lines_clean(view_lines(lines@)),
            match path {
                Option::Some(p) => line_clean(p@),
                Option::None => true,
            },
        ensures
            d@.wf(),
            d@.lines == view_lines(lines@),
            d@.row == 0,
            d@.col == 0,
            d@.anchor is None,
            d@.yank == Seq::<Seq<char>>::empty(),
            d@.undo == Seq::<Snap>::empty(),
            d@.redo == Seq::<Snap>::empty(),
            d@.path == view_path(path),
            d@.pattern == Seq::<char>::empty(),
            d@.view_rows == 24,
    {
        let d = Document {
            lines,
            row: 0,
            col: 0,
            anchor: None,
            yank: Vec::new(),
            undo: Vec::new(),
            redo: Vec::new(),
            path,
            pattern: Vec::new(),
            view_rows: 24,
        };
        proof {
            assert(d@.yank =~= Seq::<Seq<char>>::empty());
            assert(d@.undo =~= Seq::<Snap>::empty());
            assert(d@.redo =~= Seq::<Snap>::empty());
            assert(d@.pattern =~= Seq::<char>::empty());
        }
        d
    }

    /// A scratch buffer: one empty line, no path.
    pub fn empty() -> (d: Document)
        ensures
            d@.wf(),
            d@.lines == seq![Seq::<char>::empty()],
            d@.row == 0,
            d@.col == 0,
            d@.anchor is None,
            d@.yank == Seq::<Seq<char>>::empty(),
            d@.undo == Seq::<Snap>::empty(),
            d@.redo == Seq::<Snap>::empty(),
            d@.path is None,
            d@.pattern == Seq::<char>::empty(),
            d@.view_rows == 24,
    {
        let mut lines: Vec<Vec<char>> = Vec::new();
        lines.push(Vec::new());
        proof {
            assert(view_lines(lines@) =~= seq![Seq::<char>::empty()]);
        }
        Document::from_lines(lines, None)
    }

    /// Move the cursor by one motion. The text, the selection anchor and all
    /// registers stay as they were.
    pub fn move_cursor(&mut self, m: Motion)
        requires
            old(self)@.wf(),
        ensures
            final(self)@ == spec_move(old(self)@, m),
            final(self)@.wf(),
    {
        let ghost d0 = self@;
        let r = self.row;
        let c = self.col;
        let nlines = self.lines.len();
        match m {
            Motion::Forward => {
                if c >= self.lines[r].len() {
                    if r + 1 < nlines {
                        self.row = r + 1;
                        self.col = 0;
                    }
                } else {
                    self.col = c + 1;
                }
            },
            Motion::Back => {
                if c == 0 {
                    if r > 0 {
                        self.row = r - 1;
                        self.col = self.lines[r - 1].len();
                    }
                } else {
                    self.col = c - 1;
                }
            },
            Motion::Up => {
                if r > 0 {
                    self.row = r - 1;
                    let n = self.lines[r - 1].len();
                    if c > n {
                        self.col = n;
                    }
                }
            },
            Motion::Down => {
                if r + 1 < nlines {
                    self.row = r + 1;
                    let n = self.lines[r + 1].len();
                    if c > n {
                        self.col = n;
                    }
                }
            },
            Motion::Head => {
                self.col = 0;
            },
            Motion::End => {
                self.col = self.lines[r].len();
            },
            Motion::Top => {
                self.row = 0;
                let n = self.lines[0].len();
                if c > n {
                    self.col = n;
                }
            },
            Motion::Bottom => {
                self.row = nlines - 1;
                let n = self.lines[nlines - 1].len();
                if c > n {
                    self.col = n;
                }
            },
            Motion::WordForward => {
                match word_start_forward(&self.lines[r], c) {
                    Some(c2) => {
                        self.col = c2;
                    },
                    None => {
                        if r + 1 < nlines {
                            self.row = r + 1;
                            self.col = 0;
                        } else {
                            self.col = self.lines[r].len();
                        }
                    },
                }
            },
            Motion::WordEnd => {
                let we = if c >= self.lines[r].len() {
                    proof {
                        assert(spec_word_end_forward(self@.lines[r as int], c + 1) is None);
                    }
                    None
                } else {
                    word_end_forward(&self.lines[r], c + 1)
                };
                match we {
                    Some(c2) => {
                        self.col = c2;
                    },
                    None => {
                        let (r2, c2) = word_end_rows_exec(&self.lines, r);
                        self.row = r2;
                        self.col = c2;
                    },
                }
            },
            Motion::WordBack => {
                match word_start_backward(&self.lines[r], c) {
                    Some(c2) => {
                        self.col = c2;
                    },
                    None => {
                        if r > 0 {
                            self.row = r - 1;
                            self.col = self.lines[r - 1].len();
                        } else {
                            self.col = 0;
                        }
                    },
                }
            },
            Motion::Jump(jr, jc) => {
                let r2 = if jr < nlines {
                    jr
                } else {
                    nlines - 1
                };
                self.row = r2;
                let n = self.lines[r2].len();
                self.col = if jc < n {
                    jc
                } else {
                    n
                };
            },
        }
        proof {
            assert(self@ =~~= spec_move(d0, m));
        }
    }
}

// ---------------------------------------------------------------------------
// Edits
// ---------------------------------------------------------------------------

/// The active selection as an ordered, end-exclusive range, or `None` when no
/// anchor is set or the anchor coincides with the cursor.
pub open spec fn sel_range(d: DocView) -> Option<((int, int), (int, int))> {
    match d.anchor {
        None => None,
        Some((ar, ac)) => {
            if ar == d.row && ac == d.col {
                None
            } else if ar < d.row || (ar == d.row && ac < d.col) {
                Some(((ar, ac), (d.row, d.col)))
            } else {
                Some(((d.row, d.col), (ar, ac)))
            }
        },
    }
}

/// Whether a selection with extent is active.
pub open spec fn has_sel(d: DocView) -> bool {
    sel_range(d) is Some
}

/// The text of the range `[(sr, sc), (er, ec))`, one entry per touched line.
pub open spec fn extract_range(
    lines: Seq<Seq<char>>,
    sr: int,
    sc: int,
    er: int,
    ec: int,
) -> Seq<Seq<char>> {
    if sr == er {
        seq![lines[sr].subrange(sc, ec)]
    } else {
        seq![lines[sr].skip(sc)] + lines.subrange(sr + 1, er) + seq![lines[er].take(ec)]
    }
}

/// The lines with the range `[(sr, sc), (er, ec))` removed; the surviving
/// ends of the first and last touched lines merge into one line.
pub open spec fn remove_range(
    lines: Seq<Seq<char>>,
    sr: int,
    sc: int,
    er: int,
    ec: int,
) -> Seq<Seq<char>> {
    if sr == er {
        lines.update(sr, lines[sr].take(sc) + lines[sr].skip(ec))
    } else {
        lines.take(sr) + seq![lines[sr].take(sc) + lines[er].skip(ec)] + lines.skip(er + 1)
    }
}

/// The document after a text edit: new lines and cursor, the selection gone,
/// the old state pushed onto the undo history, the redo history cleared.
pub open spec fn with_edit(d: DocView, lines2: Seq<Seq<char>>, row2: int, col2: int) -> DocView {
    DocView {
        lines: lines2,
        row: row2,
        col: col2,
        anchor: None,
        undo: d.undo.push(d.snap()),
        redo: Seq::empty(),
        ..d
    }
}

/// The document after deleting the selection: without one only the anchor is
/// cleared; with one the range disappears, the cursor lands on its start and,
/// if asked, the removed text becomes the yank register.
pub open spec fn spec_delete_sel(d: DocView, should_yank: bool) -> DocView {
    match sel_range(d) {
        None => DocView { anchor: None, ..d },
        Some(((sr, sc), (er, ec))) => {
            let base = with_edit(d, remove_range(d.lines, sr, sc, er, ec), sr, sc);
            if should_yank {
                DocView { yank: extract_range(d.lines, sr, sc, er, ec), ..base }
            } else {
                base
            }
        },
    }
}

/// The document after `copy`: the selected text becomes the yank register and
/// the selection ends; nothing else changes. Without a selection only the
/// anchor is cleared.
pub open spec fn spec_copy(d: DocView) -> DocView {
    match sel_range(d) {
        None => DocView { anchor: None, ..d },
        Some(((sr, sc), (er, ec))) => DocView {
            anchor: None,
            yank: extract_range(d.lines, sr, sc, er, ec),
            ..d
        },
    }
}

/// The document after `cut`: the selection is deleted and yanked.
pub open spec fn spec_cut(d: DocView) -> DocView {
    spec_delete_sel(d, true)
}

/// The document after inserting a single-line piece at the cursor (no
/// selection active); an empty piece changes nothing.
pub open spec fn spec_insert_piece(d: DocView, s: Seq<char>) -> DocView {
    if s.len() == 0 {
        d
    } else {
        with_edit(
            d,
            d.lines.update(d.row, d.cur_line().take(d.col) + s + d.cur_line().skip(d.col)),
            d.row,
            d.col + s.len(),
        )
    }
}

/// The document after inserting a multi-line chunk at the cursor (no
/// selection active): the current line splits around the chunk and the cursor
/// lands at the end of its last line.
pub open spec fn spec_insert_chunk(d: DocView, chunk: Seq<Seq<char>>) -> DocView {
    let n = chunk.len() as int;
    let lines2 = d.lines.take(d.row) + seq![d.cur_line().take(d.col) + chunk[0]] + chunk.subrange(
        1,
        n - 1,
    ) + seq![chunk[n - 1] + d.cur_line().skip(d.col)] + d.lines.skip(d.row + 1);
    with_edit(d, lines2, d.row + n - 1, chunk[n - 1].len() as int)
}

/// The document after replacing the characters `[start, end)` of the current
/// line with the given text: one edit, the cursor at the end of the new text,
/// the yank register untouched.
pub open spec fn spec_replace_in_line(d: DocView, start: int, end: int, s: Seq<char>) -> DocView {
    with_edit(
        d,
        d.lines.update(d.row, d.cur_line().take(start) + s + d.cur_line().skip(end)),
        d.row,
        start + s.len(),
    )
}

/// The document after deleting any selection and then inserting the given
/// single-line text at the cursor.
pub open spec fn spec_insert_str(d: DocView, s: Seq<char>) -> DocView {
    spec_insert_piece(spec_delete_sel(d, false), s)
}

/// The document after `paste`: any selection is deleted, then the yank
/// register is inserted at the cursor — a piece inline, a chunk with its line
/// breaks. An empty register changes nothing.
pub open spec fn spec_paste(d: DocView) -> DocView {
    let d1 = spec_delete_sel(d, false);
    if d1.yank.len() == 0 {
        d1
    } else if d1.yank.len() == 1 {
        spec_insert_piece(d1, d1.yank[0])
    } else {
        spec_insert_chunk(d1, d1.yank)
    }
}

/// The document after inserting a newline at the cursor: the current line
/// splits and the cursor lands at the head of the new line.
pub open spec fn spec_insert_newline(d: DocView) -> DocView {
    let d1 = spec_delete_sel(d, false);
    let lines2 = d1.lines.take(d1.row) + seq![d1.cur_line().take(d1.col)] + seq![
        d1.cur_line().skip(d1.col),
    ] + d1.lines.skip(d1.row + 1);
    with_edit(d1, lines2, d1.row + 1, 0)
}

/// The document after inserting one character at the cursor; a line
/// terminator inserts a newline instead.
pub open spec fn spec_insert_char(d: DocView, c: char) -> DocView {
    if c == '\n' || c == '\r' {
        spec_insert_newline(d)
    } else {
        let d1 = spec_delete_sel(d, false);
        with_edit(
            d1,
            d1.lines.update(d1.row, d1.cur_line().take(d1.col) + seq![c] + d1.cur_line().skip(d1.col)),
            d1.row,
            d1.col + 1,
        )
    }
}

/// The document after joining the cursor line onto the previous one; at the
/// first row nothing changes. Used with no selection active.
pub open spec fn spec_delete_newline(d: DocView) -> DocView {
    if d.row == 0 {
        d
    } else {
        let lines2 = d.lines.take(d.row - 1) + seq![d.lines[d.row - 1] + d.lines[d.row]]
            + d.lines.skip(d.row + 1);
        with_edit(d, lines2, d.row - 1, d.lines[d.row - 1].len() as int)
    }
}

/// The document after deleting the character before the cursor; at a line
/// head the newline before the line goes instead. A selection is deleted in
/// its place.
pub open spec fn spec_delete_char(d: DocView) -> DocView {
    if has_sel(d) {
        spec_delete_sel(d, false)
    } else {
        let d1 = spec_delete_sel(d, false);
        if d1.col == 0 {
            spec_delete_newline(d1)
        } else {
            with_edit(
                d1,
                d1.lines.update(d1.row, d1.cur_line().take(d1.col - 1) + d1.cur_line().skip(d1.col)),
                d1.row,
                d1.col - 1,
            )
        }
    }
}

/// The document after deleting the character under the cursor; at a line end
/// the following line joins on instead, and at the very end of the buffer
/// nothing changes. A selection is deleted in its place.
pub open spec fn spec_delete_next_char(d: DocView) -> DocView {
    if has_sel(d) {
        spec_delete_sel(d, false)
    } else {
        let d1 = spec_delete_sel(d, false);
        if d1.col < d1.cur_line().len() {
            with_edit(
                d1,
                d1.lines.update(d1.row, d1.cur_line().take(d1.col) + d1.cur_line().skip(d1.col + 1)),
                d1.row,
                d1.col,
            )
        } else if d1.row + 1 < d1.lines.len() {
            let lines2 = d1.lines.take(d1.row) + seq![d1.lines[d1.row] + d1.lines[d1.row + 1]]
                + d1.lines.skip(d1.row + 2);
            with_edit(d1, lines2, d1.row, d1.col)
        } else {
            d1
        }
    }
}

/// The document after deleting from the cursor to the end of the line, the
/// removed piece yanked; at a line end the following line joins on instead
/// (not yanked). A selection is deleted in its place (not yanked).
pub open spec fn spec_delete_line_by_end(d: DocView) -> DocView {
    if has_sel(d) {
        spec_delete_sel(d, false)
    } else {
        let d1 = spec_delete_sel(d, false);
        if d1.col < d1.cur_line().len() {
            let base = with_edit(
                d1,
                d1.lines.update(d1.row, d1.cur_line().take(d1.col)),
                d1.row,
                d1.col,
            );
            DocView { yank: seq![d1.cur_line().skip(d1.col)], ..base }
        } else {
            spec_delete_next_char(d1)
        }
    }
}

/// The document after `undo`: the latest snapshot is restored and the
/// replaced state moves onto the redo history; with no history nothing
/// changes.
pub open spec fn spec_undo(d: DocView) -> DocView {
    if d.undo.len() == 0 {
        d
    } else {
        let s = d.undo.last();
        DocView {
            lines: s.lines,
            row: s.row,
            col: s.col,
            anchor: None,
            undo: d.undo.drop_last(),
            redo: d.redo.push(d.snap()),
            ..d
        }
    }
}

/// The document after `redo`: the latest redo snapshot is restored and the
/// replaced state moves back onto the undo history.
pub open spec fn spec_redo(d: DocView) -> DocView {
    if d.redo.len() == 0 {
        d
    } else {
        let s = d.redo.last();
        DocView {
            lines: s.lines,
            row: s.row,
            col: s.col,
            anchor: None,
            undo: d.undo.push(d.snap()),
            redo: d.redo.drop_last(),
            ..d
        }
    }
}

/// The document after scrolling down by `n` rows: the cursor row advances,
/// clamped to the last line, the column fitted.
pub open spec fn spec_scroll_down(d: DocView, n: int) -> DocView {
    let r2 = if d.row + n < d.lines.len() {
        d.row + n
    } else {
        d.lines.len() - 1
    };
    DocView { row: r2, col: fit_col(d.col, d.lines[r2]), ..d }
}

/// The document after scrolling up by `n` rows: the cursor row retreats,
/// clamped to the first line, the column fitted.
pub open spec fn spec_scroll_up(d: DocView, n: int) -> DocView {
    let r2 = if d.row >= n {
        d.row - n
    } else {
        0
    };
    DocView { row: r2, col: fit_col(d.col, d.lines[r2]), ..d }
}

/// Concatenation keeps lines clean.
pub proof fn lemma_clean_concat(a: Seq<char>, b: Seq<char>)
    requires
        line_clean(a),
        line_clean(b),
    ensures
        line_clean(a + b),
{
    assert forall|j: int| 0 <= j < (a + b).len() implies (a + b)[j] != '\n' by {
        if j < a.len() {
            assert((a + b)[j] == a[j]);
        } else {
            assert((a + b)[j] == b[j - a.len()]);
        }
    }
}

/// A subrange of a clean line is clean.
pub proof fn lemma_clean_sub(l: Seq<char>, i: int, j: int)
    requires
        line_clean(l),
        0 <= i <= j <= l.len(),
    ensures
        line_clean(l.subrange(i, j)),
{
    assert forall|k: int| 0 <= k < j - i implies l.subrange(i, j)[k] != '\n' by {
        assert(l.subrange(i, j)[k] == l[i + k]);
    }
}

/// A prefix of a clean line is clean.
pub proof fn lemma_clean_take(l: Seq<char>, n: int)
    requires
        line_clean(l),
        0 <= n <= l.len(),
    ensures
        line_clean(l.take(n)),
{
    lemma_clean_sub(l, 0, n);
    assert(l.take(n) =~= l.subrange(0, n));
}

/// A suffix of a clean line is clean.
pub proof fn lemma_clean_skip(l: Seq<char>, n: int)
    requires
        line_clean(l),
        0 <= n <= l.len(),
    ensures
        line_clean(l.skip(n)),
{
    lemma_clean_sub(l, n, l.len() as int);
    assert(l.skip(n) =~= l.subrange(n, l.len() as int));
}

/// Deleting the selection preserves well-formedness.
pub proof fn lemma_delete_sel_wf(d: DocView, y: bool)
    requires
        d.wf(),
    ensures
        spec_delete_sel(d, y).wf(),
        spec_delete_sel(d, y).lines.len() >= 1,
{
    match sel_range(d) {
        None => {},
        Some(((sr, sc), (er, ec))) => {
            let l2 = remove_range(d.lines, sr, sc, er, ec);
            let merged = d.lines[sr].take(sc) + d.lines[er].skip(ec);
            lemma_clean_take(d.lines[sr], sc);
            lemma_clean_skip(d.lines[er], ec);
            lemma_clean_concat(d.lines[sr].take(sc), d.lines[er].skip(ec));
            assert forall|ii: int| 0 <= ii < l2.len() implies line_clean(#[trigger] l2[ii]) by {
                if sr == er {
                    if ii != sr {
                        assert(l2[ii] == d.lines[ii]);
                    }
                } else {
                    if ii < sr {
                        assert(l2[ii] == d.lines[ii]);
                    } else if ii == sr {
                        assert(l2[ii] == merged);
                    } else {
                        assert(l2[ii] == d.lines[ii + er - sr]);
                    }
                }
            }
            if y {
                let ex = extract_range(d.lines, sr, sc, er, ec);
                if sr == er {
                    lemma_clean_sub(d.lines[sr], sc, ec);
                } else {
                    lemma_clean_skip(d.lines[sr], sc);
                    lemma_clean_take(d.lines[er], ec);
                }
                assert forall|ii: int| 0 <= ii < ex.len() implies line_clean(
                    #[trigger] ex[ii],
                ) by {
                    if sr != er {
                        if ii == 0 {
                            assert(ex[ii] == d.lines[sr].skip(sc));
                        } else if ii < ex.len() - 1 {
                            assert(ex[ii] == d.lines[sr + ii]);
                        } else {
                            assert(ex[ii] == d.lines[er].take(ec));
                        }
                    }
                }
            }
            let r = spec_delete_sel(d, y);
            assert forall|i: int| 0 <= i < r.undo.len() implies snap_wf(#[trigger] r.undo[i]) by {
                if i < d.undo.len() {
                    assert(r.undo[i] == d.undo[i]);
                } else {
                    assert(r.undo[i] == d.snap());
                }
            }
        },
    }
}

/// Motions touch only the cursor.
pub broadcast proof fn lemma_move_frame(d: DocView, m: Motion)
    ensures
        (#[trigger] spec_move(d, m)).path == d.path,
        spec_move(d, m).view_rows == d.view_rows,
{
}

/// Deleting the selection keeps the backing path and viewport.
pub broadcast proof fn lemma_delete_sel_frame(d: DocView, y: bool)
    ensures
        (#[trigger] spec_delete_sel(d, y)).path == d.path,
        spec_delete_sel(d, y).view_rows == d.view_rows,
{
}

/// Copying keeps the backing path and viewport.
pub broadcast proof fn lemma_copy_frame(d: DocView)
    ensures
        (#[trigger] spec_copy(d)).path == d.path,
        spec_copy(d).view_rows == d.view_rows,
{
}

/// Cutting keeps the backing path and viewport.
pub broadcast proof fn lemma_cut_frame(d: DocView)
    ensures
        (#[trigger] spec_cut(d)).path == d.path,
        spec_cut(d).view_rows == d.view_rows,
{
    lemma_delete_sel_frame(d, true);
}

/// Inserting a piece keeps the backing path and viewport.
pub broadcast proof fn lemma_insert_piece_frame(d: DocView, s: Seq<char>)
    ensures
        (#[trigger] spec_insert_piece(d, s)).path == d.path,
        spec_insert_piece(d, s).view_rows == d.view_rows,
{
}

/// Inserting a chunk keeps the backing path and viewport.
pub broadcast proof fn lemma_insert_chunk_frame(d: DocView, c: Seq<Seq<char>>)
    ensures
        (#[trigger] spec_insert_chunk(d, c)).path == d.path,
        spec_insert_chunk(d, c).view_rows == d.view_rows,
{
}

/// Inserting text keeps the backing path and viewport.
pub broadcast proof fn lemma_insert_str_frame(d: DocView, s: Seq<char>)
    ensures
        (#[trigger] spec_insert_str(d, s)).path == d.path,
        spec_insert_str(d, s).view_rows == d.view_rows,
{
    lemma_delete_sel_frame(d, false);
    lemma_insert_piece_frame(spec_delete_sel(d, false), s);
}

/// Pasting keeps the backing path and viewport.
pub broadcast proof fn lemma_paste_frame(d: DocView)
    ensures
        (#[trigger] spec_paste(d)).path == d.path,
        spec_paste(d).view_rows == d.view_rows,
{
    let d1 = spec_delete_sel(d, false);
    lemma_delete_sel_frame(d, false);
    lemma_insert_piece_frame(d1, d1.yank[0]);
    lemma_insert_chunk_frame(d1, d1.yank);
}

/// Splitting a line keeps the backing path and viewport.
pub broadcast proof fn lemma_insert_newline_frame(d: DocView)
    ensures
        (#[trigger] spec_insert_newline(d)).path == d.path,
        spec_insert_newline(d).view_rows == d.view_rows,
{
    lemma_delete_sel_frame(d, false);
}

/// Inserting a character keeps the backing path and viewport.
pub broadcast proof fn lemma_insert_char_frame(d: DocView, c: char)
    ensures
        (#[trigger] spec_insert_char(d, c)).path == d.path,
        spec_insert_char(d, c).view_rows == d.view_rows,
{
    lemma_insert_newline_frame(d);
    lemma_delete_sel_frame(d, false);
}

/// Joining lines keeps the backing path and viewport.
pub broadcast proof fn lemma_delete_newline_frame(d: DocView)
    ensures
        (#[trigger] spec_delete_newline(d)).path == d.path,
        spec_delete_newline(d).view_rows == d.view_rows,
{
}

/// Backspace keeps the backing path and viewport.
pub broadcast proof fn lemma_delete_char_frame(d: DocView)
    ensures
        (#[trigger] spec_delete_char(d)).path == d.path,
        spec_delete_char(d).view_rows == d.view_rows,
{
    lemma_delete_sel_frame(d, false);
    lemma_delete_newline_frame(spec_delete_sel(d, false));
}

/// Forward delete keeps the backing path and viewport.
pub broadcast proof fn lemma_delete_next_char_frame(d: DocView)
    ensures
        (#[trigger] spec_delete_next_char(d)).path == d.path,
        spec_delete_next_char(d).view_rows == d.view_rows,
{
    lemma_delete_sel_frame(d, false);
}

/// Deleting to the line end keeps the backing path and viewport.
pub broadcast proof fn lemma_delete_line_by_end_frame(d: DocView)
    ensures
        (#[trigger] spec_delete_line_by_end(d)).path == d.path,
        spec_delete_line_by_end(d).view_rows == d.view_rows,
{
    lemma_delete_sel_frame(d, false);
    lemma_delete_next_char_frame(spec_delete_sel(d, false));
}

/// Undo keeps the backing path and viewport.
pub broadcast proof fn lemma_undo_frame(d: DocView)
    ensures
        (#[trigger] spec_undo(d)).path == d.path,
        spec_undo(d).view_rows == d.view_rows,
{
}

/// Redo keeps the backing path and viewport.
pub broadcast proof fn lemma_redo_frame(d: DocView)
    ensures
        (#[trigger] spec_redo(d)).path == d.path,
        spec_redo(d).view_rows == d.view_rows,
{
}

/// Scrolling keeps the backing path and viewport.
pub broadcast proof fn lemma_scroll_frame(d: DocView, n: int)
    ensures
        (#[trigger] spec_scroll_down(d, n)).path == d.path,
        (#[trigger] spec_scroll_up(d, n)).path == d.path,
        spec_scroll_down(d, n).view_rows == d.view_rows,
        spec_scroll_up(d, n).view_rows == d.view_rows,
{
}

/// Searching keeps the backing path and viewport.
pub broadcast proof fn lemma_search_frame(d: DocView, mc: bool)
    ensures
        (#[trigger] spec_search_forward(d, mc)).path == d.path,
        (#[trigger] spec_search_back(d, mc)).path == d.path,
        spec_search_forward(d, mc).view_rows == d.view_rows,
        spec_search_back(d, mc).view_rows == d.view_rows,
{
}

/// Replace one line of a buffer.
fn set_line(lines: &mut Vec<Vec<char>>, i: usize, l: Vec<char>)
    requires
        i < old(lines)@.len(),
    ensures
        final(lines)@ == old(lines)@.update(i as int, l),
        view_lines(final(lines)@) == view_lines(old(lines)@).update(i as int, l@),
        final(lines)@.len() == old(lines)@.len(),
{
    let _ = lines.remove(i);
    lines.insert(i, l);
    proof {
        assert(lines@ =~= old(lines)@.update(i as int, l));
        assert(view_lines(lines@) =~~= view_lines(old(lines)@).update(i as int, l@));
    }
}

impl Document {
    /// Anchor a selection at the cursor.
    pub fn start_selection(&mut self)
        requires
            old(self)@.wf(),
        ensures
            final(self)@ == (DocView { anchor: Some((old(self)@.row, old(self)@.col)), ..old(self)@ }),
            final(self)@.wf(),
    {
        self.anchor = Some((self.row, self.col));
    }

    /// Drop any selection anchor.
    pub fn cancel_selection(&mut self)
        requires
            old(self)@.wf(),
        ensures
            final(self)@ == (DocView { anchor: None, ..old(self)@ }),
            final(self)@.wf(),
    {
        self.anchor = None;
    }

    /// Delete the selected range, if one is active; the removed text becomes
    /// the yank register when `should_yank` is set.
    pub fn delete_selection(&mut self, should_yank: bool) -> (did: bool)
        requires
            old(self)@.wf(),
        ensures
            final(self)@ == spec_delete_sel(old(self)@, should_yank),
            did == has_sel(old(self)@),
            final(self)@.wf(),
    {
        let ghost d0 = self@;
        let (ar, ac) = match self.anchor {
            None => {
                proof {
                    assert(self@ =~~= spec_delete_sel(d0, should_yank));
                }
                return false;
            },
            Some(p) => p,
        };
        self.anchor = None;
        let (sr, sc, er, ec) = if ar < self.row || (ar == self.row && ac < self.col) {
            (ar, ac, self.row, self.col)
        } else if self.row < ar || (self.row == ar && self.col < ac) {
            (self.row, self.col, ar, ac)
        } else {
            proof {
                assert(self@ =~~= spec_delete_sel(d0, should_yank));
            }
            return false;
        };
        let snap = Snapshot { lines: copy_lines(&self.lines), row: self.row, col: self.col };
        if sr == er {
            let line = &self.lines[sr];
            let head = subvec(line, 0, sc);
            let tail = subvec(line, ec, line.len());
            let merged = crate::text::concat_chars(&head, &tail);
            if should_yank {
                let removed = subvec(&self.lines[sr], sc, ec);
                let mut y: Vec<Vec<char>> = Vec::new();
                y.push(removed);
                self.yank = y;
                proof {
                    assert(view_lines(self.yank@) =~~= extract_range(d0.lines, sr as int, sc as int, er as int, ec as int));
                }
            }
            set_line(&mut self.lines, sr, merged);
        } else {
            let mut nl: Vec<Vec<char>> = Vec::new();
            let mut i: usize = 0;
            while i < sr
                invariant
                    i <= sr,
                    sr < self@.lines.len(),
                    self@.lines == d0.lines,
                    nl@.len() == i,
                    forall|k: int| 0 <= k < i ==> nl@[k]@ == d0.lines[k],
                decreases sr - i,
            {
                nl.push(copy_line(&self.lines[i]));
                i = i + 1;
            }
            let head = subvec(&self.lines[sr], 0, sc);
            let last_line = &self.lines[er];
            let tail = subvec(last_line, ec, last_line.len());
            nl.push(crate::text::concat_chars(&head, &tail));
            let nrows = self.lines.len();
            proof {
                assert(er < d0.lines.len());
                assert(er < nrows);
            }
            let mut i: usize = er + 1;
            while i < self.lines.len()
                invariant
                    er < i <= self@.lines.len(),
                    self@.lines == d0.lines,
                    sc <= d0.lines[sr as int].len(),
                    ec <= d0.lines[er as int].len(),
                    sr < er,
                    nl@.len() == sr + 1 + i - er - 1,
                    forall|k: int| 0 <= k < sr ==> nl@[k]@ == d0.lines[k],
                    nl@[sr as int]@ == d0.lines[sr as int].take(sc as int) + d0.lines[
                        er as int
                    ].skip(ec as int),
                    forall|k: int|
                        sr < k < nl@.len() ==> nl@[k]@ == d0.lines[k + er - sr],
                decreases self.lines.len() - i,
            {
                nl.push(copy_line(&self.lines[i]));
                i = i + 1;
            }
            if should_yank {
                let mut y: Vec<Vec<char>> = Vec::new();
                let first_line = &self.lines[sr];
                y.push(subvec(first_line, sc, first_line.len()));
                let mut i: usize = sr + 1;
                while i < er
                    invariant
                        sr < i <= er,
                        er < self@.lines.len(),
                        self@.lines == d0.lines,
                        sc <= d0.lines[sr as int].len(),
                        ec <= d0.lines[er as int].len(),
                        y@.len() == i - sr,
                        y@[0]@ == d0.lines[sr as int].skip(sc as int),
                        forall|k: int| 1 <= k < y@.len() ==> y@[k]@ == d0.lines[k + sr],
                    decreases er - i,
                {
                    y.push(copy_line(&self.lines[i]));
                    i = i + 1;
                }
                y.push(subvec(&self.lines[er], 0, ec));
                self.yank = y;
                proof {
                    assert(view_lines(self.yank@) =~~= extract_range(d0.lines, sr as int, sc as int, er as int, ec as int));
                }
            }
            self.lines = nl;
        }
        self.row = sr;
        self.col = sc;
        self.undo.push(snap);
        self.redo = Vec::new();
        proof {
            assert(self@ =~~= spec_delete_sel(d0, should_yank));
            lemma_delete_sel_wf(d0, should_yank);
        }
        true
    }

    /// Record the pre-edit snapshot: the anchor is dropped, the snapshot goes
    /// onto the undo history and the redo history is cleared.
    fn finish_edit(&mut self, snap: Snapshot)
        ensures
            final(self)@ == (DocView {
                anchor: None,
                undo: old(self)@.undo.push(snap@),
                redo: Seq::empty(),
                ..old(self)@
            }),
    {
        self.anchor = None;
        self.undo.push(snap);
        self.redo = Vec::new();
        proof {
            assert(self@ =~~= (DocView {
                anchor: None,
                undo: old(self)@.undo.push(snap@),
                redo: Seq::empty(),
                ..old(self)@
            }));
        }
    }

    /// The pre-edit snapshot of the current content and cursor.
    fn take_snap(&self) -> (s: Snapshot)
        ensures
            s@ == self@.snap(),
    {
        let s = Snapshot { lines: copy_lines(&self.lines), row: self.row, col: self.col };
        proof {
            assert(s@ =~~= self@.snap());
        }
        s
    }

    /// Yank the selected text without changing the buffer; the selection
    /// ends, the cursor stays.
    pub fn copy(&mut self)
        requires
            old(self)@.wf(),
        ensures
            final(self)@ == spec_copy(old(self)@),
            final(self)@.wf(),
    {
        let ghost d0 = self@;
        let (ar, ac) = match self.anchor {
            None => {
                proof {
                    assert(self@ =~~= spec_copy(d0));
                }
                return ;
            },
            Some(p) => p,
        };
        self.anchor = None;
        let (sr, sc, er, ec) = if ar < self.row || (ar == self.row && ac < self.col) {
            (ar, ac, self.row, self.col)
        } else if self.row < ar || (self.row == ar && self.col < ac) {
            (self.row, self.col, ar, ac)
        } else {
            proof {
                assert(self@ =~~= spec_copy(d0));
            }
            return ;
        };
        if sr == er {
            let removed = subvec(&self.lines[sr], sc, ec);
            let mut y: Vec<Vec<char>> = Vec::new();
            y.push(removed);
            self.yank = y;
        } else {
            let mut y: Vec<Vec<char>> = Vec::new();
            let first_line = &self.lines[sr];
            y.push(subvec(first_line, sc, first_line.len()));
            let mut i: usize = sr + 1;
            while i < er
                invariant
                    sr < i <= er,
                    er < self@.lines.len(),
                    self@.lines == d0.lines,
                    sc <= d0.lines[sr as int].len(),
                    ec <= d0.lines[er as int].len(),
                    y@.len() == i - sr,
                    y@[0]@ == d0.lines[sr as int].skip(sc as int),
                    forall|k: int| 1 <= k < y@.len() ==> y@[k]@ == d0.lines[k + sr],
                decreases er - i,
            {
                y.push(copy_line(&self.lines[i]));
                i = i + 1;
            }
            y.push(subvec(&self.lines[er], 0, ec));
            self.yank = y;
        }
        proof {
            assert(view_lines(self.yank@) =~~= extract_range(
                d0.lines,
                sr as int,
                sc as int,
                er as int,
                ec as int,
            ));
            assert(self@ =~~= spec_copy(d0));
            if sr == er {
                lemma_clean_sub(d0.lines[sr as int], sc as int, ec as int);
            } else {
                lemma_clean_skip(d0.lines[sr as int], sc as int);
                lemma_clean_take(d0.lines[er as int], ec as int);
            }
        }
    }

    /// Cut the selected text into the yank register.
    pub fn cut(&mut self)
        requires
            old(self)@.wf(),
        ensures
            final(self)@ == spec_cut(old(self)@),
            final(self)@.wf(),
    {
        let _ = self.delete_selection(true);
    }

    /// Insert a single-line piece at the cursor. Used with no selection
    /// active; any anchor is dropped without deleting.
    fn insert_piece(&mut self, s: &Vec<char>)
        requires
            old(self)@.wf(),
            line_clean(s@),
        ensures
            final(self)@ == spec_insert_piece(old(self)@, s@),
            final(self)@.wf(),
    {
        let ghost d0 = self@;
        if s.len() == 0 {
            proof {
                assert(self@ =~~= spec_insert_piece(d0, s@));
            }
            return ;
        }
        let snap = self.take_snap();
        let row = self.row;
        let col = self.col;
        let head = subvec(&self.lines[row], 0, col);
        let mid = crate::text::concat_chars(&head, s);
        let line_len = self.lines[row].len();
        let tail = subvec(&self.lines[row], col, line_len);
        let merged = crate::text::concat_chars(&mid, &tail);
        let ml = merged.len();
        proof {
            assert(col + s@.len() <= ml);
        }
        let newcol = col + s.len();
        set_line(&mut self.lines, row, merged);
        self.col = newcol;
        self.finish_edit(snap);
        proof {
            assert(self@ =~~= spec_insert_piece(d0, s@));
            lemma_clean_take(d0.lines[row as int], col as int);
            lemma_clean_skip(d0.lines[row as int], col as int);
            lemma_clean_concat(d0.lines[row as int].take(col as int), s@);
            lemma_clean_concat(d0.lines[row as int].take(col as int) + s@, d0.lines[row as int].skip(col as int));
            assert(merged@ == d0.lines[row as int].take(col as int) + s@ + d0.lines[row as int].skip(col as int));
            assert forall|ii: int| 0 <= ii < self@.lines.len() implies line_clean(
                #[trigger] self@.lines[ii],
            ) by {
                if ii != row {
                    assert(self@.lines[ii] == d0.lines[ii]);
                }
            }
            assert forall|i: int| 0 <= i < self@.undo.len() implies snap_wf(
                #[trigger] self@.undo[i],
            ) by {
                if i < d0.undo.len() {
                    assert(self@.undo[i] == d0.undo[i]);
                } else {
                    assert(self@.undo[i] == d0.snap());
                }
            }
        }
    }

    /// Insert a multi-line chunk at the cursor. Used with no selection
    /// active; any anchor is dropped without deleting.
    fn insert_chunk(&mut self, chunk: &Vec<Vec<char>>)
        requires
            old(self)@.wf(),
            chunk@.len() >= 2,
            lines_clean(view_lines(chunk@)),
        ensures
            final(self)@ == spec_insert_chunk(old(self)@, view_lines(chunk@)),
            final(self)@.wf(),
    {
        let ghost d0 = self@;
        let ghost ch = view_lines(chunk@);
        let snap = self.take_snap();
        let row = self.row;
        let col = self.col;
        let n = chunk.len();
        let mut nl: Vec<Vec<char>> = Vec::new();
        let mut i: usize = 0;
        while i < row
            invariant
                i <= row,
                row < self@.lines.len(),
                self@.lines == d0.lines,
                nl@.len() == i,
                forall|k: int| 0 <= k < i ==> nl@[k]@ == d0.lines[k],
            decreases row - i,
        {
            nl.push(copy_line(&self.lines[i]));
            i = i + 1;
        }
        let head = subvec(&self.lines[row], 0, col);
        nl.push(crate::text::concat_chars(&head, &chunk[0]));
        let mut i: usize = 1;
        while i < n - 1
            invariant
                1 <= i <= n - 1,
                n == chunk@.len(),
                row < self@.lines.len(),
                col <= d0.lines[row as int].len(),
                self@.lines == d0.lines,
                ch == view_lines(chunk@),
                nl@.len() == row + i,
                forall|k: int| 0 <= k < row ==> nl@[k]@ == d0.lines[k],
                nl@[row as int]@ == d0.lines[row as int].take(col as int) + ch[0],
                forall|k: int| row < k < nl@.len() ==> nl@[k]@ == ch[k - row],
            decreases n - i,
        {
            nl.push(copy_line(&chunk[i]));
            i = i + 1;
        }
        let line_len = self.lines[row].len();
        let tail = subvec(&self.lines[row], col, line_len);
        nl.push(crate::text::concat_chars(&chunk[n - 1], &tail));
        let cur_rows = self.lines.len();
        proof {
            assert(row < cur_rows);
        }
        let mut i: usize = row + 1;
        while i < self.lines.len()
            invariant
                row < i <= self@.lines.len(),
                n == chunk@.len(),
                n >= 2,
                row < self@.lines.len(),
                col <= d0.lines[row as int].len(),
                self@.lines == d0.lines,
                ch == view_lines(chunk@),
                nl@.len() == row + n + i - row - 1,
                forall|k: int| 0 <= k < row ==> nl@[k]@ == d0.lines[k],
                nl@[row as int]@ == d0.lines[row as int].take(col as int) + ch[0],
                forall|k: int| row < k < row + n - 1 ==> nl@[k]@ == ch[k - row],
                nl@[row + n - 1]@ == ch[n - 1] + d0.lines[row as int].skip(col as int),
                forall|k: int| row + n - 1 < k < nl@.len() ==> nl@[k]@ == d0.lines[k - n + 1],
            decreases self.lines.len() - i,
        {
            nl.push(copy_line(&self.lines[i]));
            i = i + 1;
        }
        self.lines = nl;
        let nr = self.lines.len();
        proof {
            assert(nr == n + d0.lines.len() - 1);
            assert(row + n - 1 < nr);
        }
        self.row = row + n - 1;
        let cl = self.lines[row + n - 1].len();
        proof {
            assert(ch[n - 1].len() <= cl);
        }
        self.col = chunk[n - 1].len();
        self.finish_edit(snap);
        proof {
            assert(self@ =~~= spec_insert_chunk(d0, ch));
            lemma_clean_take(d0.lines[row as int], col as int);
            lemma_clean_skip(d0.lines[row as int], col as int);
            lemma_clean_concat(d0.lines[row as int].take(col as int), ch[0]);
            lemma_clean_concat(ch[n - 1], d0.lines[row as int].skip(col as int));
            assert forall|ii: int| 0 <= ii < self@.lines.len() implies line_clean(
                #[trigger] self@.lines[ii],
            ) by {
                if ii < row {
                    assert(self@.lines[ii] == d0.lines[ii]);
                } else if ii == row {
                } else if ii < row + n - 1 {
                    assert(self@.lines[ii] == ch[ii - row]);
                } else if ii == row + n - 1 {
                } else {
                    assert(self@.lines[ii] == d0.lines[ii - n + 1]);
                }
            }
            assert forall|i2: int| 0 <= i2 < self@.undo.len() implies snap_wf(
                #[trigger] self@.undo[i2],
            ) by {
                if i2 < d0.undo.len() {
                    assert(self@.undo[i2] == d0.undo[i2]);
                } else {
                    assert(self@.undo[i2] == d0.snap());
                }
            }
        }
    }

    /// Delete any selection, then insert the given single-line text at the
    /// cursor.
    pub fn insert_str(&mut self, s: &Vec<char>)
        requires
            old(self)@.wf(),
            line_clean(s@),
        ensures
            final(self)@ == spec_insert_str(old(self)@, s@),
            final(self)@.wf(),
    {
        let _ = self.delete_selection(false);
        self.insert_piece(s);
    }

    /// Replace the characters `[start, end)` of the current line with the
    /// given text; the cursor lands at the end of the new text and the yank
    /// register stays as it was.
    pub fn replace_in_line(&mut self, start: usize, end: usize, s: &Vec<char>)
        requires
            old(self)@.wf(),
            start <= end <= old(self)@.cur_line().len(),
            line_clean(s@),
        ensures
            final(self)@ == spec_replace_in_line(old(self)@, start as int, end as int, s@),
            final(self)@.wf(),
    {
        let ghost d0 = self@;
        let snap = self.take_snap();
        let row = self.row;
        let head = subvec(&self.lines[row], 0, start);
        let mid = crate::text::concat_chars(&head, s);
        let line_len = self.lines[row].len();
        let tail = subvec(&self.lines[row], end, line_len);
        let merged = crate::text::concat_chars(&mid, &tail);
        let ml = merged.len();
        proof {
            assert(start + s@.len() <= ml);
        }
        let newcol = start + s.len();
        set_line(&mut self.lines, row, merged);
        self.col = newcol;
        self.finish_edit(snap);
        proof {
            assert(self@ =~~= spec_replace_in_line(d0, start as int, end as int, s@));
            lemma_clean_take(d0.lines[row as int], start as int);
            lemma_clean_skip(d0.lines[row as int], end as int);
            lemma_clean_concat(d0.lines[row as int].take(start as int), s@);
            lemma_clean_concat(
                d0.lines[row as int].take(start as int) + s@,
                d0.lines[row as int].skip(end as int),
            );
            assert(merged@ == d0.lines[row as int].take(start as int) + s@ + d0.lines[
                row as int
            ].skip(end as int));
            assert forall|ii: int| 0 <= ii < self@.lines.len() implies line_clean(
                #[trigger] self@.lines[ii],
            ) by {
                if ii != row {
                    assert(self@.lines[ii] == d0.lines[ii]);
                }
            }
            assert forall|i2: int| 0 <= i2 < self@.undo.len() implies snap_wf(
                #[trigger] self@.undo[i2],
            ) by {
                if i2 < d0.undo.len() {
                    assert(self@.undo[i2] == d0.undo[i2]);
                } else {
                    assert(self@.undo[i2] == d0.snap());
                }
            }
        }
    }

    /// Paste the yank register at the cursor, replacing any selection.
    pub fn paste(&mut self)
        requires
            old(self)@.wf(),
        ensures
            final(self)@ == spec_paste(old(self)@),
            final(self)@.wf(),
    {
        let _ = self.delete_selection(false);
        if self.yank.len() == 0 {
            return ;
        }
        if self.yank.len() == 1 {
            let p = copy_line(&self.yank[0]);
            self.insert_piece(&p);
        } else {
            let c = copy_lines(&self.yank);
            self.insert_chunk(&c);
        }
    }

    /// Split the current line at the cursor, replacing any selection; the
    /// cursor lands at the head of the new line.
    pub fn insert_newline(&mut self)
        requires
            old(self)@.wf(),
        ensures
            final(self)@ == spec_insert_newline(old(self)@),
            final(self)@.wf(),
    {
        let ghost d0 = self@;
        let _ = self.delete_selection(false);
        let ghost d1 = spec_delete_sel(d0, false);
        let snap = self.take_snap();
        let row = self.row;
        let col = self.col;
        let head = subvec(&self.lines[row], 0, col);
        let line_len = self.lines[row].len();
        let tail = subvec(&self.lines[row], col, line_len);
        let cur_rows = self.lines.len();
        proof {
            assert(row < cur_rows);
        }
        set_line(&mut self.lines, row, head);
        self.lines.insert(row + 1, tail);
        self.row = row + 1;
        self.col = 0;
        self.finish_edit(snap);
        proof {
            assert(self@.lines =~~= spec_insert_newline(d0).lines);
            assert(self@ =~~= spec_insert_newline(d0));
            lemma_delete_sel_wf(d0, false);
            lemma_clean_take(d1.lines[row as int], col as int);
            lemma_clean_skip(d1.lines[row as int], col as int);
            assert forall|ii: int| 0 <= ii < self@.lines.len() implies line_clean(
                #[trigger] self@.lines[ii],
            ) by {
                if ii < row {
                    assert(self@.lines[ii] == d1.lines[ii]);
                } else if ii > row + 1 {
                    assert(self@.lines[ii] == d1.lines[ii - 1]);
                }
            }
            assert forall|i2: int| 0 <= i2 < self@.undo.len() implies snap_wf(
                #[trigger] self@.undo[i2],
            ) by {
                if i2 < d1.undo.len() {
                    assert(self@.undo[i2] == d1.undo[i2]);
                } else {
                    assert(self@.undo[i2] == d1.snap());
                }
            }
        }
    }

    /// Insert one character at the cursor, replacing any selection; a line
    /// terminator becomes a line split.
    pub fn insert_char(&mut self, c: char)
        requires
            old(self)@.wf(),
        ensures
            final(self)@ == spec_insert_char(old(self)@, c),
            final(self)@.wf(),
    {
        let ghost d0 = self@;
        if c == '\n' || c == '\r' {
            self.insert_newline();
            return ;
        }
        let _ = self.delete_selection(false);
        let mut p: Vec<char> = Vec::new();
        p.push(c);
        self.insert_piece(&p);
        proof {
            assert(p@ =~= seq![c]);
            assert(self@ =~~= spec_insert_char(d0, c));
        }
    }

    /// Delete the character before the cursor; at a line head the newline
    /// before the line goes instead. A selection is deleted in its place.
    pub fn delete_char(&mut self)
        requires
            old(self)@.wf(),
        ensures
            final(self)@ == spec_delete_char(old(self)@),
            final(self)@.wf(),
    {
        let ghost d0 = self@;
        if self.delete_selection(false) {
            return ;
        }
        let ghost d1 = spec_delete_sel(d0, false);
        if self.col == 0 {
            self.delete_newline();
            proof {
                assert(self@ =~~= spec_delete_char(d0));
            }
            return ;
        }
        let snap = self.take_snap();
        let row = self.row;
        let col = self.col;
        let head = subvec(&self.lines[row], 0, col - 1);
        let line_len = self.lines[row].len();
        let tail = subvec(&self.lines[row], col, line_len);
        let merged = crate::text::concat_chars(&head, &tail);
        set_line(&mut self.lines, row, merged);
        self.col = col - 1;
        self.finish_edit(snap);
        proof {
            assert(self@ =~~= spec_delete_char(d0));
            lemma_clean_take(d1.lines[row as int], col - 1);
            lemma_clean_skip(d1.lines[row as int], col as int);
            lemma_clean_concat(
                d1.lines[row as int].take(col - 1),
                d1.lines[row as int].skip(col as int),
            );
            assert forall|ii: int| 0 <= ii < self@.lines.len() implies line_clean(
                #[trigger] self@.lines[ii],
            ) by {
                if ii != row {
                    assert(self@.lines[ii] == d1.lines[ii]);
                }
            }
            assert forall|i2: int| 0 <= i2 < self@.undo.len() implies snap_wf(
                #[trigger] self@.undo[i2],
            ) by {
                if i2 < d1.undo.len() {
                    assert(self@.undo[i2] == d1.undo[i2]);
                } else {
                    assert(self@.undo[i2] == d1.snap());
                }
            }
        }
    }

    /// Join the cursor line onto the previous one; at the first row nothing
    /// changes. Used with no selection active.
    fn delete_newline(&mut self)
        requires
            old(self)@.wf(),
        ensures
            final(self)@ == spec_delete_newline(old(self)@),
            final(self)@.wf(),
    {
        let ghost d0 = self@;
        if self.row == 0 {
            proof {
                assert(self@ =~~= spec_delete_newline(d0));
            }
            return ;
        }
        let snap = self.take_snap();
        let row = self.row;
        let merged = crate::text::concat_chars(&self.lines[row - 1], &self.lines[row]);
        let newcol = self.lines[row - 1].len();
        set_line(&mut self.lines, row - 1, merged);
        let _ = self.lines.remove(row);
        self.row = row - 1;
        self.col = newcol;
        self.finish_edit(snap);
        proof {
            assert(self@.lines =~~= spec_delete_newline(d0).lines);
            assert(self@ =~~= spec_delete_newline(d0));
            lemma_clean_concat(d0.lines[row - 1], d0.lines[row as int]);
            assert forall|ii: int| 0 <= ii < self@.lines.len() implies line_clean(
                #[trigger] self@.lines[ii],
            ) by {
                if ii < row - 1 {
                    assert(self@.lines[ii] == d0.lines[ii]);
                } else if ii > row - 1 {
                    assert(self@.lines[ii] == d0.lines[ii + 1]);
                }
            }
            assert forall|i2: int| 0 <= i2 < self@.undo.len() implies snap_wf(
                #[trigger] self@.undo[i2],
            ) by {
                if i2 < d0.undo.len() {
                    assert(self@.undo[i2] == d0.undo[i2]);
                } else {
                    assert(self@.undo[i2] == d0.snap());
                }
            }
        }
    }

    /// Delete the character under the cursor; at a line end the next line
    /// joins on instead. A selection is deleted in its place.
    pub fn delete_next_char(&mut self)
        requires
            old(self)@.wf(),
        ensures
            final(self)@ == spec_delete_next_char(old(self)@),
            final(self)@.wf(),
    {
        let ghost d0 = self@;
        if self.delete_selection(false) {
            return ;
        }
        let ghost d1 = spec_delete_sel(d0, false);
        let row = self.row;
        let col = self.col;
        let nrows = self.lines.len();
        proof {
            assert(row < nrows);
        }
        let line_len = self.lines[row].len();
        if col < line_len {
            let snap = self.take_snap();
            let head = subvec(&self.lines[row], 0, col);
            let tail = subvec(&self.lines[row], col + 1, line_len);
            let merged = crate::text::concat_chars(&head, &tail);
            set_line(&mut self.lines, row, merged);
            self.finish_edit(snap);
            proof {
                assert(self@ =~~= spec_delete_next_char(d0));
                lemma_clean_take(d1.lines[row as int], col as int);
                lemma_clean_skip(d1.lines[row as int], col + 1);
                lemma_clean_concat(
                    d1.lines[row as int].take(col as int),
                    d1.lines[row as int].skip(col + 1),
                );
                assert forall|ii: int| 0 <= ii < self@.lines.len() implies line_clean(
                    #[trigger] self@.lines[ii],
                ) by {
                    if ii != row {
                        assert(self@.lines[ii] == d1.lines[ii]);
                    }
                }
                assert forall|i2: int| 0 <= i2 < self@.undo.len() implies snap_wf(
                    #[trigger] self@.undo[i2],
                ) by {
                    if i2 < d1.undo.len() {
                        assert(self@.undo[i2] == d1.undo[i2]);
                    } else {
                        assert(self@.undo[i2] == d1.snap());
                    }
                }
            }
        } else if row + 1 < self.lines.len() {
            let snap = self.take_snap();
            let merged = crate::text::concat_chars(&self.lines[row], &self.lines[row + 1]);
            set_line(&mut self.lines, row, merged);
            let _ = self.lines.remove(row + 1);
            self.finish_edit(snap);
            proof {
                assert(self@.lines =~~= spec_delete_next_char(d0).lines);
                assert(self@ =~~= spec_delete_next_char(d0));
                lemma_clean_concat(d1.lines[row as int], d1.lines[row + 1]);
                assert forall|ii: int| 0 <= ii < self@.lines.len() implies line_clean(
                    #[trigger] self@.lines[ii],
                ) by {
                    if ii < row {
                        assert(self@.lines[ii] == d1.lines[ii]);
                    } else if ii > row {
                        assert(self@.lines[ii] == d1.lines[ii + 1]);
                    }
                }
                assert forall|i2: int| 0 <= i2 < self@.undo.len() implies snap_wf(
                    #[trigger] self@.undo[i2],
                ) by {
                    if i2 < d1.undo.len() {
                        assert(self@.undo[i2] == d1.undo[i2]);
                    } else {
                        assert(self@.undo[i2] == d1.snap());
                    }
                }
            }
        } else {
            proof {
                assert(self@ =~~= spec_delete_next_char(d0));
            }
        }
    }

    /// Delete from the cursor to the end of the line and yank the removed
    /// piece; at a line end the next line joins on instead (not yanked). A
    /// selection is deleted in its place (not yanked).
    pub fn delete_line_by_end(&mut self)
        requires
            old(self)@.wf(),
        ensures
            final(self)@ == spec_delete_line_by_end(old(self)@),
            final(self)@.wf(),
    {
        let ghost d0 = self@;
        if self.delete_selection(false) {
            return ;
        }
        let ghost d1 = spec_delete_sel(d0, false);
        let row = self.row;
        let col = self.col;
        let line_len = self.lines[row].len();
        if col < line_len {
            let snap = self.take_snap();
            let head = subvec(&self.lines[row], 0, col);
            let removed = subvec(&self.lines[row], col, line_len);
            let mut y: Vec<Vec<char>> = Vec::new();
            y.push(removed);
            self.yank = y;
            set_line(&mut self.lines, row, head);
            self.finish_edit(snap);
            proof {
                assert(view_lines(self.yank@) =~~= seq![d1.cur_line().skip(col as int)]);
                assert(self@ =~~= spec_delete_line_by_end(d0));
                lemma_clean_take(d1.lines[row as int], col as int);
                lemma_clean_skip(d1.lines[row as int], col as int);
                assert forall|ii: int| 0 <= ii < self@.lines.len() implies line_clean(
                    #[trigger] self@.lines[ii],
                ) by {
                    if ii != row {
                        assert(self@.lines[ii] == d1.lines[ii]);
                    }
                }
                assert forall|i2: int| 0 <= i2 < self@.undo.len() implies snap_wf(
                    #[trigger] self@.undo[i2],
                ) by {
                    if i2 < d1.undo.len() {
                        assert(self@.undo[i2] == d1.undo[i2]);
                    } else {
                        assert(self@.undo[i2] == d1.snap());
                    }
                }
            }
        } else {
            self.delete_next_char();
            proof {
                assert(self@ =~~= spec_delete_line_by_end(d0));
            }
        }
    }

    /// Restore the latest undo snapshot; the replaced state becomes
    /// redoable. With no history nothing changes.
    pub fn undo(&mut self)
        requires
            old(self)@.wf(),
        ensures
            final(self)@ == spec_undo(old(self)@),
            final(self)@.wf(),
    {
        let ghost d0 = self@;
        match self.undo.pop() {
            None => {
                proof {
                    assert(self@ =~~= spec_undo(d0));
                }
            },
            Some(s) => {
                let cur = Snapshot {
                    lines: copy_lines(&self.lines),
                    row: self.row,
                    col: self.col,
                };
                self.redo.push(cur);
                self.lines = s.lines;
                self.row = s.row;
                self.col = s.col;
                self.anchor = None;
                proof {
                    assert(s@ == d0.undo.last());
                    assert(self@ =~~= spec_undo(d0));
                    assert(snap_wf(d0.undo.last()));
                    assert forall|i2: int| 0 <= i2 < self@.redo.len() implies snap_wf(
                        #[trigger] self@.redo[i2],
                    ) by {
                        if i2 < d0.redo.len() {
                            assert(self@.redo[i2] == d0.redo[i2]);
                        } else {
                            assert(self@.redo[i2] == d0.snap());
                        }
                    }
                }
            },
        }
    }

    /// Restore the latest redo snapshot; the replaced state becomes
    /// undoable. With no redo history nothing changes.
    pub fn redo(&mut self)
        requires
            old(self)@.wf(),
        ensures
            final(self)@ == spec_redo(old(self)@),
            final(self)@.wf(),
    {
        let ghost d0 = self@;
        match self.redo.pop() {
            None => {
                proof {
                    assert(self@ =~~= spec_redo(d0));
                }
            },
            Some(s) => {
                let cur = Snapshot {
                    lines: copy_lines(&self.lines),
                    row: self.row,
                    col: self.col,
                };
                self.undo.push(cur);
                self.lines = s.lines;
                self.row = s.row;
                self.col = s.col;
                self.anchor = None;
                proof {
                    assert(s@ == d0.redo.last());
                    assert(self@ =~~= spec_redo(d0));
                    assert(snap_wf(d0.redo.last()));
                    assert forall|i2: int| 0 <= i2 < self@.undo.len() implies snap_wf(
                        #[trigger] self@.undo[i2],
                    ) by {
                        if i2 < d0.undo.len() {
                            assert(self@.undo[i2] == d0.undo[i2]);
                        } else {
                            assert(self@.undo[i2] == d0.snap());
                        }
                    }
                }
            },
        }
    }

    /// Move the cursor down by `n` rows, clamped to the last line.
    pub fn scroll_down(&mut self, n: usize)
        requires
            old(self)@.wf(),
        ensures
            final(self)@ == spec_scroll_down(old(self)@, n as int),
            final(self)@.wf(),
    {
        let ghost d0 = self@;
        let len = self.lines.len();
        let r2 = if n < len - self.row {
            self.row + n
        } else {
            len - 1
        };
        self.row = r2;
        let ll = self.lines[r2].len();
        if self.col > ll {
            self.col = ll;
        }
        proof {
            assert(self@ =~~= spec_scroll_down(d0, n as int));
        }
    }

    /// Move the cursor up by `n` rows, clamped to the first line.
    pub fn scroll_up(&mut self, n: usize)
        requires
            old(self)@.wf(),
        ensures
            final(self)@ == spec_scroll_up(old(self)@, n as int),
            final(self)@.wf(),
    {
        let ghost d0 = self@;
        let r2 = if self.row >= n {
            self.row - n
        } else {
            0
        };
        self.row = r2;
        let ll = self.lines[r2].len();
        if self.col > ll {
            self.col = ll;
        }
        proof {
            assert(self@ =~~= spec_scroll_up(d0, n as int));
        }
    }

    /// Set the search pattern; an empty pattern clears the search.
    pub fn set_pattern(&mut self, p: Vec<char>)
        requires
            old(self)@.wf(),
            line_clean(p@),
        ensures
            final(self)@ == (DocView { pattern: p@, ..old(self)@ }),
            final(self)@.wf(),
    {
        self.pattern = p;
    }

    /// Set the viewport height used by the page scroll motions.
    pub fn set_view_rows(&mut self, n: usize)
        requires
            old(self)@.wf(),
        ensures
            final(self)@ == (DocView { view_rows: n as int, ..old(self)@ }),
            final(self)@.wf(),
    {
        self.view_rows = n;
    }

    /// The cursor position.
    pub fn cursor(&self) -> (r: (usize, usize))
        ensures
            r.0 as int == self@.row,
            r.1 as int == self@.col,
    {
        (self.row, self.col)
    }

    /// How many lines the buffer holds.
    pub fn num_lines(&self) -> (n: usize)
        ensures
            n as int == self@.lines.len(),
    {
        self.lines.len()
    }

    /// The line at the given row.
    pub fn line_at(&self, i: usize) -> (l: &Vec<char>)
        requires
            i < self@.lines.len(),
        ensures
            l@ == self@.lines[i as int],
    {
        &self.lines[i]
    }
}

// ---------------------------------------------------------------------------
// Search
// ---------------------------------------------------------------------------
//
// A search pattern is a literal sequence of characters, by choice: there is
// no pattern language here, so no pattern can be malformed and setting one
// never fails.

/// The pattern occurs in the line starting at column `c`.
pub open spec fn occurs_at(l: Seq<char>, p: Seq<char>, c: int) -> bool {
    0 <= c && c + p.len() <= l.len() && l.subrange(c, c + p.len()) == p
}

/// The first column at or after `from` where the pattern occurs.
pub open spec fn first_match_from(l: Seq<char>, p: Seq<char>, from: int) -> Option<int>
    decreases l.len() - from + 1,
{
    if from < 0 || from + p.len() > l.len() {
        None
    } else if occurs_at(l, p, from) {
        Some(from)
    } else {
        first_match_from(l, p, from + 1)
    }
}

/// The last column at or before `limit` where the pattern occurs.
pub open spec fn last_match_upto(l: Seq<char>, p: Seq<char>, limit: int) -> Option<int>
    decreases limit + 1,
{
    if limit < 0 {
        None
    } else if occurs_at(l, p, limit) {
        Some(limit)
    } else {
        last_match_upto(l, p, limit - 1)
    }
}

/// The first match scanning rows `r` up to (excluding) `end`.
pub open spec fn first_match_rows(lines: Seq<Seq<char>>, p: Seq<char>, r: int, end: int) -> Option<
    (int, int),
>
    decreases end - r,
{
    if r < 0 || r >= end || end > lines.len() {
        None
    } else {
        match first_match_from(lines[r], p, 0) {
            Some(c) => Some((r, c)),
            None => first_match_rows(lines, p, r + 1, end),
        }
    }
}

/// The last match scanning rows from `hi` down to (including) `lo`; within a
/// row the rightmost match counts.
pub open spec fn last_match_rows(lines: Seq<Seq<char>>, p: Seq<char>, hi: int, lo: int) -> Option<
    (int, int),
>
    decreases hi + 1,
{
    if hi < lo || lo < 0 || hi >= lines.len() {
        None
    } else {
        match last_match_upto(lines[hi], p, lines[hi].len() as int) {
            Some(c) => Some((hi, c)),
            None => last_match_rows(lines, p, hi - 1, lo),
        }
    }
}

/// Where a forward search lands: the current line after the cursor first,
/// then the following rows, then the rows before the cursor (the wrap), and
/// last the current line up to the cursor. `None` when the pattern is unset
/// or absent.
pub open spec fn spec_search_fwd_pos(d: DocView, match_cursor: bool) -> Option<(int, int)> {
    if d.pattern.len() == 0 {
        None
    } else {
        let start = if match_cursor {
            d.col
        } else {
            d.col + 1
        };
        let cur = if start < d.cur_line().len() {
            first_match_from(d.cur_line(), d.pattern, start)
        } else {
            None
        };
        match cur {
            Some(c) => Some((d.row, c)),
            None => match first_match_rows(d.lines, d.pattern, d.row + 1, d.lines.len() as int) {
                Some(rc) => Some(rc),
                None => match first_match_rows(d.lines, d.pattern, 0, d.row) {
                    Some(rc) => Some(rc),
                    None => match first_match_from(d.cur_line(), d.pattern, 0) {
                        Some(c) => if c <= d.col {
                            Some((d.row, c))
                        } else {
                            None
                        },
                        None => None,
                    },
                },
            },
        }
    }
}

/// Where a backward search lands: the current line before the cursor first,
/// then the rows above bottom-up, then the rows below bottom-up (the wrap),
/// and last the current line at or after the cursor.
pub open spec fn spec_search_back_pos(d: DocView, match_cursor: bool) -> Option<(int, int)> {
    if d.pattern.len() == 0 {
        None
    } else {
        let cur = if d.col > 0 || match_cursor {
            let start = if match_cursor {
                d.col
            } else {
                d.col - 1
            };
            if start < d.cur_line().len() {
                last_match_upto(d.cur_line(), d.pattern, start)
            } else {
                None
            }
        } else {
            None
        };
        match cur {
            Some(c) => Some((d.row, c)),
            None => match last_match_rows(d.lines, d.pattern, d.row - 1, 0) {
                Some(rc) => Some(rc),
                None => match last_match_rows(
                    d.lines,
                    d.pattern,
                    d.lines.len() - 1,
                    d.row + 1,
                ) {
                    Some(rc) => Some(rc),
                    None => if d.col < d.cur_line().len() {
                        match last_match_upto(
                            d.cur_line(),
                            d.pattern,
                            d.cur_line().len() as int,
                        ) {
                            Some(c) => if c >= d.col {
                                Some((d.row, c))
                            } else {
                                None
                            },
                            None => None,
                        }
                    } else {
                        None
                    },
                },
            },
        }
    }
}

/// The document after a forward search: the cursor moves to the match, or
/// stays when there is none.
pub open spec fn spec_search_forward(d: DocView, match_cursor: bool) -> DocView {
    match spec_search_fwd_pos(d, match_cursor) {
        Some((r, c)) => DocView { row: r, col: c, ..d },
        None => d,
    }
}

/// The document after a backward search.
pub open spec fn spec_search_back(d: DocView, match_cursor: bool) -> DocView {
    match spec_search_back_pos(d, match_cursor) {
        Some((r, c)) => DocView { row: r, col: c, ..d },
        None => d,
    }
}

/// A found match lies inside the line and is a real occurrence.
pub proof fn lemma_first_match_bounds(l: Seq<char>, p: Seq<char>, from: int)
    requires
        first_match_from(l, p, from) is Some,
    ensures
        from <= first_match_from(l, p, from)->0,
        first_match_from(l, p, from)->0 + p.len() <= l.len(),
        occurs_at(l, p, first_match_from(l, p, from)->0),
    decreases l.len() - from + 1,
{
    if !(from < 0 || from + p.len() > l.len()) && !occurs_at(l, p, from) {
        lemma_first_match_bounds(l, p, from + 1);
    }
}

/// If the pattern occurs at `j` and nowhere earlier from `i` on, the scan
/// finds `j`.
pub proof fn lemma_first_match_at(l: Seq<char>, p: Seq<char>, i: int, j: int)
    requires
        0 <= i <= j,
        occurs_at(l, p, j),
        forall|k: int| i <= k < j ==> !occurs_at(l, p, k),
    ensures
        first_match_from(l, p, i) == Some(j),
    decreases j - i,
{
    if i < j {
        lemma_first_match_at(l, p, i + 1, j);
    }
}

/// If the pattern occurs nowhere from `i` on, the scan finds nothing.
pub proof fn lemma_no_match(l: Seq<char>, p: Seq<char>, i: int)
    requires
        forall|k: int| i <= k ==> !occurs_at(l, p, k),
    ensures
        first_match_from(l, p, i) is None,
    decreases l.len() - i + 1,
{
    if !(i < 0 || i + p.len() > l.len()) {
        lemma_no_match(l, p, i + 1);
    }
}

/// Computes [`occurs_at`].
pub fn match_at(l: &Vec<char>, p: &Vec<char>, c: usize) -> (r: bool)
    ensures
        r == occurs_at(l@, p@, c as int),
{
    if c > l.len() || p.len() > l.len() - c {
        return false;
    }
    let ll = l.len();
    let mut i: usize = 0;
    while i < p.len()
        invariant
            c + p@.len() <= l@.len(),
            l@.len() == ll,
            i <= p@.len(),
            forall|k: int| 0 <= k < i ==> l@[c + k] == p@[k],
        decreases p.len() - i,
    {
        if l[c + i] != p[i] {
            proof {
                assert(l@.subrange(c as int, c + p@.len())[i as int] == l@[c + i]);
            }
            return false;
        }
        i = i + 1;
    }
    proof {
        assert(l@.subrange(c as int, c + p@.len()) =~= p@);
    }
    true
}

/// Computes [`first_match_from`].
pub fn find_from(l: &Vec<char>, p: &Vec<char>, from: usize) -> (r: Option<usize>)
    requires
        p@.len() >= 1,
    ensures
        match r {
            Some(c) => first_match_from(l@, p@, from as int) == Some(c as int) && c + p@.len()
                <= l@.len(),
            None => first_match_from(l@, p@, from as int) is None,
        },
{
    let mut c = from;
    loop
        invariant
            from <= c,
            p@.len() >= 1,
            first_match_from(l@, p@, from as int) == first_match_from(l@, p@, c as int),
        decreases l@.len() + 1 - c,
    {
        if c > l.len() || p.len() > l.len() - c {
            return None;
        }
        if match_at(l, p, c) {
            return Some(c);
        }
        c = c + 1;
    }
}

/// Computes [`last_match_upto`].
pub fn rfind_upto(l: &Vec<char>, p: &Vec<char>, limit: usize) -> (r: Option<usize>)
    requires
        p@.len() >= 1,
    ensures
        match r {
            Some(c) => last_match_upto(l@, p@, limit as int) == Some(c as int) && c + p@.len()
                <= l@.len(),
            None => last_match_upto(l@, p@, limit as int) is None,
        },
{
    let mut c = limit;
    loop
        invariant
            c <= limit,
            p@.len() >= 1,
            last_match_upto(l@, p@, limit as int) == last_match_upto(l@, p@, c as int),
        decreases c,
    {
        if match_at(l, p, c) {
            return Some(c);
        }
        if c == 0 {
            proof {
                assert(last_match_upto(l@, p@, -1) is None);
            }
            return None;
        }
        c = c - 1;
    }
}

/// Computes [`first_match_rows`].
pub fn find_rows(lines: &Vec<Vec<char>>, p: &Vec<char>, r: usize, end: usize) -> (res: Option<
    (usize, usize),
>)
    requires
        p@.len() >= 1,
        end <= lines@.len(),
    ensures
        match res {
            Some((rr, cc)) => first_match_rows(view_lines(lines@), p@, r as int, end as int)
                == Some((rr as int, cc as int)) && rr < lines@.len() && cc + p@.len()
                <= view_lines(lines@)[rr as int].len(),
            None => first_match_rows(view_lines(lines@), p@, r as int, end as int) is None,
        },
{
    let mut i = r;
    while i < end
        invariant
            r <= i,
            end <= lines@.len(),
            p@.len() >= 1,
            first_match_rows(view_lines(lines@), p@, r as int, end as int) == first_match_rows(
                view_lines(lines@),
                p@,
                i as int,
                end as int,
            ),
        decreases end - i,
    {
        match find_from(&lines[i], p, 0) {
            Some(c) => {
                return Some((i, c));
            },
            None => {
                i = i + 1;
            },
        }
    }
    None
}

/// Computes [`last_match_rows`].
pub fn rfind_rows(lines: &Vec<Vec<char>>, p: &Vec<char>, hi: usize, lo: usize) -> (res: Option<
    (usize, usize),
>)
    requires
        p@.len() >= 1,
        hi < lines@.len(),
    ensures
        match res {
            Some((rr, cc)) => last_match_rows(view_lines(lines@), p@, hi as int, lo as int)
                == Some((rr as int, cc as int)) && rr < lines@.len() && cc + p@.len()
                <= view_lines(lines@)[rr as int].len(),
            None => last_match_rows(view_lines(lines@), p@, hi as int, lo as int) is None,
        },
{
    let mut i = hi;
    loop
        invariant
            i <= hi,
            hi < lines@.len(),
            p@.len() >= 1,
            last_match_rows(view_lines(lines@), p@, hi as int, lo as int) == last_match_rows(
                view_lines(lines@),
                p@,
                i as int,
                lo as int,
            ),
        decreases i + 1,
    {
        if i < lo {
            return None;
        }
        let ll = lines[i].len();
        match rfind_upto(&lines[i], p, ll) {
            Some(c) => {
                return Some((i, c));
            },
            None => {
                if i == 0 {
                    proof {
                        assert(last_match_rows(view_lines(lines@), p@, -1, lo as int) is None);
                    }
                    return None;
                }
                i = i - 1;
            },
        }
    }
}

impl Document {
    /// Move the cursor to the next match of the pattern, wrapping around the
    /// buffer; reports whether a match was found.
    pub fn search_forward(&mut self, match_cursor: bool) -> (found: bool)
        requires
            old(self)@.wf(),
        ensures
            final(self)@ == spec_search_forward(old(self)@, match_cursor),
            found == (spec_search_fwd_pos(old(self)@, match_cursor) is Some),
            final(self)@.wf(),
    {
        let ghost d0 = self@;
        if self.pattern.len() == 0 {
            return false;
        }
        let row = self.row;
        let col = self.col;
        let line_len = self.lines[row].len();
        let do_cur = if match_cursor {
            col < line_len
        } else {
            line_len > 0 && col < line_len - 1
        };
        if do_cur {
            let start = if match_cursor {
                col
            } else {
                col + 1
            };
            let p = copy_line(&self.pattern);
            match find_from(&self.lines[row], &p, start) {
                Some(c) => {
                    self.col = c;
                    proof {
                        assert(self@ =~~= spec_search_forward(d0, match_cursor));
                    }
                    return true;
                },
                None => {},
            }
        }
        let p = copy_line(&self.pattern);
        let nrows = self.lines.len();
        match find_rows(&self.lines, &p, row + 1, nrows) {
            Some((r, c)) => {
                self.row = r;
                self.col = c;
                proof {
                    assert(self@ =~~= spec_search_forward(d0, match_cursor));
                }
                return true;
            },
            None => {},
        }
        match find_rows(&self.lines, &p, 0, row) {
            Some((r, c)) => {
                self.row = r;
                self.col = c;
                proof {
                    assert(self@ =~~= spec_search_forward(d0, match_cursor));
                }
                return true;
            },
            None => {},
        }
        match find_from(&self.lines[row], &p, 0) {
            Some(c) => {
                if c <= col {
                    self.col = c;
                    proof {
                        assert(self@ =~~= spec_search_forward(d0, match_cursor));
                    }
                    return true;
                }
            },
            None => {},
        }
        proof {
            assert(self@ =~~= spec_search_forward(d0, match_cursor));
        }
        false
    }

    /// Move the cursor to the previous match of the pattern, wrapping around
    /// the buffer; reports whether a match was found.
    pub fn search_back(&mut self, match_cursor: bool) -> (found: bool)
        requires
            old(self)@.wf(),
        ensures
            final(self)@ == spec_search_back(old(self)@, match_cursor),
            found == (spec_search_back_pos(old(self)@, match_cursor) is Some),
            final(self)@.wf(),
    {
        let ghost d0 = self@;
        if self.pattern.len() == 0 {
            return false;
        }
        let row = self.row;
        let col = self.col;
        let line_len = self.lines[row].len();
        let p = copy_line(&self.pattern);
        if col > 0 || match_cursor {
            let start = if match_cursor {
                col
            } else {
                col - 1
            };
            if start < line_len {
                match rfind_upto(&self.lines[row], &p, start) {
                    Some(c) => {
                        self.col = c;
                        proof {
                            assert(self@ =~~= spec_search_back(d0, match_cursor));
                        }
                        return true;
                    },
                    None => {},
                }
            }
        }
        if row > 0 {
            match rfind_rows(&self.lines, &p, row - 1, 0) {
                Some((r, c)) => {
                    self.row = r;
                    self.col = c;
                    proof {
                        assert(self@ =~~= spec_search_back(d0, match_cursor));
                    }
                    return true;
                },
                None => {},
            }
        }
        let nrows = self.lines.len();
        match rfind_rows(&self.lines, &p, nrows - 1, row + 1) {
            Some((r, c)) => {
                self.row = r;
                self.col = c;
                proof {
                    assert(self@ =~~= spec_search_back(d0, match_cursor));
                }
                return true;
            },
            None => {},
        }
        if col < line_len {
            match rfind_upto(&self.lines[row], &p, line_len) {
                Some(c) => {
                    if c >= col {
                        self.col = c;
                        proof {
                            assert(self@ =~~= spec_search_back(d0, match_cursor));
                        }
                        return true;
                    }
                },
                None => {},
            }
        }
        proof {
            assert(self@ =~~= spec_search_back(d0, match_cursor));
        }
        false
    }
}

} // verus!
