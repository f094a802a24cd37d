//! Laws that relate several operations of the editor: the strict two-key
//! go-to-top sequence, the delete-line/paste round trip, and the
//! alias-independence of link resolution.

use vstd::prelude::*;

use crate::document::DocView;
use crate::document::first_match_from;
use crate::document::lemma_first_match_at;
use crate::document::lemma_no_match;
use crate::document::occurs_at;
use crate::input::Input;
use crate::input::Key;
use crate::link::link_target;
use crate::vim::Mode;
use crate::vim::Transition;
use crate::vim::pending_is_g;
use crate::vim::step;

verus! {

/// In Normal mode the go-to-top key moves the cursor to the first row only
/// as the second key of its two-key sequence: with a plain `g` pending it
/// moves to row zero and changes no text; with anything else pending the key
/// itself only becomes the new pending key, and the document does not move.
#[verifier::rlimit(100)]
#[verifier::spinoff_prover]
pub proof fn lemma_two_key_top(d: DocView, pending: Input)
    requires
        d.wf(),
    ensures
        ({
            let g = Input { key: Key::Char('g'), ctrl: false, alt: false, shift: false };
            let (t1, d1) = step(Mode::Normal, g, g, d);
            t1 == Transition::Nop && d1.row == 0 && d1.lines == d.lines
        }),
        ({
            let g = Input { key: Key::Char('g'), ctrl: false, alt: false, shift: false };
            !pending_is_g(pending) ==> step(Mode::Normal, pending, g, d) == (
                Transition::Pending(g),
                d,
            )
        }),
{
}

/// Deleting the only line with the doubled operator key and pasting restores
/// the document's text: `d`, `d`, `p` on a single-line buffer yields the same
/// line again. (On an empty line the delete yanks nothing, so the register
/// must be empty for the paste to add nothing back.)
#[verifier::rlimit(100)]
#[verifier::spinoff_prover]
pub proof fn lemma_dd_paste_restores(d: DocView)
    requires
        d.wf(),
        d.lines.len() == 1,
        d.anchor is None,
        d.cur_line().len() > 0 || d.yank.len() == 0,
    ensures
        ({
            let dk = Input { key: Key::Char('d'), ctrl: false, alt: false, shift: false };
            let pk = Input { key: Key::Char('p'), ctrl: false, alt: false, shift: false };
            let nul = Input { key: Key::Null, ctrl: false, alt: false, shift: false };
            let (t1, d1) = step(Mode::Normal, nul, dk, d);
            let (t2, d2) = step(Mode::Operator('d'), nul, dk, d1);
            let (t3, d3) = step(Mode::Normal, nul, pk, d2);
            &&& t1 == Transition::Mode(Mode::Operator('d'))
            &&& t2 == Transition::Mode(Mode::Normal)
            &&& t3 == Transition::Mode(Mode::Normal)
            &&& d3.lines == d.lines
        }),
{
    let dk = Input { key: Key::Char('d'), ctrl: false, alt: false, shift: false };
    let pk = Input { key: Key::Char('p'), ctrl: false, alt: false, shift: false };
    let nul = Input { key: Key::Null, ctrl: false, alt: false, shift: false };
    let line = d.cur_line();
    let n = line.len() as int;
    let (t1, d1) = step(Mode::Normal, nul, dk, d);
    assert(d1 == (DocView { anchor: Some((d.row, d.col)), ..d }));
    let (t2, d2) = step(Mode::Operator('d'), nul, dk, d1);
    if n > 0 {
        assert(line.take(0) + line.skip(n) =~= Seq::<char>::empty());
        assert(line.subrange(0, n) =~= line);
        assert(d2.lines =~= seq![Seq::<char>::empty()]);
        assert(d2.yank =~= seq![line]);
        assert(d2.row == 0 && d2.col == 0 && d2.anchor is None);
        let (t3, d3) = step(Mode::Normal, nul, pk, d2);
        assert(d2.cur_line().take(0) + line + d2.cur_line().skip(0) =~= line);
        assert(d3.lines =~= d2.lines.update(0, line));
        assert(d3.lines =~= d.lines);
    } else {
        assert(line =~= Seq::<char>::empty());
        assert(d2 == (DocView { anchor: None, ..d1 }));
        let (t3, d3) = step(Mode::Normal, nul, pk, d2);
        assert(d3.lines =~= d.lines);
    }
}

/// Following a link ignores the display alias: on a line holding
/// `[[target|alias]]` with the cursor inside the span, the resolved path is
/// the target with the note extension, whatever the alias says.
pub proof fn lemma_alias_ignored(target: Seq<char>, alias: Seq<char>, col: int)
    requires
        forall|j: int|
            0 <= j < target.len() ==> target[j] != '[' && target[j] != ']' && target[j] != '|',
        forall|j: int| 0 <= j < alias.len() ==> alias[j] != '[' && alias[j] != ']',
        1 <= col <= 2 + target.len() + 1 + alias.len(),
    ensures
        ({
            let line = "[["@ + target + "|"@ + alias + "]]"@;
            link_target(line, col) == Some(target + ".md"@)
        }),
{
    reveal_strlit("[[");
    reveal_strlit("]]");
    reveal_strlit("|");
    reveal_strlit(".md");
    let line = "[["@ + target + "|"@ + alias + "]]"@;
    let tl = target.len() as int;
    let al = alias.len() as int;
    let e = 2 + tl + 1 + al;
    assert(line.len() == e + 2);
    // where each character of the line comes from
    assert forall|j: int| 0 <= j < line.len() implies line[j] == (if j < 2 {
        "[["@[j]
    } else if j < 2 + tl {
        target[j - 2]
    } else if j == 2 + tl {
        '|'
    } else if j < e {
        alias[j - 2 - tl - 1]
    } else {
        ']'
    }) by {
        assert(line[j] == ("[["@ + target + "|"@ + alias + "]]"@)[j]);
    }
    // the opener is first at position 0
    assert(line.subrange(0, 2) =~= "[["@);
    assert(occurs_at(line, "[["@, 0));
    assert(first_match_from(line, "[["@, 0) == Some(0int));
    // the closer is first at position e
    assert(line.subrange(e, e + 2) =~= "]]"@);
    assert(occurs_at(line, "]]"@, e));
    assert forall|k: int| 0 <= k < e implies !occurs_at(line, "]]"@, k) by {
        if occurs_at(line, "]]"@, k) {
            assert(line.subrange(k, k + 2)[0] == line[k]);
            assert(line[k] == ']');
        }
    }
    lemma_first_match_at(line, "]]"@, 0, e);
    // the prefix up to just past the cursor has opened the span and not
    // closed it
    let col2 = if col + 1 > line.len() {
        col
    } else {
        col + 1
    };
    let prefix = line.take(col2);
    assert(col2 == col + 1);
    assert(prefix.subrange(0, 2) =~= "[["@);
    assert(occurs_at(prefix, "[["@, 0));
    assert(first_match_from(prefix, "[["@, 0) == Some(0int));
    assert forall|k: int| 0 <= k implies !occurs_at(prefix, "]]"@, k) by {
        if occurs_at(prefix, "]]"@, k) {
            assert(prefix.subrange(k, k + 2) =~= line.subrange(k, k + 2));
            assert(occurs_at(line, "]]"@, k));
            assert(k + 2 <= prefix.len());
            assert(k < e);
        }
    }
    lemma_no_match(prefix, "]]"@, 0);
    // the alias part after the separator does not matter
    let inside = line.subrange(2, e);
    assert(inside =~= target + "|"@ + alias);
    assert(occurs_at(inside, "|"@, tl)) by {
        assert(inside.subrange(tl, tl + 1) =~= "|"@);
    }
    assert forall|k: int| 0 <= k < tl implies !occurs_at(inside, "|"@, k) by {
        if occurs_at(inside, "|"@, k) {
            assert(inside.subrange(k, k + 1)[0] == inside[k]);
            assert(inside[k] == '|');
            assert(inside[k] == target[k]);
        }
    }
    lemma_first_match_at(inside, "|"@, 0, tl);
    assert(inside.take(tl) =~= target);
}

} // verus!
