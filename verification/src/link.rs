//! Wiki-style links: recognizing a `[[target]]` or `[[target|alias]]` span
//! on a line, resolving its target to a note path, and rewriting an open
//! span when an autocomplete candidate is accepted.

use vstd::prelude::*;

use crate::document::DocView;
use crate::document::Document;
use crate::document::first_match_from;
use crate::document::find_from;
use crate::document::spec_replace_in_line;
use crate::text::line_clean;
use crate::text::str_chars;
use crate::text::subvec;

verus! {

/// The note path a follow-link on this line and cursor column resolves to:
/// the text between the first `[[` and the first `]]`, any `|alias` part
/// dropped, with the note extension appended. There is a link only when the
/// text up to just past the cursor has opened a span without closing it, and
/// the line closes it somewhere.
pub open spec fn link_target(line: Seq<char>, col: int) -> Option<Seq<char>> {
    let col2 = if col + 1 > line.len() {
        col
    } else {
        col + 1
    };
    let prefix = line.take(col2);
    if first_match_from(prefix, "[["@, 0) is Some && first_match_from(prefix, "]]"@, 0) is None {
        match (first_match_from(line, "[["@, 0), first_match_from(line, "]]"@, 0)) {
            (Some(s), Some(e)) => {
                let start = s + 2;
                if start <= e {
                    let inside = line.subrange(start, e);
                    let target = match first_match_from(inside, "|"@, 0) {
                        Some(p) => inside.take(p),
                        None => inside,
                    };
                    Some(target + ".md"@)
                } else {
                    None
                }
            },
            _ => None,
        }
    } else {
        None
    }
}

/// Computes [`link_target`] for the line under the cursor.
pub fn link_target_at(line: &Vec<char>, col: usize) -> (r: Option<Vec<char>>)
    requires
        col <= line@.len(),
    ensures
        match r {
            Some(p) => link_target(line@, col as int) == Some(p@),
            None => link_target(line@, col as int) is None,
        },
{
    let open_pat = str_chars("[[");
    let close_pat = str_chars("]]");
    let line_len = line.len();
    let col2 = if col >= line_len {
        col
    } else {
        col + 1
    };
    let prefix = subvec(line, 0, col2);
    proof {
        reveal_strlit("[[");
        reveal_strlit("]]");
        reveal_strlit("|");
        reveal_strlit(".md");
    }
    if find_from(&prefix, &open_pat, 0).is_none() {
        return Option::None;
    }
    if find_from(&prefix, &close_pat, 0).is_some() {
        return Option::None;
    }
    let s = match find_from(line, &open_pat, 0) {
        Option::Some(s) => s,
        Option::None => {
            return Option::None;
        },
    };
    let e = match find_from(line, &close_pat, 0) {
        Option::Some(e) => e,
        Option::None => {
            return Option::None;
        },
    };
    let start = s + 2;
    if start > e {
        return Option::None;
    }
    let inside = subvec(line, start, e);
    let bar = str_chars("|");
    let target = match find_from(&inside, &bar, 0) {
        Option::Some(p) => subvec(&inside, 0, p),
        Option::None => inside,
    };
    let ext = str_chars(".md");
    let full = crate::text::concat_chars(&target, &ext);
    Option::Some(full)
}

/// Whether the line has opened a `[[` span without closing it yet: the
/// condition under which the autocomplete dialog engages.
pub open spec fn spec_open_span(line: Seq<char>) -> bool {
    first_match_from(line, "[["@, 0) is Some && first_match_from(line, "]]"@, 0) is None
}

/// Computes [`spec_open_span`].
pub fn has_open_span(line: &Vec<char>) -> (r: bool)
    ensures
        r == spec_open_span(line@),
{
    let open_pat = str_chars("[[");
    let close_pat = str_chars("]]");
    proof {
        reveal_strlit("[[");
        reveal_strlit("]]");
    }
    find_from(line, &open_pat, 0).is_some() && find_from(line, &close_pat, 0).is_none()
}

/// The span text written when a candidate is accepted: the candidate without
/// its three-character note extension, closed with `]]`.
pub open spec fn accepted_link(chosen: Seq<char>) -> Seq<char> {
    let base = if chosen.len() >= 3 {
        chosen.take(chosen.len() - 3)
    } else {
        chosen
    };
    base + "]]"@
}

/// The document after accepting an autocomplete candidate: the text from just
/// after the first `[[` of the current line up to the cursor is replaced by
/// the accepted span text; what follows the cursor stays, and so does the
/// yank register. A line without `[[` is left alone.
pub open spec fn spec_accept(d: DocView, chosen: Seq<char>) -> DocView {
    match first_match_from(d.cur_line(), "[["@, 0) {
        Some(s) => {
            let start = s + 2;
            let end = if d.col >= start {
                d.col
            } else {
                start
            };
            spec_replace_in_line(d, start, end, accepted_link(chosen))
        },
        None => d,
    }
}

/// Rewrite the open span of the current line with an accepted candidate.
pub fn accept_autocomplete(doc: &mut Document, chosen: &Vec<char>)
    requires
        old(doc)@.wf(),
        line_clean(chosen@),
    ensures
        final(doc)@ == spec_accept(old(doc)@, chosen@),
        final(doc)@.wf(),
{
    let ghost d0 = doc@;
    let open_pat = str_chars("[[");
    proof {
        reveal_strlit("[[");
        reveal_strlit("]]");
    }
    let (row, col) = doc.cursor();
    let line_len = doc.line_at(row).len();
    let s = match find_from(doc.line_at(row), &open_pat, 0) {
        Option::Some(s) => s,
        Option::None => {
            return ;
        },
    };
    proof {
        assert(s + 2 <= line_len);
    }
    let start = s + 2;
    let end = if col >= start {
        col
    } else {
        start
    };
    let close = str_chars("]]");
    let base = if chosen.len() >= 3 {
        subvec(chosen, 0, chosen.len() - 3)
    } else {
        crate::text::copy_line(chosen)
    };
    let link = crate::text::concat_chars(&base, &close);
    proof {
        assert(link@ =~= accepted_link(chosen@));
        assert(line_clean(accepted_link(chosen@))) by {
            crate::document::lemma_clean_take(chosen@, if chosen@.len() >= 3 {
                chosen@.len() - 3
            } else {
                chosen@.len() as int
            });
            assert(chosen@.take(chosen@.len() as int) =~= chosen@);
            crate::document::lemma_clean_concat(
                if chosen@.len() >= 3 {
                    chosen@.take(chosen@.len() - 3)
                } else {
                    chosen@
                },
                "]]"@,
            );
        }
    }
    doc.replace_in_line(start, end, &link);
}

} // verus!
