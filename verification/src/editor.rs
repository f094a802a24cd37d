//! One tab: an ordered list of documents sharing a visual slot, with a
//! current index. A tab holds at most one document per backing path, so
//! re-opening a loaded path switches to the existing document instead of
//! duplicating it.

use vstd::prelude::*;

use crate::document::DocView;
use crate::document::Document;
use crate::document::view_path;
use crate::text::lines_clean;
use crate::text::spec_serialize;
use crate::text::str_chars;
use crate::text::view_lines;

verus! {

/// The mathematical model of an [`Editor`].
#[verifier::ext_equal]
pub ghost struct EdView {
    /// The open documents, in opening order; never empty.
    pub docs: Seq<DocView>,
    /// The index of the document being shown.
    pub current: int,
}

/// One tab of open documents.
pub struct Editor {
    /// The open documents, in opening order; never empty.
    pub docs: Vec<Document>,
    /// The index of the document being shown.
    pub current: usize,
}

/// The models of a list of documents.
pub open spec fn docs_view(ds: Seq<Document>) -> Seq<DocView> {
    Seq::new(ds.len(), |i: int| ds[i]@)
}

impl View for Editor {
    type V = EdView;

    open spec fn view(&self) -> EdView {
        EdView { docs: docs_view(self.docs@), current: self.current as int }
    }
}

impl EdView {
    /// The document being shown.
    pub open spec fn cur_doc(self) -> DocView {
        self.docs[self.current]
    }

    /// Well-formedness: a shown document exists, every document is
    /// well-formed, and no two documents share a backing path.
    pub open spec fn wf(self) -> bool {
        &&& self.docs.len() >= 1
        &&& 0 <= self.current < self.docs.len()
        &&& forall|i: int| 0 <= i < self.docs.len() ==> (#[trigger] self.docs[i]).wf()
        &&& forall|i: int, j: int|
            #![trigger self.docs[i], self.docs[j]]
            0 <= i < j < self.docs.len() && self.docs[i].path is Some ==> self.docs[i].path
                != self.docs[j].path
    }
}

/// A freshly opened document over the given lines and path.
pub open spec fn fresh_doc(lines: Seq<Seq<char>>, path: Option<Seq<char>>) -> DocView {
    DocView {
        lines,
        row: 0,
        col: 0,
        anchor: None,
        yank: Seq::empty(),
        undo: Seq::empty(),
        redo: Seq::empty(),
        path,
        pattern: Seq::empty(),
        view_rows: 24,
    }
}

/// The index of the document backed by the given path, if any.
pub open spec fn find_path(docs: Seq<DocView>, p: Seq<char>, i: int) -> Option<int>
    decreases docs.len() - i,
{
    if i < 0 || i >= docs.len() {
        None
    } else if docs[i].path == Some(p) {
        Some(i)
    } else {
        find_path(docs, p, i + 1)
    }
}

/// File contents normalized into a non-empty buffer: an empty file shows as
/// one empty line.
pub open spec fn norm_lines(ls: Seq<Seq<char>>) -> Seq<Seq<char>> {
    if ls.len() == 0 {
        seq![Seq::<char>::empty()]
    } else {
        ls
    }
}

impl Editor {
    /// A tab holding the scratch introduction buffer.
    pub fn new() -> (e: Editor)
        ensures
            e@.wf(),
            e@.docs.len() == 1,
            e@.current == 0,
            e@.docs[0].path is None,
            e@.docs[0] == fresh_doc(
                seq!["Press ':' and type search to search for notes"@],
                None,
            ),
    {
        let line = str_chars("Press ':' and type search to search for notes");
        let mut lines: Vec<Vec<char>> = Vec::new();
        lines.push(line);
        proof {
            assert(view_lines(lines@) =~= seq!["Press ':' and type search to search for notes"@]);
            assert forall|i: int| 0 <= i < view_lines(lines@).len() implies crate::text::line_clean(
                #[trigger] view_lines(lines@)[i],
            ) by {
                reveal_strlit("Press ':' and type search to search for notes");
            }
        }
        let doc = Document::from_lines(lines, None);
        let mut docs: Vec<Document> = Vec::new();
        docs.push(doc);
        let e = Editor { docs, current: 0 };
        proof {
            assert(e@.docs[0] =~~= fresh_doc(
                seq!["Press ':' and type search to search for notes"@],
                None,
            ));
        }
        e
    }

    /// The backing path of the shown document, copied out.
    pub fn path(&self) -> (p: Option<Vec<char>>)
        requires
            self@.wf(),
        ensures
            view_path(p) == self@.cur_doc().path,
    {
        match &self.docs[self.current].path {
            Option::None => Option::None,
            Option::Some(v) => Option::Some(crate::text::copy_line(v)),
        }
    }

    /// The shown document.
    pub fn document(&self) -> (d: &Document)
        requires
            self@.wf(),
        ensures
            d@ == self@.cur_doc(),
    {
        &self.docs[self.current]
    }

    /// Switch the tab to the document backed by `path`, if one is loaded; the
    /// documents themselves — their text and their histories — stay untouched.
    pub fn switch_to_path(&mut self, path: &Vec<char>) -> (found: bool)
        requires
            old(self)@.wf(),
        ensures
            final(self)@.docs == old(self)@.docs,
            match find_path(old(self)@.docs, path@, 0) {
                Some(i) => found && final(self)@.current == i,
                None => !found && final(self)@.current == old(self)@.current,
            },
            final(self)@.wf(),
    {
        let mut i: usize = 0;
        while i < self.docs.len()
            invariant
                i <= self@.docs.len(),
                self@ == old(self)@,
                self@.wf(),
                find_path(self@.docs, path@, 0) == find_path(self@.docs, path@, i as int),
            decreases self.docs.len() - i,
        {
            let hit = match &self.docs[i].path {
                Option::Some(v) => crate::text::chars_eq(v, path),
                Option::None => false,
            };
            if hit {
                proof {
                    assert(find_path(self@.docs, path@, i as int) == Some(i as int));
                }
                self.current = i;
                return true;
            }
            i = i + 1;
        }
        proof {
            assert(find_path(self@.docs, path@, self@.docs.len() as int) is None);
        }
        false
    }

    /// Open a file's contents under a path: if the path is already loaded the
    /// tab switches to it, otherwise a fresh document is appended and shown.
    pub fn open(&mut self, path: Vec<char>, lines: Vec<Vec<char>>)
        requires
            old(self)@.wf(),
            lines_clean(view_lines(lines@)),
            crate::text::line_clean(path@),
        ensures
            match find_path(old(self)@.docs, path@, 0) {
                Some(i) => final(self)@.docs == old(self)@.docs && final(self)@.current == i,
                None => final(self)@.docs == old(self)@.docs.push(
                    fresh_doc(norm_lines(view_lines(lines@)), Some(path@)),
                ) && final(self)@.current == old(self)@.docs.len(),
            },
            final(self)@.wf(),
    {
        let ghost e0 = self@;
        if self.switch_to_path(&path) {
            return ;
        }
        let lines2 = if lines.len() == 0 {
            let mut l: Vec<Vec<char>> = Vec::new();
            l.push(Vec::new());
            proof {
                assert(view_lines(l@) =~= norm_lines(view_lines(lines@)));
            }
            l
        } else {
            lines
        };
        let doc = Document::from_lines(lines2, Some(path));
        let newidx = self.docs.len();
        self.docs.push(doc);
        self.current = newidx;
        proof {
            assert(self@.docs =~~= e0.docs.push(
                fresh_doc(norm_lines(view_lines(lines@)), Some(view_path(doc.path)->0)),
            ));
            lemma_find_path_none(e0.docs, self@.docs[e0.docs.len() as int].path->0, 0);
            assert forall|i: int, j: int|
                #![trigger self@.docs[i], self@.docs[j]]
                0 <= i < j < self@.docs.len() && self@.docs[i].path is Some implies self@.docs[i].path
                != self@.docs[j].path by {
                if j == self@.docs.len() - 1 {
                }
            }
        }
    }

    /// What `save` writes: the shown document's path and its serialized
    /// lines, or nothing for a scratch buffer.
    pub fn save(&self) -> (r: Option<(Vec<char>, Vec<char>)>)
        requires
            self@.wf(),
        ensures
            match self@.cur_doc().path {
                None => r is None,
                Some(p) => r matches Some((rp, content)) && rp@ == p && content@ == spec_serialize(
                    self@.cur_doc().lines,
                ),
            },
    {
        match &self.docs[self.current].path {
            Option::None => Option::None,
            Option::Some(p) => {
                let rp = crate::text::copy_line(p);
                let content = crate::text::serialize_lines(&self.docs[self.current].lines);
                Option::Some((rp, content))
            },
        }
    }

    /// Show the next document, clamped at the last.
    pub fn next_buffer(&mut self)
        requires
            old(self)@.wf(),
        ensures
            final(self)@.docs == old(self)@.docs,
            final(self)@.current == if old(self)@.current != old(self)@.docs.len() - 1 {
                old(self)@.current + 1
            } else {
                old(self)@.current
            },
            final(self)@.wf(),
    {
        if self.current != self.docs.len() - 1 {
            self.current = self.current + 1;
        }
    }

    /// Show the previous document, clamped at the first.
    pub fn previous_buffer(&mut self)
        requires
            old(self)@.wf(),
        ensures
            final(self)@.docs == old(self)@.docs,
            final(self)@.current == if old(self)@.current != 0 {
                old(self)@.current - 1
            } else {
                0
            },
            final(self)@.wf(),
    {
        if self.current != 0 {
            self.current = self.current - 1;
        }
    }
}

/// When the scan for a path found nothing, no document carries it.
pub proof fn lemma_find_path_none(docs: Seq<DocView>, p: Seq<char>, i: int)
    requires
        0 <= i,
        find_path(docs, p, i) is None,
    ensures
        forall|k: int| i <= k < docs.len() ==> (#[trigger] docs[k]).path != Some(p),
    decreases docs.len() - i,
{
    if i < docs.len() {
        lemma_find_path_none(docs, p, i + 1);
    }
}

} // verus!
