//! Plain-text building blocks: lines as vectors of characters, together with
//! the helpers the rest of the crate states its contracts with.

use vstd::prelude::*;

verus! {

/// The mathematical content of a list of lines.
pub open spec fn view_lines(s: Seq<Vec<char>>) -> Seq<Seq<char>> {
    Seq::new(s.len(), |i: int| s[i]@)
}

/// A line never holds a line terminator; terminators exist only in the
/// serialized form of a document.
pub open spec fn line_clean(l: Seq<char>) -> bool {
    forall|j: int| 0 <= j < l.len() ==> l[j] != '\n'
}

/// All lines of a buffer are free of line terminators.
pub open spec fn lines_clean(ls: Seq<Seq<char>>) -> bool {
    forall|i: int| 0 <= i < ls.len() ==> #[trigger] line_clean(ls[i])
}

/// An exact copy of one line.
pub fn copy_line(v: &Vec<char>) -> (r: Vec<char>)
    ensures
        r@ == v@,
{
    let mut r: Vec<char> = Vec::new();
    let mut i: usize = 0;
    while i < v.len()
        invariant
            i <= v.len(),
            r@ == v@.subrange(0, i as int),
        decreases v.len() - i,
    {
        r.push(v[i]);
        i = i + 1;
        proof {
            assert(r@ =~= v@.subrange(0, i as int));
        }
    }
    proof {
        assert(r@ =~= v@);
    }
    r
}

/// An exact copy of a list of lines.
pub fn copy_lines(v: &Vec<Vec<char>>) -> (r: Vec<Vec<char>>)
    ensures
        view_lines(r@) == view_lines(v@),
        r@.len() == v@.len(),
{
    let mut r: Vec<Vec<char>> = Vec::new();
    let mut i: usize = 0;
    while i < v.len()
        invariant
            i <= v.len(),
            r@.len() == i,
            forall|k: int| 0 <= k < i ==> r@[k]@ == v@[k]@,
        decreases v.len() - i,
    {
        r.push(copy_line(&v[i]));
        i = i + 1;
    }
    proof {
        assert(view_lines(r@) =~~= view_lines(v@));
    }
    r
}

/// The characters of `v` from `a` (inclusive) to `b` (exclusive).
pub fn subvec(v: &Vec<char>, a: usize, b: usize) -> (r: Vec<char>)
    requires
        a <= b <= v@.len(),
    ensures
        r@ == v@.subrange(a as int, b as int),
{
    let mut r: Vec<char> = Vec::new();
    let mut i: usize = a;
    while i < b
        invariant
            a <= i <= b <= v@.len(),
            r@ == v@.subrange(a as int, i as int),
        decreases b - i,
    {
        r.push(v[i]);
        i = i + 1;
        proof {
            assert(r@ =~= v@.subrange(a as int, i as int));
        }
    }
    r
}

/// The concatenation of two lines.
pub fn concat_chars(a: &Vec<char>, b: &Vec<char>) -> (r: Vec<char>)
    ensures
        r@ == a@ + b@,
{
    let mut r = copy_line(a);
    let mut i: usize = 0;
    while i < b.len()
        invariant
            i <= b.len(),
            r@ == a@ + b@.subrange(0, i as int),
        decreases b.len() - i,
    {
        r.push(b[i]);
        i = i + 1;
        proof {
            assert(r@ =~= a@ + b@.subrange(0, i as int));
        }
    }
    proof {
        assert(r@ =~= a@ + b@);
    }
    r
}

/// Whether two pieces of text hold the same characters.
pub fn chars_eq(a: &Vec<char>, b: &Vec<char>) -> (r: bool)
    ensures
        r == (a@ == b@),
{
    if a.len() != b.len() {
        proof {
            assert(a@ != b@);
        }
        return false;
    }
    let mut i: usize = 0;
    while i < a.len()
        invariant
            i <= a.len(),
            a@.len() == b@.len(),
            forall|k: int| 0 <= k < i ==> a@[k] == b@[k],
        decreases a.len() - i,
    {
        if a[i] != b[i] {
            return false;
        }
        i = i + 1;
    }
    proof {
        assert(a@ =~= b@);
    }
    true
}

/// The characters of a string slice, in order.
pub fn str_chars(s: &str) -> (r: Vec<char>)
    ensures
        r@ == s@,
{
    let n = s.unicode_len();
    let mut r: Vec<char> = Vec::new();
    let mut i: usize = 0;
    while i < n
        invariant
            i <= n,
            n == s@.len(),
            r@ == s@.subrange(0, i as int),
        decreases n - i,
    {
        r.push(s.get_char(i));
        i = i + 1;
        proof {
            assert(r@ =~= s@.subrange(0, i as int));
        }
    }
    proof {
        assert(r@ =~= s@);
    }
    r
}

/// Relies on `String: FromIterator<char>`: collecting characters yields the
/// string with exactly those characters in order.
#[verifier::external_body]
pub fn chars_string(v: &Vec<char>) -> (r: String)
    ensures
        r@ == v@,
{
    v.iter().collect()
}

/// Whether two string slices hold the same characters.
pub fn str_eq(a: &str, b: &str) -> (r: bool)
    ensures
        r == (a@ == b@),
{
    let va = str_chars(a);
    let vb = str_chars(b);
    chars_eq(&va, &vb)
}


// ---------------------------------------------------------------------------
// The persisted form of a buffer
// ---------------------------------------------------------------------------

/// The serialized form of a buffer: every line followed by one terminator.
pub open spec fn spec_serialize(ls: Seq<Seq<char>>) -> Seq<char>
    decreases ls.len(),
{
    if ls.len() == 0 {
        Seq::empty()
    } else {
        ls[0] + seq!['\n'] + spec_serialize(ls.skip(1))
    }
}

/// The first terminator at or after position `i`.
pub open spec fn find_nl(t: Seq<char>, i: int) -> Option<int>
    decreases t.len() - i,
{
    if i < 0 || i >= t.len() {
        None
    } else if t[i] == '\n' {
        Some(i)
    } else {
        find_nl(t, i + 1)
    }
}

/// Text split at terminators, as a reader of the persisted form splits it: a
/// trailing terminator produces no final empty line.
pub open spec fn spec_parse(t: Seq<char>) -> Seq<Seq<char>>
    decreases t.len(),
    via spec_parse_decreases
{
    if t.len() == 0 {
        Seq::empty()
    } else {
        match find_nl(t, 0) {
            Some(j) => seq![t.take(j)] + spec_parse(t.skip(j + 1)),
            None => seq![t],
        }
    }
}

/// A found terminator lies inside the text.
pub proof fn lemma_find_nl_bounds(t: Seq<char>, i: int)
    requires
        find_nl(t, i) is Some,
    ensures
        i <= find_nl(t, i)->0 < t.len(),
        t[find_nl(t, i)->0] == '\n',
    decreases t.len() - i,
{
    if 0 <= i < t.len() && t[i] != '\n' {
        lemma_find_nl_bounds(t, i + 1);
    }
}

#[via_fn]
proof fn spec_parse_decreases(t: Seq<char>) {
    if t.len() != 0 && find_nl(t, 0) is Some {
        lemma_find_nl_bounds(t, 0);
    }
}

/// Serializing one more line appends that line and a terminator.
pub proof fn lemma_serialize_snoc(ls: Seq<Seq<char>>)
    requires
        ls.len() > 0,
    ensures
        spec_serialize(ls) == spec_serialize(ls.drop_last()) + ls.last() + seq!['\n'],
    decreases ls.len(),
{
    if ls.len() == 1 {
        assert(ls.skip(1) =~= Seq::<Seq<char>>::empty());
        assert(ls.drop_last() =~= Seq::<Seq<char>>::empty());
        assert(spec_serialize(ls) =~= spec_serialize(ls.drop_last()) + ls.last() + seq!['\n']);
    } else {
        lemma_serialize_snoc(ls.skip(1));
        assert(ls.skip(1).drop_last() =~= ls.drop_last().skip(1));
        assert(ls.drop_last()[0] == ls[0]);
        assert(ls.skip(1).last() == ls.last());
        assert(spec_serialize(ls) =~= spec_serialize(ls.drop_last()) + ls.last() + seq!['\n']);
    }
}

/// If the terminator at `j` is the first one at or after `i`, the scan finds
/// it.
pub proof fn lemma_find_nl_at(t: Seq<char>, i: int, j: int)
    requires
        0 <= i <= j < t.len(),
        t[j] == '\n',
        forall|k: int| i <= k < j ==> t[k] != '\n',
    ensures
        find_nl(t, i) == Some(j),
    decreases j - i,
{
    if i < j {
        lemma_find_nl_at(t, i + 1, j);
    }
}

/// Parsing undoes serializing: for any buffer of terminator-free lines, the
/// persisted form reads back as exactly the same lines. This is the round
/// trip that `save` followed by `open` of the same path performs.
pub proof fn lemma_parse_serialize(ls: Seq<Seq<char>>)
    requires
        lines_clean(ls),
    ensures
        spec_parse(spec_serialize(ls)) == ls,
    decreases ls.len(),
{
    if ls.len() == 0 {
        assert(spec_parse(spec_serialize(ls)) =~= ls);
    } else {
        let t = spec_serialize(ls);
        let n = ls[0].len() as int;
        assert(line_clean(ls[0]));
        assert(t[n] == '\n');
        assert(forall|k: int| 0 <= k < n ==> t[k] == ls[0][k]);
        lemma_find_nl_at(t, 0, n);
        assert(t.take(n) =~= ls[0]);
        assert(t.skip(n + 1) =~= spec_serialize(ls.skip(1)));
        assert(lines_clean(ls.skip(1)));
        lemma_parse_serialize(ls.skip(1));
        assert(spec_parse(t) =~= ls);
    }
}

/// The persisted form of a buffer, computed.
pub fn serialize_lines(lines: &Vec<Vec<char>>) -> (r: Vec<char>)
    ensures
        r@ == spec_serialize(view_lines(lines@)),
{
    let ghost vl = view_lines(lines@);
    let mut r: Vec<char> = Vec::new();
    let mut i: usize = 0;
    proof {
        assert(vl.take(0) =~= Seq::<Seq<char>>::empty());
    }
    while i < lines.len()
        invariant
            i <= lines@.len(),
            vl == view_lines(lines@),
            r@ == spec_serialize(vl.take(i as int)),
        decreases lines.len() - i,
    {
        let line = &lines[i];
        let mut j: usize = 0;
        while j < line.len()
            invariant
                j <= line@.len(),
                i < lines@.len(),
                vl == view_lines(lines@),
                line@ == vl[i as int],
                r@ == spec_serialize(vl.take(i as int)) + line@.take(j as int),
            decreases line.len() - j,
        {
            r.push(line[j]);
            j = j + 1;
            proof {
                assert(r@ =~= spec_serialize(vl.take(i as int)) + line@.take(j as int));
            }
        }
        r.push('\n');
        i = i + 1;
        proof {
            lemma_serialize_snoc(vl.take(i as int));
            assert(vl.take(i as int).drop_last() =~= vl.take(i - 1));
            assert(vl.take(i as int).last() == vl[i - 1]);
            assert(r@ =~= spec_serialize(vl.take(i as int)));
        }
    }
    proof {
        assert(vl.take(lines@.len() as int) =~= vl);
    }
    r
}

/// The first terminator in the text, computed.
fn find_newline(t: &Vec<char>) -> (r: Option<usize>)
    ensures
        match r {
            Some(j) => find_nl(t@, 0) == Some(j as int) && j < t@.len(),
            None => find_nl(t@, 0) is None,
        },
{
    let mut k: usize = 0;
    while k < t.len()
        invariant
            k <= t@.len(),
            find_nl(t@, 0) == find_nl(t@, k as int),
        decreases t.len() - k,
    {
        if t[k] == '\n' {
            return Some(k);
        }
        k = k + 1;
    }
    None
}

/// Text split at terminators, computed; the pieces are terminator-free.
pub fn parse_text(t: &Vec<char>) -> (r: Vec<Vec<char>>)
    ensures
        view_lines(r@) == spec_parse(t@),
        lines_clean(view_lines(r@)),
{
    let mut out: Vec<Vec<char>> = Vec::new();
    let mut rest: Vec<char> = copy_line(t);
    proof {
        assert(view_lines(out@) + spec_parse(rest@) =~= spec_parse(t@));
    }
    loop
        invariant
            view_lines(out@) + spec_parse(rest@) == spec_parse(t@),
            lines_clean(view_lines(out@)),
        decreases rest@.len(),
    {
        if rest.len() == 0 {
            proof {
                assert(view_lines(out@) =~= spec_parse(t@));
            }
            return out;
        }
        match find_newline(&rest) {
            Some(j) => {
                let ghost rest0 = rest@;
                let ghost old_out = out@;
                let piece = subvec(&rest, 0, j);
                let rest_len = rest.len();
                let new_rest = subvec(&rest, j + 1, rest_len);
                out.push(piece);
                rest = new_rest;
                proof {
                    assert(rest0.take(j as int) =~= piece@);
                    assert(rest@ =~= rest0.skip(j + 1));
                    assert forall|k: int| 0 <= k < piece@.len() implies piece@[k] != '\n' by {
                        lemma_find_nl_first(rest0, 0, k);
                    }
                    assert(line_clean(piece@));
                    assert forall|k: int| 0 <= k < out@.len() implies line_clean(
                        #[trigger] view_lines(out@)[k],
                    ) by {
                        if k < out@.len() - 1 {
                            assert(view_lines(out@)[k] == view_lines(old_out)[k]);
                        } else {
                            assert(view_lines(out@)[k] == piece@);
                        }
                    }
                    assert(view_lines(out@) + spec_parse(rest@) =~= spec_parse(t@));
                }
            },
            None => {
                let ghost rest0 = rest@;
                let ghost old_out = out@;
                proof {
                    assert forall|k: int| 0 <= k < rest0.len() implies rest0[k] != '\n' by {
                        lemma_find_nl_none(rest0, 0, k);
                    }
                }
                out.push(rest);
                proof {
                    assert forall|k: int| 0 <= k < out@.len() implies line_clean(
                        #[trigger] view_lines(out@)[k],
                    ) by {
                        if k < out@.len() - 1 {
                            assert(view_lines(out@)[k] == view_lines(old_out)[k]);
                        } else {
                            assert(view_lines(out@)[k] == rest0);
                        }
                    }
                    assert(view_lines(out@) =~= spec_parse(t@));
                }
                return out;
            },
        }
    }
}

/// Before the first terminator the scan finds, there is no terminator.
proof fn lemma_find_nl_first(t: Seq<char>, i: int, k: int)
    requires
        0 <= i <= k,
        find_nl(t, i) is Some,
        k < find_nl(t, i)->0,
    ensures
        t[k] != '\n',
    decreases k - i,
{
    if i < k {
        lemma_find_nl_first(t, i + 1, k);
    }
}

/// When the scan finds no terminator, there is none.
proof fn lemma_find_nl_none(t: Seq<char>, i: int, k: int)
    requires
        0 <= i <= k < t.len(),
        find_nl(t, i) is None,
    ensures
        t[k] != '\n',
    decreases k - i,
{
    if i < k {
        lemma_find_nl_none(t, i + 1, k);
    }
}

} // verus!
