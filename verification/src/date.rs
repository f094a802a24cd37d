//! Template date expansion: the compact single/double-letter date tokens are
//! translated to the strftime-style codes the original notes use, greedily
//! and longest-first, and those codes are rendered against a clock reading.

use vstd::prelude::*;

use chrono::Datelike;
use chrono::Timelike;

use crate::text::chars_eq;
use crate::text::chars_string;
use crate::text::str_chars;
use crate::text::str_eq;
use crate::text::subvec;
use crate::text::line_clean;

verus! {

/// One clock reading, split into calendar fields.
#[derive(Clone, Copy, Debug, PartialEq, Eq, Structural)]
pub struct DateParts {
    /// The calendar year.
    pub year: i32,
    /// The month, `1..=12`.
    pub month: u8,
    /// The day of the month, `1..=31`.
    pub day: u8,
    /// The hour, `0..=23`.
    pub hour: u8,
    /// The minute, `0..=59`.
    pub minute: u8,
}

impl DateParts {
    /// The fields lie in their calendar ranges.
    pub open spec fn wf(self) -> bool {
        &&& 1 <= self.month <= 12
        &&& 1 <= self.day <= 31
        &&& self.hour <= 23
        &&& self.minute <= 59
    }
}

/// Relies on `chrono::Local::now` and the `Datelike`/`Timelike` accessors:
/// the current local time, split into calendar fields within their documented
/// ranges. What time comes back depends on the clock; only the ranges hold of
/// every outcome.
#[verifier::external_body]
pub fn local_now() -> (p: DateParts)
    ensures
        p.wf(),
{
    let now = chrono::Local::now();
    DateParts {
        year: now.year(),
        month: now.month() as u8,
        day: now.day() as u8,
        hour: now.hour() as u8,
        minute: now.minute() as u8,
    }
}

/// The strftime-style code a compact date token stands for; unknown text maps
/// to nothing.
pub open spec fn moment_to_chrono(m: Seq<char>) -> Seq<char> {
    if m == "M"@ {
        "%-m"@
    } else if m == "MM"@ {
        "%m"@
    } else if m == "MMM"@ {
        "%b"@
    } else if m == "MMMM"@ {
        "%B"@
    } else if m == "Y"@ {
        "%Y"@
    } else if m == "DD"@ {
        "%d"@
    } else if m == "D"@ {
        "%-d"@
    } else if m == "H"@ {
        "%-H"@
    } else if m == "HH"@ {
        "%H"@
    } else if m == "m"@ {
        "%-M"@
    } else if m == "mm"@ {
        "%M"@
    } else {
        Seq::empty()
    }
}

/// Whether the text is a recognized date token.
pub open spec fn is_tok(m: Seq<char>) -> bool {
    moment_to_chrono(m).len() != 0
}

/// Translate one compact date token; unknown text yields the empty string.
pub fn change_moment_syntax_to_chrono_syntax(moment: &str) -> (r: &str)
    ensures
        r@ == moment_to_chrono(moment@),
{
    if str_eq(moment, "M") {
        "%-m"
    } else if str_eq(moment, "MM") {
        "%m"
    } else if str_eq(moment, "MMM") {
        "%b"
    } else if str_eq(moment, "MMMM") {
        "%B"
    } else if str_eq(moment, "Y") {
        "%Y"
    } else if str_eq(moment, "DD") {
        "%d"
    } else if str_eq(moment, "D") {
        "%-d"
    } else if str_eq(moment, "H") {
        "%-H"
    } else if str_eq(moment, "HH") {
        "%H"
    } else if str_eq(moment, "m") {
        "%-M"
    } else if str_eq(moment, "mm") {
        "%M"
    } else {
        proof {
            reveal_strlit("");
            assert(""@ =~= Seq::<char>::empty());
        }
        ""
    }
}

/// [`moment_to_chrono`], computed on characters.
fn moment_chars(sub: &Vec<char>) -> (r: Vec<char>)
    ensures
        r@ == moment_to_chrono(sub@),
{
    if chars_eq(sub, &str_chars("M")) {
        str_chars("%-m")
    } else if chars_eq(sub, &str_chars("MM")) {
        str_chars("%m")
    } else if chars_eq(sub, &str_chars("MMM")) {
        str_chars("%b")
    } else if chars_eq(sub, &str_chars("MMMM")) {
        str_chars("%B")
    } else if chars_eq(sub, &str_chars("Y")) {
        str_chars("%Y")
    } else if chars_eq(sub, &str_chars("DD")) {
        str_chars("%d")
    } else if chars_eq(sub, &str_chars("D")) {
        str_chars("%-d")
    } else if chars_eq(sub, &str_chars("H")) {
        str_chars("%-H")
    } else if chars_eq(sub, &str_chars("HH")) {
        str_chars("%H")
    } else if chars_eq(sub, &str_chars("m")) {
        str_chars("%-M")
    } else if chars_eq(sub, &str_chars("mm")) {
        str_chars("%M")
    } else {
        let r: Vec<char> = Vec::new();
        proof {
            assert(r@ =~= Seq::<char>::empty());
        }
        r
    }
}

/// The length of the longest date token starting at `i`, zero when none
/// starts there.
pub open spec fn munch_len(s: Seq<char>, i: int) -> int {
    if i + 4 <= s.len() && is_tok(s.subrange(i, i + 4)) {
        4
    } else if i + 3 <= s.len() && is_tok(s.subrange(i, i + 3)) {
        3
    } else if i + 2 <= s.len() && is_tok(s.subrange(i, i + 2)) {
        2
    } else if i + 1 <= s.len() && is_tok(s.subrange(i, i + 1)) {
        1
    } else {
        0
    }
}

/// The translated form of the text from `i` on: tokens are matched greedily
/// longest-first and replaced by their codes, unmatched characters pass
/// through as literals.
pub open spec fn date_fmt_from(s: Seq<char>, i: int) -> Seq<char>
    decreases s.len() - i,
{
    if i < 0 || i >= s.len() {
        Seq::empty()
    } else {
        let k = munch_len(s, i);
        if k == 0 {
            seq![s[i]] + date_fmt_from(s, i + 1)
        } else {
            moment_to_chrono(s.subrange(i, i + k)) + date_fmt_from(s, i + k)
        }
    }
}

/// [`munch_len`], computed.
fn munch_at(v: &Vec<char>, i: usize) -> (k: usize)
    requires
        i < v@.len(),
    ensures
        k as int == munch_len(v@, i as int),
        i + k <= v@.len(),
        k <= 4,
{
    let n = v.len();
    if n - i >= 4 {
        let m = moment_chars(&subvec(v, i, i + 4));
        if m.len() != 0 {
            return 4;
        }
    }
    if n - i >= 3 {
        let m = moment_chars(&subvec(v, i, i + 3));
        if m.len() != 0 {
            return 3;
        }
    }
    if n - i >= 2 {
        let m = moment_chars(&subvec(v, i, i + 2));
        if m.len() != 0 {
            return 2;
        }
    }
    let m = moment_chars(&subvec(v, i, i + 1));
    if m.len() != 0 {
        return 1;
    }
    0
}

/// [`date_fmt_from`] over a whole text, computed.
pub fn date_fmt_chars(v: &Vec<char>) -> (r: Vec<char>)
    ensures
        r@ == date_fmt_from(v@, 0),
{
    let mut out: Vec<char> = Vec::new();
    let mut i: usize = 0;
    proof {
        assert(out@ + date_fmt_from(v@, 0) =~= date_fmt_from(v@, 0));
    }
    while i < v.len()
        invariant
            i <= v@.len(),
            out@ + date_fmt_from(v@, i as int) == date_fmt_from(v@, 0),
        decreases v.len() - i,
    {
        let ghost out0 = out@;
        let k = munch_at(v, i);
        if k == 0 {
            out.push(v[i]);
            proof {
                assert(out@ + date_fmt_from(v@, i + 1) =~= out0 + date_fmt_from(v@, i as int));
            }
            i = i + 1;
        } else {
            let mapped = moment_chars(&subvec(v, i, i + k));
            out = crate::text::concat_chars(&out, &mapped);
            proof {
                assert(out@ + date_fmt_from(v@, i + k) =~= out0 + date_fmt_from(v@, i as int));
            }
            i = i + k;
        }
    }
    proof {
        assert(date_fmt_from(v@, v@.len() as int) =~= Seq::<char>::empty());
        assert(out@ + date_fmt_from(v@, v@.len() as int) =~= out@);
    }
    out
}

/// Translate a whole compact date pattern into strftime-style codes: tokens
/// greedily matched longest-first, unmatched characters passed through.
pub fn get_date(date: &str) -> (r: String)
    ensures
        r@ == date_fmt_from(date@, 0),
{
    let v = str_chars(date);
    let out = date_fmt_chars(&v);
    chars_string(&out)
}


// ---------------------------------------------------------------------------
// Rendering codes against a clock reading
// ---------------------------------------------------------------------------

/// The decimal digit character.
pub open spec fn digit(d: int) -> char {
    if d == 0 {
        '0'
    } else if d == 1 {
        '1'
    } else if d == 2 {
        '2'
    } else if d == 3 {
        '3'
    } else if d == 4 {
        '4'
    } else if d == 5 {
        '5'
    } else if d == 6 {
        '6'
    } else if d == 7 {
        '7'
    } else if d == 8 {
        '8'
    } else {
        '9'
    }
}

/// The decimal digits of a non-negative number, no leading zeros.
pub open spec fn dec_u(n: int) -> Seq<char>
    decreases n,
{
    if n < 10 {
        seq![digit(n)]
    } else {
        dec_u(n / 10).push(digit(n % 10))
    }
}

/// A number zero-padded to two digits.
pub open spec fn pad2(n: int) -> Seq<char> {
    if n < 10 {
        seq!['0'] + dec_u(n)
    } else {
        dec_u(n)
    }
}

/// A non-negative number zero-padded to four digits.
pub open spec fn pad4u(n: int) -> Seq<char> {
    if n < 10 {
        seq!['0', '0', '0'] + dec_u(n)
    } else if n < 100 {
        seq!['0', '0'] + dec_u(n)
    } else if n < 1000 {
        seq!['0'] + dec_u(n)
    } else {
        dec_u(n)
    }
}

/// A year, zero-padded to four digits, a sign in front of a negative one.
pub open spec fn pad4(y: int) -> Seq<char> {
    if y < 0 {
        seq!['-'] + pad4u(-y)
    } else {
        pad4u(y)
    }
}

/// The three-letter month name.
pub open spec fn month_abbrev(m: int) -> Seq<char> {
    if m == 1 {
        "Jan"@
    } else if m == 2 {
        "Feb"@
    } else if m == 3 {
        "Mar"@
    } else if m == 4 {
        "Apr"@
    } else if m == 5 {
        "May"@
    } else if m == 6 {
        "Jun"@
    } else if m == 7 {
        "Jul"@
    } else if m == 8 {
        "Aug"@
    } else if m == 9 {
        "Sep"@
    } else if m == 10 {
        "Oct"@
    } else if m == 11 {
        "Nov"@
    } else if m == 12 {
        "Dec"@
    } else {
        Seq::empty()
    }
}

/// The full month name.
pub open spec fn month_full(m: int) -> Seq<char> {
    if m == 1 {
        "January"@
    } else if m == 2 {
        "February"@
    } else if m == 3 {
        "March"@
    } else if m == 4 {
        "April"@
    } else if m == 5 {
        "May"@
    } else if m == 6 {
        "June"@
    } else if m == 7 {
        "July"@
    } else if m == 8 {
        "August"@
    } else if m == 9 {
        "September"@
    } else if m == 10 {
        "October"@
    } else if m == 11 {
        "November"@
    } else if m == 12 {
        "December"@
    } else {
        Seq::empty()
    }
}

/// The code letters valid after `%-`.
pub open spec fn known_unpadded(c: char) -> bool {
    c == 'm' || c == 'd' || c == 'H' || c == 'M'
}

/// The code letters valid after `%`.
pub open spec fn known_padded(c: char) -> bool {
    c == 'Y' || c == 'm' || c == 'b' || c == 'B' || c == 'd' || c == 'H' || c == 'M'
}

/// The text an unpadded code renders to.
pub open spec fn unpadded_field(c: char, p: DateParts) -> Seq<char> {
    if c == 'm' {
        dec_u(p.month as int)
    } else if c == 'd' {
        dec_u(p.day as int)
    } else if c == 'H' {
        dec_u(p.hour as int)
    } else {
        dec_u(p.minute as int)
    }
}

/// The text a padded or named code renders to.
pub open spec fn padded_field(c: char, p: DateParts) -> Seq<char> {
    if c == 'Y' {
        pad4(p.year as int)
    } else if c == 'm' {
        pad2(p.month as int)
    } else if c == 'b' {
        month_abbrev(p.month as int)
    } else if c == 'B' {
        month_full(p.month as int)
    } else if c == 'd' {
        pad2(p.day as int)
    } else if c == 'H' {
        pad2(p.hour as int)
    } else {
        pad2(p.minute as int)
    }
}

/// The rendering of a code string from position `i` on: `%-x` and `%x` codes
/// become calendar fields, everything else passes through.
pub open spec fn render_from(fmt: Seq<char>, p: DateParts, i: int) -> Seq<char>
    decreases fmt.len() - i,
{
    if i < 0 || i >= fmt.len() {
        Seq::empty()
    } else if fmt[i] == '%' {
        if i + 2 < fmt.len() && fmt[i + 1] == '-' && known_unpadded(fmt[i + 2]) {
            unpadded_field(fmt[i + 2], p) + render_from(fmt, p, i + 3)
        } else if i + 1 < fmt.len() && known_padded(fmt[i + 1]) {
            padded_field(fmt[i + 1], p) + render_from(fmt, p, i + 2)
        } else {
            seq!['%'] + render_from(fmt, p, i + 1)
        }
    } else {
        seq![fmt[i]] + render_from(fmt, p, i + 1)
    }
}

/// The digit character, computed.
fn digit_char(d: u8) -> (c: char)
    requires
        d < 10,
    ensures
        c == digit(d as int),
{
    if d == 0 {
        '0'
    } else if d == 1 {
        '1'
    } else if d == 2 {
        '2'
    } else if d == 3 {
        '3'
    } else if d == 4 {
        '4'
    } else if d == 5 {
        '5'
    } else if d == 6 {
        '6'
    } else if d == 7 {
        '7'
    } else if d == 8 {
        '8'
    } else {
        '9'
    }
}

/// The decimal digits, computed.
fn dec_chars(n: u32) -> (r: Vec<char>)
    ensures
        r@ == dec_u(n as int),
    decreases n,
{
    if n < 10 {
        let mut r: Vec<char> = Vec::new();
        r.push(digit_char(n as u8));
        proof {
            assert(r@ =~= seq![digit(n as int)]);
        }
        r
    } else {
        let mut r = dec_chars(n / 10);
        r.push(digit_char((n % 10) as u8));
        r
    }
}

/// Two-digit padding, computed.
fn pad2_chars(n: u8) -> (r: Vec<char>)
    ensures
        r@ == pad2(n as int),
{
    let d = dec_chars(n as u32);
    if n < 10 {
        let mut r: Vec<char> = Vec::new();
        r.push('0');
        let r2 = crate::text::concat_chars(&r, &d);
        proof {
            assert(r@ =~= seq!['0']);
        }
        r2
    } else {
        d
    }
}

/// Four-digit padding with sign, computed.
fn pad4_chars(y: i32) -> (r: Vec<char>)
    ensures
        r@ == pad4(y as int),
{
    if y < 0 {
        let m = (-(y as i64)) as u32;
        proof {
            assert(m as int == -(y as int));
        }
        let d = pad4u_chars(m);
        let mut r: Vec<char> = Vec::new();
        r.push('-');
        proof {
            assert(r@ =~= seq!['-']);
        }
        crate::text::concat_chars(&r, &d)
    } else {
        pad4u_chars(y as u32)
    }
}

/// Four-digit zero padding, computed.
fn pad4u_chars(n: u32) -> (r: Vec<char>)
    ensures
        r@ == pad4u(n as int),
{
    let d = dec_chars(n);
    let mut zeros: Vec<char> = Vec::new();
    if n < 10 {
        zeros.push('0');
        zeros.push('0');
        zeros.push('0');
        proof {
            assert(zeros@ =~= seq!['0', '0', '0']);
        }
    } else if n < 100 {
        zeros.push('0');
        zeros.push('0');
        proof {
            assert(zeros@ =~= seq!['0', '0']);
        }
    } else if n < 1000 {
        zeros.push('0');
        proof {
            assert(zeros@ =~= seq!['0']);
        }
    } else {
        proof {
            assert(zeros@ + d@ =~= d@);
        }
    }
    crate::text::concat_chars(&zeros, &d)
}

/// The month names, computed.
fn month_abbrev_chars(m: u8) -> (r: Vec<char>)
    ensures
        r@ == month_abbrev(m as int),
{
    if m == 1 {
        str_chars("Jan")
    } else if m == 2 {
        str_chars("Feb")
    } else if m == 3 {
        str_chars("Mar")
    } else if m == 4 {
        str_chars("Apr")
    } else if m == 5 {
        str_chars("May")
    } else if m == 6 {
        str_chars("Jun")
    } else if m == 7 {
        str_chars("Jul")
    } else if m == 8 {
        str_chars("Aug")
    } else if m == 9 {
        str_chars("Sep")
    } else if m == 10 {
        str_chars("Oct")
    } else if m == 11 {
        str_chars("Nov")
    } else if m == 12 {
        str_chars("Dec")
    } else {
        let r: Vec<char> = Vec::new();
        proof {
            assert(r@ =~= Seq::<char>::empty());
        }
        r
    }
}

/// The full month names, computed.
fn month_full_chars(m: u8) -> (r: Vec<char>)
    ensures
        r@ == month_full(m as int),
{
    if m == 1 {
        str_chars("January")
    } else if m == 2 {
        str_chars("February")
    } else if m == 3 {
        str_chars("March")
    } else if m == 4 {
        str_chars("April")
    } else if m == 5 {
        str_chars("May")
    } else if m == 6 {
        str_chars("June")
    } else if m == 7 {
        str_chars("July")
    } else if m == 8 {
        str_chars("August")
    } else if m == 9 {
        str_chars("September")
    } else if m == 10 {
        str_chars("October")
    } else if m == 11 {
        str_chars("November")
    } else if m == 12 {
        str_chars("December")
    } else {
        let r: Vec<char> = Vec::new();
        proof {
            assert(r@ =~= Seq::<char>::empty());
        }
        r
    }
}

/// The rendering of one field, computed.
fn field_chars(c: char, unpadded: bool, p: DateParts) -> (r: Vec<char>)
    requires
        unpadded ==> known_unpadded(c),
        !unpadded ==> known_padded(c),
    ensures
        unpadded ==> r@ == unpadded_field(c, p),
        !unpadded ==> r@ == padded_field(c, p),
{
    if unpadded {
        if c == 'm' {
            dec_chars(p.month as u32)
        } else if c == 'd' {
            dec_chars(p.day as u32)
        } else if c == 'H' {
            dec_chars(p.hour as u32)
        } else {
            dec_chars(p.minute as u32)
        }
    } else {
        if c == 'Y' {
            pad4_chars(p.year)
        } else if c == 'm' {
            pad2_chars(p.month)
        } else if c == 'b' {
            month_abbrev_chars(p.month)
        } else if c == 'B' {
            month_full_chars(p.month)
        } else if c == 'd' {
            pad2_chars(p.day)
        } else if c == 'H' {
            pad2_chars(p.hour)
        } else {
            pad2_chars(p.minute)
        }
    }
}

/// Whether a code letter is valid after `%-`, computed.
fn is_unpadded(c: char) -> (r: bool)
    ensures
        r == known_unpadded(c),
{
    c == 'm' || c == 'd' || c == 'H' || c == 'M'
}

/// Whether a code letter is valid after `%`, computed.
fn is_padded(c: char) -> (r: bool)
    ensures
        r == known_padded(c),
{
    c == 'Y' || c == 'm' || c == 'b' || c == 'B' || c == 'd' || c == 'H' || c == 'M'
}

/// Render a code string against a clock reading.
pub fn render_date(fmt: &Vec<char>, p: DateParts) -> (r: Vec<char>)
    ensures
        r@ == render_from(fmt@, p, 0),
{
    let mut out: Vec<char> = Vec::new();
    let mut i: usize = 0;
    proof {
        assert(out@ + render_from(fmt@, p, 0) =~= render_from(fmt@, p, 0));
    }
    while i < fmt.len()
        invariant
            i <= fmt@.len(),
            out@ + render_from(fmt@, p, i as int) == render_from(fmt@, p, 0),
        decreases fmt.len() - i,
    {
        let ghost out0 = out@;
        let n = fmt.len();
        let c = fmt[i];
        if c == '%' {
            if n - i > 2 && fmt[i + 1] == '-' && is_unpadded(fmt[i + 2]) {
                let f = field_chars(fmt[i + 2], true, p);
                out = crate::text::concat_chars(&out, &f);
                proof {
                    assert(out@ + render_from(fmt@, p, i + 3) =~= out0 + render_from(
                        fmt@,
                        p,
                        i as int,
                    ));
                }
                i = i + 3;
            } else if n - i > 1 && is_padded(fmt[i + 1]) {
                let f = field_chars(fmt[i + 1], false, p);
                out = crate::text::concat_chars(&out, &f);
                proof {
                    assert(out@ + render_from(fmt@, p, i + 2) =~= out0 + render_from(
                        fmt@,
                        p,
                        i as int,
                    ));
                }
                i = i + 2;
            } else {
                out.push('%');
                proof {
                    assert(out@ + render_from(fmt@, p, i + 1) =~= out0 + render_from(
                        fmt@,
                        p,
                        i as int,
                    ));
                }
                i = i + 1;
            }
        } else {
            out.push(c);
            proof {
                assert(out@ + render_from(fmt@, p, i + 1) =~= out0 + render_from(
                    fmt@,
                    p,
                    i as int,
                ));
            }
            i = i + 1;
        }
    }
    proof {
        assert(render_from(fmt@, p, fmt@.len() as int) =~= Seq::<char>::empty());
        assert(out@ + render_from(fmt@, p, fmt@.len() as int) =~= out@);
    }
    out
}


// ---------------------------------------------------------------------------
// Template lines
// ---------------------------------------------------------------------------

/// The first occurrence of a character at or after `i`.
pub open spec fn find_ch(t: Seq<char>, c: char, i: int) -> Option<int>
    decreases t.len() - i,
{
    if i < 0 || i >= t.len() {
        None
    } else if t[i] == c {
        Some(i)
    } else {
        find_ch(t, c, i + 1)
    }
}

/// A found character lies inside the text.
pub proof fn lemma_find_ch_bounds(t: Seq<char>, c: char, i: int)
    requires
        find_ch(t, c, i) is Some,
    ensures
        i <= find_ch(t, c, i)->0 < t.len(),
    decreases t.len() - i,
{
    if 0 <= i < t.len() && t[i] != c {
        lemma_find_ch_bounds(t, c, i + 1);
    }
}

/// [`find_ch`], computed.
fn find_ch_at(t: &Vec<char>, c: char) -> (r: Option<usize>)
    ensures
        match r {
            Some(j) => find_ch(t@, c, 0) == Some(j as int) && j < t@.len(),
            None => find_ch(t@, c, 0) is None,
        },
{
    let mut k: usize = 0;
    while k < t.len()
        invariant
            k <= t@.len(),
            find_ch(t@, c, 0) == find_ch(t@, c, k as int),
        decreases t.len() - k,
    {
        if t[k] == c {
            return Some(k);
        }
        k = k + 1;
    }
    None
}

/// One space-separated item of a template line, expanded: a `{{date:…}}`
/// span is translated and rendered in place; an item without a complete
/// span passes through.
pub open spec fn expand_item(item: Seq<char>, p: DateParts) -> Seq<char> {
    match (crate::document::first_match_from(item, "{{"@, 0), crate::document::first_match_from(
        item,
        "}}"@,
        0,
    )) {
        (Some(ds), Some(de)) => {
            if ds + 7 <= de {
                item.take(ds) + render_from(date_fmt_from(item.subrange(ds + 7, de), 0), p, 0)
                    + item.skip(de + 2)
            } else {
                item
            }
        },
        _ => item,
    }
}

/// A whole template line expanded: each space-separated item on its own, the
/// separators kept.
pub open spec fn spec_format_line(s: Seq<char>, p: DateParts) -> Seq<char>
    decreases s.len(),
    via spec_format_line_decreases
{
    match find_ch(s, ' ', 0) {
        Some(j) => expand_item(s.take(j), p) + seq![' '] + spec_format_line(s.skip(j + 1), p),
        None => expand_item(s, p),
    }
}

#[via_fn]
proof fn spec_format_line_decreases(s: Seq<char>, p: DateParts) {
    if find_ch(s, ' ', 0) is Some {
        lemma_find_ch_bounds(s, ' ', 0);
    }
}

/// [`expand_item`], computed.
fn expand_item_chars(item: &Vec<char>, p: DateParts) -> (r: Vec<char>)
    ensures
        r@ == expand_item(item@, p),
{
    let ob = str_chars("{{");
    let cb = str_chars("}}");
    proof {
        reveal_strlit("{{");
        reveal_strlit("}}");
    }
    let ds = match crate::document::find_from(item, &ob, 0) {
        Option::Some(ds) => ds,
        Option::None => {
            return crate::text::copy_line(item);
        },
    };
    let de = match crate::document::find_from(item, &cb, 0) {
        Option::Some(de) => de,
        Option::None => {
            return crate::text::copy_line(item);
        },
    };
    if de < 7 || ds > de - 7 {
        return crate::text::copy_line(item);
    }
    let inner = subvec(item, ds + 7, de);
    let codes = date_fmt_chars(&inner);
    let rendered = render_date(&codes, p);
    let head = subvec(item, 0, ds);
    let item_len = item.len();
    let tail_part = subvec(item, de + 2, item_len);
    let front = crate::text::concat_chars(&head, &rendered);
    crate::text::concat_chars(&front, &tail_part)
}

/// [`spec_format_line`], computed.
pub fn format_line(v: &Vec<char>, p: DateParts) -> (r: Vec<char>)
    ensures
        r@ == spec_format_line(v@, p),
{
    let mut out: Vec<char> = Vec::new();
    let mut rest: Vec<char> = crate::text::copy_line(v);
    proof {
        assert(out@ + spec_format_line(rest@, p) =~= spec_format_line(v@, p));
    }
    loop
        invariant
            out@ + spec_format_line(rest@, p) == spec_format_line(v@, p),
        decreases rest@.len(),
    {
        let ghost out0 = out@;
        let ghost rest0 = rest@;
        match find_ch_at(&rest, ' ') {
            Option::Some(j) => {
                let item = subvec(&rest, 0, j);
                let e = expand_item_chars(&item, p);
                out = crate::text::concat_chars(&out, &e);
                out.push(' ');
                let rest_len = rest.len();
                rest = subvec(&rest, j + 1, rest_len);
                proof {
                    assert(rest0.take(j as int) =~= item@);
                    assert(rest@ =~= rest0.skip(j + 1));
                    assert(out@ =~= out0 + expand_item(rest0.take(j as int), p) + seq![' ']);
                    assert(out@ + spec_format_line(rest@, p) =~= out0 + spec_format_line(
                        rest0,
                        p,
                    ));
                }
            },
            Option::None => {
                let e = expand_item_chars(&rest, p);
                out = crate::text::concat_chars(&out, &e);
                proof {
                    assert(out@ =~= out0 + spec_format_line(rest0, p));
                }
                return out;
            },
        }
    }
}

/// Expand the template spans of one line against a given clock reading.
pub fn format_with_date(string: &str, p: DateParts) -> (r: String)
    ensures
        r@ == spec_format_line(string@, p),
{
    let v = str_chars(string);
    let out = format_line(&v, p);
    chars_string(&out)
}

/// Expand the template spans of one line against the clock's current local
/// time: the result is the line formatted with some well-formed reading.
pub fn get_formated_date(string: String) -> (r: String)
    ensures
        exists|p: DateParts| p.wf() && r@ == spec_format_line(string@, p),
{
    let p = local_now();
    let r = format_with_date(string.as_str(), p);
    proof {
        assert(p.wf() && r@ == spec_format_line(string@, p));
        assert(exists|q: DateParts| q.wf() && r@ == spec_format_line(string@, q));
    }
    r
}

// ---------------------------------------------------------------------------
// Rendered text stays terminator-free
// ---------------------------------------------------------------------------

/// Decimal digits hold no terminator.
pub proof fn lemma_dec_clean(n: int)
    ensures
        line_clean(dec_u(n)),
    decreases n,
{
    if n >= 10 {
        lemma_dec_clean(n / 10);
    }
}

/// Four-digit zero padding holds no terminator.
pub proof fn lemma_pad4u_clean(n: int)
    ensures
        line_clean(pad4u(n)),
{
    lemma_dec_clean(n);
    crate::document::lemma_clean_concat(seq!['0'], dec_u(n));
    crate::document::lemma_clean_concat(seq!['0', '0'], dec_u(n));
    crate::document::lemma_clean_concat(seq!['0', '0', '0'], dec_u(n));
}

/// Padded numbers hold no terminator.
pub proof fn lemma_pad_clean(n: int, y: int)
    ensures
        line_clean(pad2(n)),
        line_clean(pad4(y)),
        line_clean(pad4u(n)),
{
    lemma_dec_clean(n);
    crate::document::lemma_clean_concat(seq!['0'], dec_u(n));
    lemma_pad4u_clean(n);
    if y < 0 {
        lemma_pad4u_clean(-y);
        crate::document::lemma_clean_concat(seq!['-'], pad4u(-y));
    } else {
        lemma_pad4u_clean(y);
    }
}

/// Month names hold no terminator.
pub proof fn lemma_month_clean(m: int)
    ensures
        line_clean(month_abbrev(m)),
        line_clean(month_full(m)),
{
    reveal_strlit("Jan");
    reveal_strlit("Feb");
    reveal_strlit("Mar");
    reveal_strlit("Apr");
    reveal_strlit("May");
    reveal_strlit("Jun");
    reveal_strlit("Jul");
    reveal_strlit("Aug");
    reveal_strlit("Sep");
    reveal_strlit("Oct");
    reveal_strlit("Nov");
    reveal_strlit("Dec");
    reveal_strlit("January");
    reveal_strlit("February");
    reveal_strlit("March");
    reveal_strlit("April");
    reveal_strlit("June");
    reveal_strlit("July");
    reveal_strlit("August");
    reveal_strlit("September");
    reveal_strlit("October");
    reveal_strlit("November");
    reveal_strlit("December");
}

/// Rendering a terminator-free code string yields terminator-free text.
pub proof fn lemma_render_clean(fmt: Seq<char>, p: DateParts, i: int)
    requires
        line_clean(fmt),
    ensures
        line_clean(render_from(fmt, p, i)),
    decreases fmt.len() - i,
{
    if 0 <= i < fmt.len() {
        if fmt[i] == '%' {
            if i + 2 < fmt.len() && fmt[i + 1] == '-' && known_unpadded(fmt[i + 2]) {
                lemma_dec_clean(p.month as int);
                lemma_dec_clean(p.day as int);
                lemma_dec_clean(p.hour as int);
                lemma_dec_clean(p.minute as int);
                lemma_render_clean(fmt, p, i + 3);
                crate::document::lemma_clean_concat(
                    unpadded_field(fmt[i + 2], p),
                    render_from(fmt, p, i + 3),
                );
            } else if i + 1 < fmt.len() && known_padded(fmt[i + 1]) {
                lemma_pad_clean(p.month as int, p.year as int);
                lemma_pad_clean(p.day as int, 0);
                lemma_pad_clean(p.hour as int, 0);
                lemma_pad_clean(p.minute as int, 0);
                lemma_month_clean(p.month as int);
                lemma_render_clean(fmt, p, i + 2);
                crate::document::lemma_clean_concat(
                    padded_field(fmt[i + 1], p),
                    render_from(fmt, p, i + 2),
                );
            } else {
                lemma_render_clean(fmt, p, i + 1);
                crate::document::lemma_clean_concat(seq!['%'], render_from(fmt, p, i + 1));
            }
        } else {
            lemma_render_clean(fmt, p, i + 1);
            crate::document::lemma_clean_concat(seq![fmt[i]], render_from(fmt, p, i + 1));
        }
    }
}

/// Translating a terminator-free pattern yields terminator-free codes.
pub proof fn lemma_date_fmt_clean(s: Seq<char>, i: int)
    requires
        line_clean(s),
    ensures
        line_clean(date_fmt_from(s, i)),
    decreases s.len() - i,
{
    reveal_strlit("%-m");
    reveal_strlit("%m");
    reveal_strlit("%b");
    reveal_strlit("%B");
    reveal_strlit("%Y");
    reveal_strlit("%d");
    reveal_strlit("%-d");
    reveal_strlit("%-H");
    reveal_strlit("%H");
    reveal_strlit("%-M");
    reveal_strlit("%M");
    if 0 <= i < s.len() {
        let k = munch_len(s, i);
        if k == 0 {
            lemma_date_fmt_clean(s, i + 1);
            crate::document::lemma_clean_concat(seq![s[i]], date_fmt_from(s, i + 1));
        } else {
            lemma_date_fmt_clean(s, i + k);
            crate::document::lemma_clean_concat(
                moment_to_chrono(s.subrange(i, i + k)),
                date_fmt_from(s, i + k),
            );
        }
    }
}

/// Expanding a terminator-free item yields a terminator-free item.
pub proof fn lemma_expand_clean(item: Seq<char>, p: DateParts)
    requires
        line_clean(item),
    ensures
        line_clean(expand_item(item, p)),
{
    match (crate::document::first_match_from(item, "{{"@, 0), crate::document::first_match_from(
        item,
        "}}"@,
        0,
    )) {
        (Some(ds), Some(de)) => {
            if ds + 7 <= de {
                reveal_strlit("{{");
                reveal_strlit("}}");
                crate::document::lemma_first_match_bounds(item, "{{"@, 0);
                crate::document::lemma_first_match_bounds(item, "}}"@, 0);
                crate::document::lemma_clean_take(item, ds);
                crate::document::lemma_clean_sub(item, ds + 7, de);
                lemma_date_fmt_clean(item.subrange(ds + 7, de), 0);
                lemma_render_clean(date_fmt_from(item.subrange(ds + 7, de), 0), p, 0);
                crate::document::lemma_clean_skip(item, de + 2);
                crate::document::lemma_clean_concat(
                    item.take(ds),
                    render_from(date_fmt_from(item.subrange(ds + 7, de), 0), p, 0),
                );
                crate::document::lemma_clean_concat(
                    item.take(ds) + render_from(date_fmt_from(item.subrange(ds + 7, de), 0), p, 0),
                    item.skip(de + 2),
                );
            }
        },
        _ => {},
    }
}

/// Expanding a terminator-free line yields a terminator-free line.
pub proof fn lemma_format_clean(s: Seq<char>, p: DateParts)
    requires
        line_clean(s),
    ensures
        line_clean(spec_format_line(s, p)),
    decreases s.len(),
{
    match find_ch(s, ' ', 0) {
        Some(j) => {
            lemma_find_ch_bounds(s, ' ', 0);
            crate::document::lemma_clean_take(s, j);
            lemma_expand_clean(s.take(j), p);
            crate::document::lemma_clean_skip(s, j + 1);
            lemma_format_clean(s.skip(j + 1), p);
            crate::document::lemma_clean_concat(expand_item(s.take(j), p), seq![' ']);
            crate::document::lemma_clean_concat(
                expand_item(s.take(j), p) + seq![' '],
                spec_format_line(s.skip(j + 1), p),
            );
        },
        None => {
            lemma_expand_clean(s, p);
        },
    }
}

} // verus!
