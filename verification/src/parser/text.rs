//! Character classes and low-level text scanners for the typefile parser.
//!
//! All scanning is defined over a sequence of characters and an immutable
//! cursor position. Each spec scanner returns the position where scanning
//! stops; the exec counterparts are proved to compute exactly that position.
//!
//! Throughout the parser, "whitespace" means spaces, tabs, carriage returns
//! and line feeds; "spaces" means spaces and tabs only.

use vstd::prelude::*;

verus! {

/// True for the characters that count as in-line spacing: space and tab.
pub open spec fn is_space_char(c: char) -> bool {
    c == ' ' || c == '\t'
}

/// True for the characters that can end a line: line feed and carriage return.
pub open spec fn is_line_end_char(c: char) -> bool {
    c == '\n' || c == '\r'
}

/// True for the characters trimmed from property values: spaces and line ends.
pub open spec fn is_whitespace_char(c: char) -> bool {
    is_space_char(c) || is_line_end_char(c)
}

/// True for the characters an identifier may consist of.
pub open spec fn is_identifier_char(c: char) -> bool {
    ('a' <= c && c <= 'z') || ('A' <= c && c <= 'Z') || c == '_'
}

/// True if `w` occurs in `s` starting exactly at position `pos`.
pub open spec fn seq_at(s: Seq<char>, pos: int, w: Seq<char>) -> bool {
    &&& 0 <= pos
    &&& pos + w.len() <= s.len()
    &&& forall|i: int| 0 <= i < w.len() ==> (#[trigger] s[pos + i]) == w[i]
}

/// True if every character of `w` is whitespace.
pub open spec fn ws_only(w: Seq<char>) -> bool {
    forall|i: int| 0 <= i < w.len() ==> #[trigger] is_whitespace_char(w[i])
}

/// The first position at or after `pos` that does not hold a space or tab.
pub open spec fn scan_spaces(s: Seq<char>, pos: int) -> int
    decreases s.len() - pos,
    when 0 <= pos <= s.len()
{
    if pos < s.len() && is_space_char(s[pos]) {
        scan_spaces(s, pos + 1)
    } else {
        pos
    }
}

/// The first position at or after `pos` that holds a line-end character,
/// or the end of the text.
pub open spec fn scan_line_content(s: Seq<char>, pos: int) -> int
    decreases s.len() - pos,
    when 0 <= pos <= s.len()
{
    if pos < s.len() && !is_line_end_char(s[pos]) {
        scan_line_content(s, pos + 1)
    } else {
        pos
    }
}

/// The first position at or after `pos` that does not hold a line-end
/// character. This accepts any run of line feeds and carriage returns.
pub open spec fn scan_eol_run(s: Seq<char>, pos: int) -> int
    decreases s.len() - pos,
    when 0 <= pos <= s.len()
{
    if pos < s.len() && is_line_end_char(s[pos]) {
        scan_eol_run(s, pos + 1)
    } else {
        pos
    }
}

/// The first position at or after `pos` that does not hold an identifier
/// character.
pub open spec fn scan_identifier(s: Seq<char>, pos: int) -> int
    decreases s.len() - pos,
    when 0 <= pos <= s.len()
{
    if pos < s.len() && is_identifier_char(s[pos]) {
        scan_identifier(s, pos + 1)
    } else {
        pos
    }
}

/// The first position at or after `pos` that does not hold a whitespace
/// character.
pub open spec fn scan_whitespace(s: Seq<char>, pos: int) -> int
    decreases s.len() - pos,
    when 0 <= pos <= s.len()
{
    if pos < s.len() && is_whitespace_char(s[pos]) {
        scan_whitespace(s, pos + 1)
    } else {
        pos
    }
}

/// The last position at or before `pos` such that every character between it
/// and `pos` is whitespace, scanning backwards.
pub open spec fn scan_whitespace_back(s: Seq<char>, pos: int) -> int
    decreases pos,
    when 0 <= pos <= s.len()
{
    if pos > 0 && is_whitespace_char(s[pos - 1]) {
        scan_whitespace_back(s, pos - 1)
    } else {
        pos
    }
}

/// The end of the maximal run of line endings starting at `pos`, where one
/// line ending is either a line feed or a carriage return followed by a line
/// feed. A bare carriage return is not accepted here.
pub open spec fn scan_line_endings(s: Seq<char>, pos: int) -> int
    decreases s.len() - pos,
    when 0 <= pos <= s.len()
{
    if pos < s.len() && s[pos] == '\n' {
        scan_line_endings(s, pos + 1)
    } else if pos + 1 < s.len() && s[pos] == '\r' && s[pos + 1] == '\n' {
        scan_line_endings(s, pos + 2)
    } else {
        pos
    }
}

/// The end of the maximal run of blank lines starting at `pos`, where a blank
/// line is a run of spaces and tabs followed by at least one line ending.
pub open spec fn scan_blank_lines(s: Seq<char>, pos: int) -> int
    decreases s.len() - pos,
    when 0 <= pos <= s.len()
    via scan_blank_lines_decreases
{
    let spaces_end = scan_spaces(s, pos);
    let endings_end = scan_line_endings(s, spaces_end);
    if endings_end > spaces_end {
        scan_blank_lines(s, endings_end)
    } else {
        pos
    }
}

#[via_fn]
proof fn scan_blank_lines_decreases(s: Seq<char>, pos: int) {
    lemma_scan_spaces(s, pos);
    lemma_scan_line_endings(s, scan_spaces(s, pos));
}

/// `w` with leading and trailing whitespace removed.
pub open spec fn trim_ws(w: Seq<char>) -> Seq<char> {
    let a = scan_whitespace(w, 0);
    let b = scan_whitespace_back(w, w.len() as int);
    if a <= b {
        w.subrange(a, b)
    } else {
        Seq::empty()
    }
}

// ------------------------------------------------------------------
// Lemmas characterising the scanners.
// ------------------------------------------------------------------

/// Bounds and characterisation of `scan_spaces`.
pub proof fn lemma_scan_spaces(s: Seq<char>, pos: int)
    requires
        0 <= pos <= s.len(),
    ensures
        pos <= scan_spaces(s, pos) <= s.len(),
        forall|i: int| pos <= i < scan_spaces(s, pos) ==> #[trigger] is_space_char(s[i]),
        scan_spaces(s, pos) < s.len() ==> !is_space_char(s[scan_spaces(s, pos)]),
    decreases s.len() - pos,
{
    if pos < s.len() && is_space_char(s[pos]) {
        lemma_scan_spaces(s, pos + 1);
    }
}

/// Bounds and characterisation of `scan_line_content`.
pub proof fn lemma_scan_line_content(s: Seq<char>, pos: int)
    requires
        0 <= pos <= s.len(),
    ensures
        pos <= scan_line_content(s, pos) <= s.len(),
        forall|i: int| pos <= i < scan_line_content(s, pos) ==> !(#[trigger] is_line_end_char(
            s[i],
        )),
        scan_line_content(s, pos) < s.len() ==> is_line_end_char(s[scan_line_content(s, pos)]),
    decreases s.len() - pos,
{
    if pos < s.len() && !is_line_end_char(s[pos]) {
        lemma_scan_line_content(s, pos + 1);
    }
}

/// Bounds and characterisation of `scan_eol_run`.
pub proof fn lemma_scan_eol_run(s: Seq<char>, pos: int)
    requires
        0 <= pos <= s.len(),
    ensures
        pos <= scan_eol_run(s, pos) <= s.len(),
        forall|i: int| pos <= i < scan_eol_run(s, pos) ==> #[trigger] is_line_end_char(s[i]),
        scan_eol_run(s, pos) < s.len() ==> !is_line_end_char(s[scan_eol_run(s, pos)]),
    decreases s.len() - pos,
{
    if pos < s.len() && is_line_end_char(s[pos]) {
        lemma_scan_eol_run(s, pos + 1);
    }
}

/// Bounds and characterisation of `scan_identifier`.
pub proof fn lemma_scan_identifier(s: Seq<char>, pos: int)
    requires
        0 <= pos <= s.len(),
    ensures
        pos <= scan_identifier(s, pos) <= s.len(),
        forall|i: int| pos <= i < scan_identifier(s, pos) ==> #[trigger] is_identifier_char(s[i]),
        scan_identifier(s, pos) < s.len() ==> !is_identifier_char(s[scan_identifier(s, pos)]),
    decreases s.len() - pos,
{
    if pos < s.len() && is_identifier_char(s[pos]) {
        lemma_scan_identifier(s, pos + 1);
    }
}

/// Bounds and characterisation of `scan_whitespace`.
pub proof fn lemma_scan_whitespace(s: Seq<char>, pos: int)
    requires
        0 <= pos <= s.len(),
    ensures
        pos <= scan_whitespace(s, pos) <= s.len(),
        forall|i: int| pos <= i < scan_whitespace(s, pos) ==> #[trigger] is_whitespace_char(s[i]),
        scan_whitespace(s, pos) < s.len() ==> !is_whitespace_char(s[scan_whitespace(s, pos)]),
    decreases s.len() - pos,
{
    if pos < s.len() && is_whitespace_char(s[pos]) {
        lemma_scan_whitespace(s, pos + 1);
    }
}

/// Bounds and characterisation of `scan_whitespace_back`.
pub proof fn lemma_scan_whitespace_back(s: Seq<char>, pos: int)
    requires
        0 <= pos <= s.len(),
    ensures
        0 <= scan_whitespace_back(s, pos) <= pos,
        forall|i: int|
            scan_whitespace_back(s, pos) <= i < pos ==> #[trigger] is_whitespace_char(s[i]),
        scan_whitespace_back(s, pos) > 0 ==> !is_whitespace_char(
            s[scan_whitespace_back(s, pos) - 1],
        ),
    decreases pos,
{
    if pos > 0 && is_whitespace_char(s[pos - 1]) {
        lemma_scan_whitespace_back(s, pos - 1);
    }
}

/// Bounds and characterisation of `scan_line_endings`.
pub proof fn lemma_scan_line_endings(s: Seq<char>, pos: int)
    requires
        0 <= pos <= s.len(),
    ensures
        pos <= scan_line_endings(s, pos) <= s.len(),
        forall|i: int| pos <= i < scan_line_endings(s, pos) ==> #[trigger] is_line_end_char(s[i]),
        ({
            let e = scan_line_endings(s, pos);
            !(e < s.len() && s[e] == '\n') && !(e + 1 < s.len() && s[e] == '\r' && s[e + 1]
                == '\n')
        }),
    decreases s.len() - pos,
{
    if pos < s.len() && s[pos] == '\n' {
        lemma_scan_line_endings(s, pos + 1);
    } else if pos + 1 < s.len() && s[pos] == '\r' && s[pos + 1] == '\n' {
        lemma_scan_line_endings(s, pos + 2);
    }
}

/// Bounds and stop condition of `scan_blank_lines`.
pub proof fn lemma_scan_blank_lines(s: Seq<char>, pos: int)
    requires
        0 <= pos <= s.len(),
    ensures
        pos <= scan_blank_lines(s, pos) <= s.len(),
        ({
            let b = scan_blank_lines(s, pos);
            scan_line_endings(s, scan_spaces(s, b)) == scan_spaces(s, b)
        }),
    decreases s.len() - pos,
{
    lemma_scan_spaces(s, pos);
    let spaces_end = scan_spaces(s, pos);
    lemma_scan_line_endings(s, spaces_end);
    let endings_end = scan_line_endings(s, spaces_end);
    if endings_end > spaces_end {
        lemma_scan_blank_lines(s, endings_end);
    }
}

// ------------------------------------------------------------------
// Executable counterparts.
// ------------------------------------------------------------------

/// Executable test for [`is_space_char`].
pub fn space_char(c: char) -> (r: bool)
    ensures
        r == is_space_char(c),
{
    c == ' ' || c == '\t'
}

/// Executable test for [`is_line_end_char`].
pub fn line_end_char(c: char) -> (r: bool)
    ensures
        r == is_line_end_char(c),
{
    c == '\n' || c == '\r'
}

/// Executable test for [`is_whitespace_char`].
pub fn whitespace_char(c: char) -> (r: bool)
    ensures
        r == is_whitespace_char(c),
{
    space_char(c) || line_end_char(c)
}

/// Executable test for [`is_identifier_char`].
pub fn identifier_char(c: char) -> (r: bool)
    ensures
        r == is_identifier_char(c),
{
    ('a' <= c && c <= 'z') || ('A' <= c && c <= 'Z') || c == '_'
}

/// Executable counterpart of [`scan_spaces`].
pub fn spaces_end(v: &Vec<char>, pos: usize) -> (r: usize)
    requires
        pos <= v@.len(),
    ensures
        r as int == scan_spaces(v@, pos as int),
        pos <= r <= v@.len(),
{
    let mut i = pos;
    while i < v.len() && space_char(v[i])
        invariant
            pos <= i <= v@.len(),
            scan_spaces(v@, pos as int) == scan_spaces(v@, i as int),
        decreases v@.len() - i,
    {
        i = i + 1;
    }
    i
}

/// Executable counterpart of [`scan_line_content`].
pub fn line_content_end(v: &Vec<char>, pos: usize) -> (r: usize)
    requires
        pos <= v@.len(),
    ensures
        r as int == scan_line_content(v@, pos as int),
        pos <= r <= v@.len(),
{
    let mut i = pos;
    while i < v.len() && !line_end_char(v[i])
        invariant
            pos <= i <= v@.len(),
            scan_line_content(v@, pos as int) == scan_line_content(v@, i as int),
        decreases v@.len() - i,
    {
        i = i + 1;
    }
    i
}

/// Executable counterpart of [`scan_eol_run`].
pub fn eol_run_end(v: &Vec<char>, pos: usize) -> (r: usize)
    requires
        pos <= v@.len(),
    ensures
        r as int == scan_eol_run(v@, pos as int),
        pos <= r <= v@.len(),
{
    let mut i = pos;
    while i < v.len() && line_end_char(v[i])
        invariant
            pos <= i <= v@.len(),
            scan_eol_run(v@, pos as int) == scan_eol_run(v@, i as int),
        decreases v@.len() - i,
    {
        i = i + 1;
    }
    i
}

/// Executable counterpart of [`scan_identifier`].
pub fn identifier_end(v: &Vec<char>, pos: usize) -> (r: usize)
    requires
        pos <= v@.len(),
    ensures
        r as int == scan_identifier(v@, pos as int),
        pos <= r <= v@.len(),
{
    let mut i = pos;
    while i < v.len() && identifier_char(v[i])
        invariant
            pos <= i <= v@.len(),
            scan_identifier(v@, pos as int) == scan_identifier(v@, i as int),
        decreases v@.len() - i,
    {
        i = i + 1;
    }
    i
}

/// Executable counterpart of [`scan_whitespace`].
pub fn whitespace_end(v: &Vec<char>, pos: usize) -> (r: usize)
    requires
        pos <= v@.len(),
    ensures
        r as int == scan_whitespace(v@, pos as int),
        pos <= r <= v@.len(),
{
    let mut i = pos;
    while i < v.len() && whitespace_char(v[i])
        invariant
            pos <= i <= v@.len(),
            scan_whitespace(v@, pos as int) == scan_whitespace(v@, i as int),
        decreases v@.len() - i,
    {
        i = i + 1;
    }
    i
}

/// Executable counterpart of [`scan_whitespace_back`].
pub fn whitespace_back_start(v: &Vec<char>, pos: usize) -> (r: usize)
    requires
        pos <= v@.len(),
    ensures
        r as int == scan_whitespace_back(v@, pos as int),
        r <= pos,
{
    let mut i = pos;
    while i > 0 && whitespace_char(v[i - 1])
        invariant
            0 <= i <= pos <= v@.len(),
            scan_whitespace_back(v@, pos as int) == scan_whitespace_back(v@, i as int),
        decreases i,
    {
        i = i - 1;
    }
    i
}

/// Executable counterpart of [`scan_line_endings`].
pub fn line_endings_end(v: &Vec<char>, pos: usize) -> (r: usize)
    requires
        pos <= v@.len(),
    ensures
        r as int == scan_line_endings(v@, pos as int),
        pos <= r <= v@.len(),
{
    let mut i = pos;
    loop
        invariant
            pos <= i <= v@.len(),
            scan_line_endings(v@, pos as int) == scan_line_endings(v@, i as int),
        decreases v@.len() - i,
    {
        if i < v.len() && v[i] == '\n' {
            i = i + 1;
        } else if i < v.len() && v[i] == '\r' && i + 1 < v.len() && v[i + 1] == '\n' {
            i = i + 2;
        } else {
            return i;
        }
    }
}

/// Executable counterpart of [`scan_blank_lines`].
pub fn blank_lines_end(v: &Vec<char>, pos: usize) -> (r: usize)
    requires
        pos <= v@.len(),
    ensures
        r as int == scan_blank_lines(v@, pos as int),
        pos <= r <= v@.len(),
{
    let mut i = pos;
    loop
        invariant
            pos <= i <= v@.len(),
            scan_blank_lines(v@, pos as int) == scan_blank_lines(v@, i as int),
        decreases v@.len() - i,
    {
        let spaces = spaces_end(v, i);
        let endings = line_endings_end(v, spaces);
        if endings > spaces {
            i = endings;
        } else {
            return i;
        }
    }
}

/// Executable test for [`seq_at`].
pub fn matches_at(v: &Vec<char>, pos: usize, w: &Vec<char>) -> (r: bool)
    ensures
        r == seq_at(v@, pos as int, w@),
{
    if pos > v.len() || w.len() > v.len() - pos {
        return false;
    }
    let mut i: usize = 0;
    while i < w.len()
        invariant
            0 <= i <= w@.len(),
            pos + w@.len() <= v@.len(),
            v@.len() <= usize::MAX,
            forall|j: int| 0 <= j < i ==> (#[trigger] v@[pos + j]) == w@[j],
        decreases w@.len() - i,
    {
        if v[pos + i] != w[i] {
            return false;
        }
        i = i + 1;
    }
    true
}

/// Copies the characters of `v` between `from` and `to` into a fresh vector.
pub fn copy_range(v: &Vec<char>, from: usize, to: usize) -> (r: Vec<char>)
    requires
        from <= to <= v@.len(),
    ensures
        r@ == v@.subrange(from as int, to as int),
{
    let mut r: Vec<char> = Vec::new();
    let mut i = from;
    while i < to
        invariant
            from <= i <= to <= v@.len(),
            r@ == v@.subrange(from as int, i as int),
        decreases to - i,
    {
        r.push(v[i]);
        proof {
            assert(r@ =~= v@.subrange(from as int, i as int + 1));
        }
        i = i + 1;
    }
    r
}

/// Appends the characters of `v` between `from` and `to` onto `dst`.
pub fn append_range(dst: &mut Vec<char>, v: &Vec<char>, from: usize, to: usize)
    requires
        from <= to <= v@.len(),
    ensures
        final(dst)@ == old(dst)@ + v@.subrange(from as int, to as int),
{
    let mut i = from;
    while i < to
        invariant
            from <= i <= to <= v@.len(),
            dst@ == old(dst)@ + v@.subrange(from as int, i as int),
        decreases to - i,
    {
        dst.push(v[i]);
        proof {
            assert(dst@ =~= old(dst)@ + v@.subrange(from as int, i as int + 1));
        }
        i = i + 1;
    }
}

/// Executable test for [`ws_only`] on a range of `v`.
pub fn range_ws_only(v: &Vec<char>, from: usize, to: usize) -> (r: bool)
    requires
        from <= to <= v@.len(),
    ensures
        r == ws_only(v@.subrange(from as int, to as int)),
{
    let mut i = from;
    while i < to
        invariant
            from <= i <= to <= v@.len(),
            forall|j: int| from <= j < i ==> #[trigger] is_whitespace_char(v@[j]),
        decreases to - i,
    {
        if !whitespace_char(v[i]) {
            proof {
                let w = v@.subrange(from as int, to as int);
                assert(w[i - from] == v@[i as int]);
            }
            return false;
        }
        i = i + 1;
    }
    proof {
        let w = v@.subrange(from as int, to as int);
        assert forall|j: int| 0 <= j < w.len() implies #[trigger] is_whitespace_char(w[j]) by {
            assert(w[j] == v@[from + j]);
        }
    }
    true
}

/// Copies the characters of a text into a vector, one entry per character.
pub fn str_to_chars(s: &str) -> (v: Vec<char>)
    ensures
        v@ == s@,
{
    let n = s.unicode_len();
    let mut v: Vec<char> = Vec::new();
    let mut i: usize = 0;
    while i < n
        invariant
            0 <= i <= n,
            n == s@.len(),
            v@ == s@.subrange(0, i as int),
        decreases n - i,
    {
        v.push(s.get_char(i));
        proof {
            assert(v@ =~= s@.subrange(0, i as int + 1));
        }
        i = i + 1;
    }
    proof {
        assert(v@ =~= s@);
    }
    v
}

/// Relies on `String`'s `FromIterator` implementation: collecting the
/// characters of a vector yields the string holding exactly those
/// characters in order.
#[verifier::external_body]
pub fn chars_to_string(v: &Vec<char>) -> (s: String)
    ensures
        s@ == v@,
{
    v.iter().collect()
}

/// Removes leading and trailing whitespace, copying the kept middle part.
pub fn trimmed(v: &Vec<char>) -> (r: Vec<char>)
    ensures
        r@ == trim_ws(v@),
{
    let a = whitespace_end(v, 0);
    let b = whitespace_back_start(v, v.len());
    if a <= b {
        copy_range(v, a, b)
    } else {
        Vec::new()
    }
}

} // verus!
