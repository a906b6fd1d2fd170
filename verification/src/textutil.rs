//! Character classification and word-boundary scanning.
//!
//! Word motions classify every character as whitespace, ASCII punctuation or
//! anything else; a word starts wherever a non-space character follows a
//! character of a different class. Both classifiers are written out here
//! against their exact Unicode definitions, so the scans are verified end to
//! end.

use vstd::prelude::*;
use vstd::string::*;

verus! {

/// A position inside the line sequence: row, character column, and the
/// character offset into the row's line. Columns are counted in characters,
/// so the offset always equals the column; it is kept as its own field so
/// that a position carries both names the editing code speaks of.
#[derive(Debug, Clone, Copy, PartialEq, Eq, Structural)]
pub struct Pos {
    pub row: usize,
    pub col: usize,
    pub offset: usize,
}

impl Pos {
    pub fn new(row: usize, col: usize, offset: usize) -> (r: Pos)
        ensures
            r == (Pos { row, col, offset }),
    {
        Pos { row, col, offset }
    }
}

/// The class a character falls in for word-boundary purposes.
#[derive(Debug, Clone, Copy, PartialEq, Eq, Structural)]
pub enum CharKind {
    Space,
    Punct,
    Other,
}

/// Unicode `White_Space` characters, the set `char::is_whitespace` accepts.
pub open spec fn is_space_char(c: char) -> bool {
    let u = c as u32;
    (0x09 <= u && u <= 0x0D) || u == 0x20 || u == 0x85 || u == 0xA0 || u == 0x1680
        || (0x2000 <= u && u <= 0x200A) || u == 0x2028 || u == 0x2029 || u == 0x202F
        || u == 0x205F || u == 0x3000
}

/// ASCII punctuation, the set `char::is_ascii_punctuation` accepts.
pub open spec fn is_punct_char(c: char) -> bool {
    let u = c as u32;
    (0x21 <= u && u <= 0x2F) || (0x3A <= u && u <= 0x40) || (0x5B <= u && u <= 0x60) || (0x7B
        <= u && u <= 0x7E)
}

/// The class of a character: whitespace first, then ASCII punctuation, then
/// everything else.
pub open spec fn char_kind(c: char) -> CharKind {
    if is_space_char(c) {
        CharKind::Space
    } else if is_punct_char(c) {
        CharKind::Punct
    } else {
        CharKind::Other
    }
}

impl CharKind {
    /// Classify one character.
    pub fn new(c: char) -> (r: CharKind)
        ensures
            r == char_kind(c),
    {
        let u = c as u32;
        if (0x09 <= u && u <= 0x0D) || u == 0x20 || u == 0x85 || u == 0xA0 || u == 0x1680 || (0x2000
            <= u && u <= 0x200A) || u == 0x2028 || u == 0x2029 || u == 0x202F || u == 0x205F || u
            == 0x3000 {
            CharKind::Space
        } else if (0x21 <= u && u <= 0x2F) || (0x3A <= u && u <= 0x40) || (0x5B <= u && u <= 0x60)
            || (0x7B <= u && u <= 0x7E) {
            CharKind::Punct
        } else {
            CharKind::Other
        }
    }
}

/// The first word start in `s` at or after position `i`, given the class
/// `prev` of the character just before `i`: the scan of a forward word
/// motion.
pub open spec fn find_boundary_fwd(s: Seq<char>, prev: CharKind, i: int) -> Option<int>
    decreases s.len() - i,
{
    if i < 0 || i >= s.len() {
        None
    } else if char_kind(s[i]) != CharKind::Space && char_kind(s[i]) != prev {
        Some(i)
    } else {
        find_boundary_fwd(s, char_kind(s[i]), i + 1)
    }
}

/// Where a forward word motion starting at column `col` lands inside the
/// line itself, or `None` when no word start follows.
pub open spec fn spec_find_word_start_forward(s: Seq<char>, col: int) -> Option<int> {
    if col >= s.len() {
        None
    } else {
        find_boundary_fwd(s, char_kind(s[col]), col + 1)
    }
}

/// The nearest word start at or before position `j + 1`, given the class
/// `cur` of the character at `j + 1`: the scan of a backward word motion.
/// When the scan reaches the head of the line, the head counts as a word
/// start iff the first character is not whitespace.
pub open spec fn find_boundary_back(s: Seq<char>, cur: CharKind, j: int) -> Option<int>
    decreases j + 1,
{
    if j < 0 {
        if cur != CharKind::Space {
            Some(0)
        } else {
            None
        }
    } else if cur != CharKind::Space && char_kind(s[j]) != cur {
        Some(j + 1)
    } else {
        find_boundary_back(s, char_kind(s[j]), j - 1)
    }
}

/// Where a backward word motion starting at column `col` lands inside the
/// line itself, or `None` when no word start precedes.
pub open spec fn spec_find_word_start_backward(s: Seq<char>, col: int) -> Option<int> {
    if col == 0 || col > s.len() {
        None
    } else {
        find_boundary_back(s, char_kind(s[col - 1]), col - 2)
    }
}

/// Scan `line` from `start_col` for the next word start: the next position
/// whose character is not whitespace and is of a different class than the
/// character before it.
pub fn find_word_start_forward(line: &str, start_col: usize) -> (r: Option<usize>)
    ensures
        match r {
            Some(c) => Some(c as int) == spec_find_word_start_forward(line@, start_col as int),
            None => spec_find_word_start_forward(line@, start_col as int) is None,
        },
{
    let n = line.unicode_len();
    if start_col >= n {
        return None;
    }
    let mut prev = CharKind::new(line.get_char(start_col));
    let mut i = start_col + 1;
    while i < n
        invariant
            start_col < i <= n,
            n == line@.len(),
            find_boundary_fwd(line@, char_kind(line@[start_col as int]), start_col + 1)
                == find_boundary_fwd(line@, prev, i as int),
        decreases n - i,
    {
        let cur = CharKind::new(line.get_char(i));
        if cur != CharKind::Space && prev != cur {
            return Some(i);
        }
        prev = cur;
        i = i + 1;
    }
    None
}

/// Scan backward from `start_col` for the nearest word start: the nearest
/// position at or before it whose character is not whitespace and either
/// sits at the head of the line or follows a character of a different class.
pub fn find_word_start_backward(line: &str, start_col: usize) -> (r: Option<usize>)
    requires
        start_col <= line@.len(),
    ensures
        match r {
            Some(c) => Some(c as int) == spec_find_word_start_backward(line@, start_col as int),
            None => spec_find_word_start_backward(line@, start_col as int) is None,
        },
{
    if start_col == 0 {
        return None;
    }
    let mut cur = CharKind::new(line.get_char(start_col - 1));
    let mut j = start_col - 1;
    // j counts how many characters are still unscanned before the one whose
    // class is held in cur.
    while j > 0
        invariant
            0 <= j < start_col <= line@.len(),
            find_boundary_back(line@, char_kind(line@[start_col - 1]), start_col - 2)
                == find_boundary_back(line@, cur, j - 1),
        decreases j,
    {
        let next = CharKind::new(line.get_char(j - 1));
        if cur != CharKind::Space && next != cur {
            return Some(j);
        }
        cur = next;
        j = j - 1;
    }
    if cur != CharKind::Space {
        Some(0)
    } else {
        None
    }
}

/// A forward boundary scan only ever lands on a position inside the line.
pub proof fn lemma_boundary_fwd_in_bounds(s: Seq<char>, prev: CharKind, i: int)
    ensures
        find_boundary_fwd(s, prev, i) matches Some(p) ==> 0 <= p < s.len(),
    decreases s.len() - i,
{
    if i < 0 || i >= s.len() {
    } else if char_kind(s[i]) != CharKind::Space && char_kind(s[i]) != prev {
    } else {
        lemma_boundary_fwd_in_bounds(s, char_kind(s[i]), i + 1);
    }
}

/// A backward boundary scan started at `j` only ever lands at `j + 1` or
/// before, and never before the head of the line.
pub proof fn lemma_boundary_back_in_bounds(s: Seq<char>, cur: CharKind, j: int)
    requires
        j >= -1,
    ensures
        find_boundary_back(s, cur, j) matches Some(p) ==> 0 <= p <= j + 1,
    decreases j + 1,
{
    if j < 0 {
    } else if cur != CharKind::Space && char_kind(s[j]) != cur {
    } else {
        lemma_boundary_back_in_bounds(s, char_kind(s[j]), j - 1);
    }
}

/// A run of `size` space characters.
pub fn spaces(size: u8) -> (r: String)
    ensures
        r@.len() == size as int,
        forall|i: int| 0 <= i < r@.len() ==> r@[i] == ' ',
{
    let mut s = String::new();
    let mut i: u8 = 0;
    while i < size
        invariant
            i <= size,
            s@.len() == i as int,
            forall|k: int| 0 <= k < s@.len() ==> s@[k] == ' ',
        decreases size - i,
    {
        push_char(&mut s, ' ');
        i = i + 1;
    }
    s
}

/// A run of `n` copies of the character `c`.
pub fn repeat_char(c: char, n: usize) -> (r: String)
    ensures
        r@ == Seq::new(n as nat, |i: int| c),
{
    let mut s = String::new();
    let mut i: usize = 0;
    while i < n
        invariant
            i <= n,
            s@ =~= Seq::new(i as nat, |k: int| c),
        decreases n - i,
    {
        push_char(&mut s, c);
        proof {
            assert(s@ =~= Seq::new((i + 1) as nat, |k: int| c));
        }
        i = i + 1;
    }
    proof {
        assert(s@ =~= Seq::new(n as nat, |i: int| c));
    }
    s
}

/// Relies on `String::push`: appends one character to the end of the string.
#[verifier::external_body]
pub fn push_char(s: &mut String, c: char) -> (r: ())
    ensures
        final(s)@ == old(s)@.push(c),
{
    s.push(c)
}

/// The number of characters in a line. Lines are always measured in
/// characters, never in bytes.
pub fn line_char_len(line: &String) -> (n: usize)
    ensures
        n as nat == line@.len(),
{
    line.as_str().unicode_len()
}

/// The line with the characters from column `a` up to column `b` replaced by
/// `mid`, and the new line's character count.
pub fn line_replace_range(line: &String, a: usize, b: usize, mid: &str) -> (r: (String, usize))
    requires
        a <= b <= line@.len(),
    ensures
        r.0@ == line@.subrange(0, a as int) + mid@ + line@.subrange(b as int, line@.len() as int),
        r.1 as nat == r.0@.len(),
{
    let n = line.as_str().unicode_len();
    let head = line.as_str().substring_char(0, a).to_owned();
    let head = head.concat(mid);
    let out = head.concat(line.as_str().substring_char(b, n));
    let out_len = out.as_str().unicode_len();
    (out, out_len)
}

/// A piece of a split text, with one trailing carriage return removed: only
/// `\n` and `\r\n` count as line breaks.
pub open spec fn strip_cr(p: Seq<char>) -> Seq<char> {
    if p.len() > 0 && p.last() == '\r' {
        p.drop_last()
    } else {
        p
    }
}

/// The pieces of `s` between its `\n` characters, scanning from position `i`
/// with the current piece starting at `start`, each piece stripped of one
/// trailing carriage return.
pub open spec fn split_nl(s: Seq<char>, i: int, start: int) -> Seq<Seq<char>>
    decreases s.len() - i,
{
    if i < 0 || start < 0 || i >= s.len() {
        seq![strip_cr(s.subrange(if 0 <= start <= s.len() { start } else { 0 }, s.len() as int))]
    } else if s[i] == '\n' {
        seq![strip_cr(s.subrange(if start <= i { start } else { i }, i))] + split_nl(s, i + 1, i + 1)
    } else {
        split_nl(s, i + 1, start)
    }
}

/// `s` split at its `\n` characters, each piece stripped of one trailing
/// carriage return: only `\n` and `\r\n` count as line breaks, a bare `\r`
/// does not.
pub open spec fn spec_split_newlines(s: Seq<char>) -> Seq<Seq<char>> {
    split_nl(s, 0, 0)
}

/// Split `s` into its lines: pieces between `\n` characters, each stripped of
/// one trailing carriage return. Yields at least one piece.
pub fn split_newlines(s: &str) -> (r: Vec<String>)
    ensures
        r@.map(|k: int, p: String| p@) == spec_split_newlines(s@),
        r@.len() >= 1,
{
    let n = s.unicode_len();
    let mut acc: Vec<String> = Vec::new();
    let mut i: usize = 0;
    let mut start: usize = 0;
    while i < n
        invariant
            0 <= start <= i <= n,
            n as nat == s@.len(),
            spec_split_newlines(s@) == acc@.map(|k: int, p: String| p@) + split_nl(
                s@,
                i as int,
                start as int,
            ),
        decreases n - i,
    {
        if s.get_char(i) == '\n' {
            let e = if i > start && s.get_char(i - 1) == '\r' {
                i - 1
            } else {
                i
            };
            let piece = s.substring_char(start, e).to_owned();
            proof {
                assert(strip_cr(s@.subrange(start as int, i as int)) =~= s@.subrange(
                    start as int,
                    e as int,
                ));
            }
            acc.push(piece);
            proof {
                assert(acc@.map(|k: int, p: String| p@) =~= acc@.subrange(0, acc@.len() - 1).map(
                    |k: int, p: String| p@,
                ).push(piece@));
            }
            start = i + 1;
        }
        i = i + 1;
    }
    let e = if n > start && s.get_char(n - 1) == '\r' {
        n - 1
    } else {
        n
    };
    let piece = s.substring_char(start, e).to_owned();
    proof {
        assert(strip_cr(s@.subrange(start as int, n as int)) =~= s@.subrange(
            start as int,
            e as int,
        ));
    }
    acc.push(piece);
    proof {
        assert(acc@.map(|k: int, p: String| p@) =~= acc@.subrange(0, acc@.len() - 1).map(
            |k: int, p: String| p@,
        ).push(piece@));
        assert(acc@.map(|k: int, p: String| p@) =~= spec_split_newlines(s@));
    }
    acc
}

/// The lines joined with `\n` between them.
pub open spec fn join_lines(ls: Seq<Seq<char>>) -> Seq<char>
    decreases ls.len(),
{
    if ls.len() == 0 {
        Seq::empty()
    } else if ls.len() == 1 {
        ls[0]
    } else {
        join_lines(ls.drop_last()).push('\n') + ls.last()
    }
}

/// Join the lines with `\n` between them.
pub fn join_lines_exec(ls: &Vec<String>) -> (r: String)
    ensures
        r@ == join_lines(ls@.map(|k: int, p: String| p@)),
{
    let ghost view = ls@.map(|k: int, p: String| p@);
    let mut out = String::new();
    let mut i: usize = 0;
    while i < ls.len()
        invariant
            0 <= i <= ls@.len(),
            view == ls@.map(|k: int, p: String| p@),
            out@ == join_lines(view.subrange(0, i as int)),
        decreases ls@.len() - i,
    {
        if i > 0 {
            push_char(&mut out, '\n');
        }
        out.append(ls[i].as_str());
        proof {
            assert(view.subrange(0, i + 1).drop_last() =~= view.subrange(0, i as int));
            assert(view.subrange(0, i + 1).last() == view[i as int]);
            if i == 0 {
                assert(out@ =~= join_lines(view.subrange(0, 1)));
            }
        }
        i = i + 1;
    }
    proof {
        assert(view.subrange(0, view.len() as int) =~= view);
    }
    out
}

} // verus!
