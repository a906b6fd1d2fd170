//! Per-row style compositing.
//!
//! The highlighter takes one line of raw text plus the regions to emphasize —
//! the cursor cell, a selection span, search matches — and produces an ordered
//! sequence of styled display fragments covering the line. Regions are kept
//! as boundary events (a start carrying a style, or an end) at character
//! offsets. The events are sorted by offset, starts of higher priority after
//! lower at equal offsets so the higher-priority region wins there, and a
//! style stack resolves the overlaps: a start emits the run since the last
//! event in the current style and pushes it; an end emits likewise and pops.
//! Before a run is emitted, a display transform replaces every character with
//! the mask character when masking is on, or else expands tabs to the next
//! tab stop counted in display columns.

use vstd::prelude::*;
use vstd::string::*;
use crate::style::Style;
use crate::textutil::{line_char_len, push_char, repeat_char};
use crate::width::{char_width, display_width_of_char};

verus! {

/// One styled display fragment: a run of display text and its style.
#[derive(Debug, Clone, PartialEq, Eq)]
pub struct Span {
    pub content: String,
    pub style: Style,
}

/// A boundary event: a region opens here with a style, or the region opened
/// last closes.
#[derive(Debug, Clone, Copy)]
pub enum Boundary {
    Cursor(Style),
    Search(Style),
    Select(Style),
    End,
}

/// The priority rank of a boundary: the cursor wins over search, search over
/// selection, and an end sorts before every start at the same offset.
pub open spec fn rank(b: Boundary) -> int {
    match b {
        Boundary::Cursor(_) => 3,
        Boundary::Search(_) => 2,
        Boundary::Select(_) => 1,
        Boundary::End => 0,
    }
}

/// Event order: by offset, and at equal offsets by rising rank, so that the
/// start processed last — whose style then covers the shared run — is the one
/// of highest priority.
pub open spec fn ev_le(x: (Boundary, usize), y: (Boundary, usize)) -> bool {
    x.1 < y.1 || (x.1 == y.1 && rank(x.0) <= rank(y.0))
}

/// `x` inserted into the sorted event sequence `s`, behind every equal
/// element: a stable insertion.
pub open spec fn insert_ev(s: Seq<(Boundary, usize)>, x: (Boundary, usize)) -> Seq<
    (Boundary, usize),
>
    decreases s.len(),
{
    if s.len() == 0 {
        seq![x]
    } else if ev_le(s.last(), x) {
        s.push(x)
    } else {
        insert_ev(s.drop_last(), x).push(s.last())
    }
}

/// The events sorted by [`ev_le`], stably: an insertion sort.
pub open spec fn sort_evs(s: Seq<(Boundary, usize)>) -> Seq<(Boundary, usize)>
    decreases s.len(),
{
    if s.len() == 0 {
        Seq::empty()
    } else {
        insert_ev(sort_evs(s.drop_last()), s.last())
    }
}

/// A property of every element survives a stable insertion.
pub proof fn lemma_insert_ev_elems(
    s: Seq<(Boundary, usize)>,
    x: (Boundary, usize),
    p: spec_fn((Boundary, usize)) -> bool,
)
    requires
        forall|i: int| 0 <= i < s.len() ==> #[trigger] p(s[i]),
        p(x),
    ensures
        forall|i: int|
            0 <= i < insert_ev(s, x).len() ==> #[trigger] p(insert_ev(s, x)[i]),
    decreases s.len(),
{
    if s.len() == 0 {
    } else if ev_le(s.last(), x) {
    } else {
        assert(forall|i: int| 0 <= i < s.drop_last().len() ==> #[trigger] p(s.drop_last()[i]));
        lemma_insert_ev_elems(s.drop_last(), x, p);
        assert(p(s.last()));
        let inner = insert_ev(s.drop_last(), x);
        assert forall|i: int| 0 <= i < insert_ev(s, x).len() implies #[trigger] p(
            insert_ev(s, x)[i],
        ) by {
            if i < inner.len() {
                assert(p(inner[i]));
            } else {
                assert(insert_ev(s, x)[i] == s.last());
            }
        }
    }
}

/// A property of every element survives the sort.
pub proof fn lemma_sort_evs_elems(s: Seq<(Boundary, usize)>, p: spec_fn((Boundary, usize)) -> bool)
    requires
        forall|i: int| 0 <= i < s.len() ==> #[trigger] p(s[i]),
    ensures
        forall|i: int| 0 <= i < sort_evs(s).len() ==> #[trigger] p(sort_evs(s)[i]),
    decreases s.len(),
{
    if s.len() == 0 {
    } else {
        assert(forall|i: int| 0 <= i < s.drop_last().len() ==> #[trigger] p(s.drop_last()[i]));
        lemma_sort_evs_elems(s.drop_last(), p);
        lemma_insert_ev_elems(sort_evs(s.drop_last()), s.last(), p);
    }
}

/// The display text of a run from position `i` on, given the running display
/// width `w` so far and the tab width `t`: every tab becomes spaces up to the
/// next multiple of `t` (or vanishes when `t` is 0), every other character
/// stands as it is and adds its own display width. Yields the transformed
/// text and the running width after the run.
pub open spec fn expand_tabs_from(s: Seq<char>, i: int, w: int, t: int) -> (Seq<char>, int)
    decreases s.len() - i,
{
    if i < 0 || i >= s.len() {
        (Seq::empty(), w)
    } else if s[i] == '\t' {
        if t >= 1 {
            let fill = t - (w % t);
            let (rest, wend) = expand_tabs_from(s, i + 1, w + fill, t);
            (Seq::new(fill as nat, |k: int| ' ') + rest, wend)
        } else {
            expand_tabs_from(s, i + 1, w, t)
        }
    } else {
        let (rest, wend) = expand_tabs_from(s, i + 1, w + char_width(s[i]), t);
        (seq![s[i]] + rest, wend)
    }
}

/// The display transform of one run: fully masked, keeping the character
/// count, when a mask character is set; tab expansion otherwise.
pub open spec fn spec_build(s: Seq<char>, w: int, t: int, mask: Option<char>) -> (Seq<char>, int) {
    match mask {
        Some(mc) => (Seq::new(s.len(), |i: int| mc), w),
        None => expand_tabs_from(s, 0, w, t),
    }
}

/// The compositor's running state: the fragments emitted so far, the style in
/// force, where the next run starts, the stack of suspended styles, and the
/// running display width.
pub ghost struct HlState {
    pub spans: Seq<(Seq<char>, Style)>,
    pub style: Style,
    pub start: int,
    pub stack: Seq<Style>,
    pub width: int,
}

/// One event processed: the run since the previous event is emitted in the
/// current style (when non-empty); a start then pushes the current style and
/// takes over, an end pops back to the suspended style, or to the base style
/// with nothing suspended.
pub open spec fn hl_step(
    line: Seq<char>,
    t: int,
    mask: Option<char>,
    style_begin: Style,
    st: HlState,
    ev: (Boundary, usize),
) -> HlState {
    let end = ev.1 as int;
    let (txt, w2) = spec_build(line.subrange(st.start, end), st.width, t, mask);
    let emitted = if st.start < end {
        HlState { spans: st.spans.push((txt, st.style)), width: w2, ..st }
    } else {
        st
    };
    match ev.0 {
        Boundary::Cursor(s) => HlState {
            stack: emitted.stack.push(emitted.style),
            style: s,
            start: end,
            ..emitted
        },
        Boundary::Search(s) => HlState {
            stack: emitted.stack.push(emitted.style),
            style: s,
            start: end,
            ..emitted
        },
        Boundary::Select(s) => HlState {
            stack: emitted.stack.push(emitted.style),
            style: s,
            start: end,
            ..emitted
        },
        Boundary::End => if emitted.stack.len() > 0 {
            HlState {
                style: emitted.stack.last(),
                stack: emitted.stack.drop_last(),
                start: end,
                ..emitted
            }
        } else {
            HlState { style: style_begin, start: end, ..emitted }
        },
    }
}

/// The compositor's state after processing the events from position `i` on.
pub open spec fn hl_run(
    line: Seq<char>,
    t: int,
    mask: Option<char>,
    style_begin: Style,
    st: HlState,
    evs: Seq<(Boundary, usize)>,
    i: int,
) -> HlState
    decreases evs.len() - i,
{
    if i < 0 || i >= evs.len() {
        st
    } else {
        hl_run(line, t, mask, style_begin, hl_step(line, t, mask, style_begin, st, evs[i]), evs, i + 1)
    }
}

/// The highlighter for one row: the row's text, the boundary events gathered
/// so far (at character offsets), the row's base style, and the style
/// configuration. The two flags request one trailing space fragment for a
/// cursor or selection end sitting past the last character, keeping it
/// visible there.
#[derive(Debug)]
pub struct LineHighlighter {
    pub line: String,
    pub boundaries: Vec<(Boundary, usize)>,
    pub style_begin: Style,
    pub cursor_at_end: bool,
    pub cursor_style: Style,
    pub tab_len: u8,
    pub mask: Option<char>,
    pub select_at_end: bool,
    pub select_style: Style,
}

/// Every boundary offset lies within the line.
pub open spec fn bounds_ok(hl: LineHighlighter) -> bool {
    forall|i: int|
        0 <= i < hl.boundaries@.len() ==> (#[trigger] hl.boundaries@[i]).1 <= hl.line@.len()
}

/// The trailing fragment: one space in the cursor style when the cursor sits
/// past the last character, else one space in the selection style when the
/// selection ends there, else nothing.
pub open spec fn spec_trailing_of(
    cursor_at_end: bool,
    cursor_style: Style,
    select_at_end: bool,
    select_style: Style,
) -> Seq<(Seq<char>, Style)> {
    if cursor_at_end {
        seq![(seq![' '], cursor_style)]
    } else if select_at_end {
        seq![(seq![' '], select_style)]
    } else {
        Seq::empty()
    }
}

/// Everything the compositor yields for one row, as text and style pairs:
/// with no events, the whole transformed line in the base style (when
/// non-empty); otherwise the runs the sorted events produce through the
/// style stack, a tail run in the style left in force, and either way the
/// trailing space fragment when asked for.
pub open spec fn spec_compose(
    line: Seq<char>,
    boundaries: Seq<(Boundary, usize)>,
    style_begin: Style,
    cursor_at_end: bool,
    cursor_style: Style,
    tab: u8,
    mask: Option<char>,
    select_at_end: bool,
    select_style: Style,
) -> Seq<(Seq<char>, Style)> {
    let t = tab as int;
    let trailing = spec_trailing_of(cursor_at_end, cursor_style, select_at_end, select_style);
    let evs = sort_evs(boundaries);
    if evs.len() == 0 {
        let (txt, _w) = spec_build(line, 0, t, mask);
        let base: Seq<(Seq<char>, Style)> = if txt.len() > 0 {
            seq![(txt, style_begin)]
        } else {
            Seq::empty()
        };
        base + trailing
    } else {
        let st0 = HlState {
            spans: Seq::empty(),
            style: style_begin,
            start: 0,
            stack: Seq::empty(),
            width: 0,
        };
        let st1 = hl_run(line, t, mask, style_begin, st0, evs, 0);
        let (tail_txt, _w) = spec_build(line.subrange(st1.start, line.len() as int), st1.width, t, mask);
        let with_tail = if st1.start != line.len() {
            st1.spans.push((tail_txt, st1.style))
        } else {
            st1.spans
        };
        with_tail + trailing
    }
}

/// Everything `into_spans` returns, as text and style pairs.
pub open spec fn spec_into_spans(hl: LineHighlighter) -> Seq<(Seq<char>, Style)> {
    spec_compose(
        hl.line@,
        hl.boundaries@,
        hl.style_begin,
        hl.cursor_at_end,
        hl.cursor_style,
        hl.tab_len,
        hl.mask,
        hl.select_at_end,
        hl.select_style,
    )
}

/// The fragments as text and style pairs.
pub open spec fn spans_view(v: Seq<Span>) -> Seq<(Seq<char>, Style)> {
    v.map(|i: int, sp: Span| (sp.content@, sp.style))
}

impl LineHighlighter {
    /// A highlighter for one row with no regions marked yet.
    pub fn new(line: &str, cursor_style: Style, tab_len: u8, mask: Option<char>, select_style: Style) -> (r:
        LineHighlighter)
        ensures
            r == (LineHighlighter {
                line: r.line,
                boundaries: r.boundaries,
                style_begin: Style { fg: None, bg: None, modifiers: 0u16 },
                cursor_at_end: false,
                cursor_style,
                tab_len,
                mask,
                select_at_end: false,
                select_style,
            }),
            r.line@ == line@,
            r.boundaries@.len() == 0,
            bounds_ok(r),
    {
        LineHighlighter {
            line: line.to_owned(),
            boundaries: Vec::new(),
            style_begin: Style::plain(),
            cursor_at_end: false,
            cursor_style,
            tab_len,
            mask,
            select_at_end: false,
            select_style,
        }
    }

    /// Mark the cursor cell on this row: the character at `cursor_col` gets
    /// the cursor style; a cursor past the last character asks for the
    /// trailing space fragment instead. The row's base style becomes `style`.
    pub fn cursor_line(&mut self, cursor_col: usize, style: Style)
        requires
            bounds_ok(*old(self)),
        ensures
            bounds_ok(*final(self)),
            final(self).line == old(self).line,
            final(self).style_begin == style,
            final(self).cursor_style == old(self).cursor_style,
            final(self).tab_len == old(self).tab_len,
            final(self).mask == old(self).mask,
            final(self).select_style == old(self).select_style,
            final(self).select_at_end == old(self).select_at_end,
            if cursor_col < old(self).line@.len() {
                final(self).boundaries@ == old(self).boundaries@.push(
                    (Boundary::Cursor(old(self).cursor_style), cursor_col),
                ).push((Boundary::End, (cursor_col + 1) as usize)) && final(self).cursor_at_end
                    == old(self).cursor_at_end
            } else {
                final(self).boundaries@ == old(self).boundaries@ && final(self).cursor_at_end
                    == true
            },
    {
        let n = line_char_len(&self.line);
        if cursor_col < n {
            self.boundaries.push((Boundary::Cursor(self.cursor_style), cursor_col));
            self.boundaries.push((Boundary::End, cursor_col + 1));
        } else {
            self.cursor_at_end = true;
        }
        self.style_begin = style;
    }

    /// Mark search matches on this row: each non-degenerate range gets the
    /// given style.
    pub fn search(&mut self, matches: Vec<(usize, usize)>, style: Style)
        requires
            bounds_ok(*old(self)),
            forall|i: int|
                0 <= i < matches@.len() ==> (#[trigger] matches@[i]).0 <= old(self).line@.len()
                    && matches@[i].1 <= old(self).line@.len(),
        ensures
            bounds_ok(*final(self)),
            final(self).line == old(self).line,
            final(self).style_begin == old(self).style_begin,
            final(self).cursor_at_end == old(self).cursor_at_end,
            final(self).cursor_style == old(self).cursor_style,
            final(self).tab_len == old(self).tab_len,
            final(self).mask == old(self).mask,
            final(self).select_style == old(self).select_style,
            final(self).select_at_end == old(self).select_at_end,
            final(self).boundaries@ == old(self).boundaries@ + search_events(matches@, style),
    {
        let ghost bs0 = self.boundaries@;
        let mut i: usize = 0;
        while i < matches.len()
            invariant
                i <= matches@.len(),
                forall|k: int|
                    0 <= k < matches@.len() ==> (#[trigger] matches@[k]).0 <= self.line@.len()
                        && matches@[k].1 <= self.line@.len(),
                self.boundaries@ =~= bs0 + search_events(matches@.subrange(0, i as int), style),
                bounds_ok(*old(self)),
                bs0 == old(self).boundaries@,
                self.line == old(self).line,
                self.style_begin == old(self).style_begin,
                self.cursor_at_end == old(self).cursor_at_end,
                self.cursor_style == old(self).cursor_style,
                self.tab_len == old(self).tab_len,
                self.mask == old(self).mask,
                self.select_style == old(self).select_style,
                self.select_at_end == old(self).select_at_end,
                bounds_ok(*self),
            decreases matches@.len() - i,
        {
            let (s, e) = matches[i];
            if s != e {
                self.boundaries.push((Boundary::Search(style), s));
                self.boundaries.push((Boundary::End, e));
            }
            proof {
                assert(matches@.subrange(0, i + 1).drop_last() =~= matches@.subrange(0, i as int));
                assert(self.boundaries@ =~= bs0 + search_events(
                    matches@.subrange(0, i + 1),
                    style,
                ));
            }
            i = i + 1;
        }
        proof {
            assert(matches@.subrange(0, matches@.len() as int) =~= matches@);
        }
    }

    /// Mark the selection's intersection with this row: on the anchor row it
    /// runs from the anchor, on the final row up to its end, and rows fully
    /// inside are covered whole; a selection reaching past the last character
    /// asks for the trailing space fragment.
    pub fn selection(
        &mut self,
        current_row: usize,
        start_row: usize,
        start_off: usize,
        end_row: usize,
        end_off: usize,
    )
        requires
            bounds_ok(*old(self)),
            start_row == current_row ==> start_off <= old(self).line@.len(),
            end_row == current_row ==> end_off <= old(self).line@.len(),
            start_row == end_row ==> start_off <= end_off,
        ensures
            bounds_ok(*final(self)),
            final(self).line == old(self).line,
            final(self).style_begin == old(self).style_begin,
            final(self).cursor_at_end == old(self).cursor_at_end,
            final(self).cursor_style == old(self).cursor_style,
            final(self).tab_len == old(self).tab_len,
            final(self).mask == old(self).mask,
            final(self).select_style == old(self).select_style,
            ({
                let span = selection_span(
                    old(self).line@.len() as int,
                    current_row as int,
                    start_row as int,
                    start_off as int,
                    end_row as int,
                    end_off as int,
                );
                match span {
                    Some((s, e, at_end)) => final(self).select_at_end == (old(self).select_at_end
                        || at_end) && (if s != e {
                        final(self).boundaries@ == old(self).boundaries@.push(
                            (Boundary::Select(old(self).select_style), s as usize),
                        ).push((Boundary::End, e as usize))
                    } else {
                        final(self).boundaries@ == old(self).boundaries@
                    }),
                    None => final(self).select_at_end == old(self).select_at_end
                        && final(self).boundaries@ == old(self).boundaries@,
                }
            }),
    {
        let n = line_char_len(&self.line);
        let (start, end) = if current_row == start_row {
            if start_row == end_row {
                (start_off, end_off)
            } else {
                self.select_at_end = true;
                (start_off, n)
            }
        } else if current_row == end_row {
            (0, end_off)
        } else if start_row < current_row && current_row < end_row {
            self.select_at_end = true;
            (0, n)
        } else {
            return ;
        };
        if start != end {
            self.boundaries.push((Boundary::Select(self.select_style), start));
            self.boundaries.push((Boundary::End, end));
        }
    }
}

/// The priority rank of a boundary, for the event sort.
fn ev_rank(b: &Boundary) -> (r: u8)
    ensures
        r as int == rank(*b),
{
    match b {
        Boundary::Cursor(_) => 3,
        Boundary::Search(_) => 2,
        Boundary::Select(_) => 1,
        Boundary::End => 0,
    }
}

/// The event order as executable comparison.
fn ev_le_exec(x: &(Boundary, usize), y: &(Boundary, usize)) -> (r: bool)
    ensures
        r == ev_le(*x, *y),
{
    x.1 < y.1 || (x.1 == y.1 && ev_rank(&x.0) <= ev_rank(&y.0))
}

/// Where `x` goes in the sorted events `out`: behind every element at most
/// equal to it.
fn insertion_pos(out: &Vec<(Boundary, usize)>, x: (Boundary, usize)) -> (r: usize)
    ensures
        r <= out@.len(),
        insert_ev(out@, x) == out@.subrange(0, r as int).push(x) + out@.subrange(
            r as int,
            out@.len() as int,
        ),
{
    let mut j: usize = out.len();
    proof {
        assert(out@.subrange(0, j as int) =~= out@);
        assert(out@.subrange(j as int, out@.len() as int) =~= Seq::<(Boundary, usize)>::empty());
        assert(insert_ev(out@, x) =~= insert_ev(out@.subrange(0, j as int), x) + out@.subrange(
            j as int,
            out@.len() as int,
        ));
    }
    while j > 0
        invariant
            j <= out@.len(),
            insert_ev(out@, x) == insert_ev(out@.subrange(0, j as int), x) + out@.subrange(
                j as int,
                out@.len() as int,
            ),
        decreases j,
    {
        if ev_le_exec(&out[j - 1], &x) {
            proof {
                let pre = out@.subrange(0, j as int);
                assert(pre.last() == out@[j - 1]);
                assert(insert_ev(pre, x) == pre.push(x));
            }
            return j;
        }
        proof {
            let pre = out@.subrange(0, j as int);
            assert(pre.last() == out@[j - 1]);
            assert(pre.drop_last() =~= out@.subrange(0, j - 1));
            assert(insert_ev(pre, x) == insert_ev(out@.subrange(0, j - 1), x).push(out@[j - 1]));
            assert(insert_ev(out@.subrange(0, j - 1), x).push(out@[j - 1]) + out@.subrange(
                j as int,
                out@.len() as int,
            ) =~= insert_ev(out@.subrange(0, j - 1), x) + out@.subrange(
                j - 1,
                out@.len() as int,
            ));
        }
        j = j - 1;
    }
    proof {
        assert(out@.subrange(0, 0) =~= Seq::<(Boundary, usize)>::empty());
        assert(insert_ev(out@.subrange(0, 0), x) =~= out@.subrange(0, 0).push(x));
    }
    0
}

/// The events sorted by offset, equal offsets by rising rank; equal elements
/// keep their order.
fn sort_boundaries(v: Vec<(Boundary, usize)>) -> (r: Vec<(Boundary, usize)>)
    ensures
        r@ == sort_evs(v@),
{
    let mut out: Vec<(Boundary, usize)> = Vec::new();
    let mut i: usize = 0;
    proof {
        assert(v@.subrange(0, 0) =~= Seq::<(Boundary, usize)>::empty());
    }
    while i < v.len()
        invariant
            i <= v@.len(),
            out@ == sort_evs(v@.subrange(0, i as int)),
        decreases v@.len() - i,
    {
        let x = v[i];
        let j = insertion_pos(&out, x);
        let ghost out_before = out@;
        out.insert(j, x);
        proof {
            assert(v@.subrange(0, i + 1).drop_last() =~= v@.subrange(0, i as int));
            assert(v@.subrange(0, i + 1).last() == v@[i as int]);
            assert(out@ =~= out_before.subrange(0, j as int).push(x) + out_before.subrange(
                j as int,
                out_before.len() as int,
            ));
            assert(out@ =~= sort_evs(v@.subrange(0, i + 1)));
        }
        i = i + 1;
    }
    proof {
        assert(v@.subrange(0, v@.len() as int) =~= v@);
    }
    out
}

/// The display transform of one run: masked text when a mask character is
/// set, tab expansion otherwise. Takes the running display width reduced
/// modulo the tab width and gives back the reduced width after the run; the
/// ghost argument carries the full running width of the transform.
fn build_run(part: &str, wmod: usize, tab: u8, mask: Option<char>, Ghost(w): Ghost<int>) -> (r: (
    String,
    usize,
))
    requires
        tab >= 1 ==> w >= 0 && wmod as int == w % (tab as int) && wmod < tab,
    ensures
        r.0@ == spec_build(part@, w, tab as int, mask).0,
        tab >= 1 ==> w <= spec_build(part@, w, tab as int, mask).1 && r.1 as int == spec_build(
            part@,
            w,
            tab as int,
            mask,
        ).1 % (tab as int) && r.1 < tab,
{
    if let Some(mc) = mask {
        let n = part.unicode_len();
        let out = repeat_char(mc, n);
        return (out, wmod);
    }
    let n = part.unicode_len();
    let mut out = String::new();
    let mut wm = wmod;
    let ghost mut gw: int = w;
    let mut j: usize = 0;
    while j < n
        invariant
            j <= n,
            n as nat == part@.len(),
            tab >= 1 ==> (w <= gw && wm as int == gw % (tab as int) && wm < tab),
            expand_tabs_from(part@, 0, w, tab as int).0 =~= out@ + expand_tabs_from(
                part@,
                j as int,
                gw,
                tab as int,
            ).0,
            expand_tabs_from(part@, 0, w, tab as int).1 == expand_tabs_from(
                part@,
                j as int,
                gw,
                tab as int,
            ).1,
        decreases n - j,
    {
        let c = part.get_char(j);
        let ghost gw_before = gw;
        let ghost out_before = out@;
        if c == '\t' {
            if tab >= 1 {
                let fill = (tab as usize) - wm;
                let fill_str = crate::textutil::spaces(fill as u8);
                out.append(fill_str.as_str());
                proof {
                    gw = gw + fill;
                    vstd::arithmetic::div_mod::lemma_fundamental_div_mod(gw_before, tab as int);
                    assert(gw == (tab as int) * (gw_before / (tab as int)) + (tab as int));
                    assert(gw == (tab as int) * (gw_before / (tab as int) + 1)) by (nonlinear_arith)
                        requires
                            gw == (tab as int) * (gw_before / (tab as int)) + (tab as int),
                    ;
                    vstd::arithmetic::div_mod::lemma_mod_multiples_basic(
                        gw_before / (tab as int) + 1,
                        tab as int,
                    );
                    assert(fill_str@ =~= Seq::new(fill as nat, |k: int| ' '));
                    assert(expand_tabs_from(part@, j as int, gw_before, tab as int).0
                        =~= Seq::new(fill as nat, |k: int| ' ') + expand_tabs_from(
                        part@,
                        j + 1,
                        gw,
                        tab as int,
                    ).0);
                    assert(expand_tabs_from(part@, 0, w, tab as int).0 =~= out@
                        + expand_tabs_from(part@, j + 1, gw, tab as int).0);
                }
                wm = 0;
            }
        } else {
            let cw = display_width_of_char(c);
            push_char(&mut out, c);
            if tab >= 1 {
                wm = (wm + cw) % (tab as usize);
            }
            proof {
                gw = gw + char_width(c);
                if tab >= 1 {
                    vstd::arithmetic::div_mod::lemma_add_mod_noop_right(
                        char_width(c) as int,
                        gw_before,
                        tab as int,
                    );
                }
                assert(expand_tabs_from(part@, j as int, gw_before, tab as int).0 =~= seq![c]
                    + expand_tabs_from(part@, j + 1, gw, tab as int).0);
                assert(out@ =~= out_before + seq![c]);
                assert(expand_tabs_from(part@, 0, w, tab as int).0 =~= out@ + expand_tabs_from(
                    part@,
                    j + 1,
                    gw,
                    tab as int,
                ).0);
            }
        }
        j = j + 1;
    }
    proof {
        assert(expand_tabs_from(part@, n as int, gw, tab as int).0 =~= Seq::<char>::empty());
        assert(out@ + Seq::<char>::empty() =~= out@);
    }
    (out, wm)
}

/// The boundary events that a list of search matches contributes, in order:
/// a start and an end for each non-degenerate range.
pub open spec fn search_events(matches: Seq<(usize, usize)>, style: Style) -> Seq<(Boundary, usize)>
    decreases matches.len(),
{
    if matches.len() == 0 {
        Seq::empty()
    } else {
        let prev = search_events(matches.drop_last(), style);
        let m = matches.last();
        if m.0 != m.1 {
            prev.push((Boundary::Search(style), m.0)).push((Boundary::End, m.1))
        } else {
            prev
        }
    }
}

/// One space character as a string, for the trailing fragment.
fn one_space() -> (r: String)
    ensures
        r@ == seq![' '],
{
    let mut s = String::new();
    push_char(&mut s, ' ');
    proof {
        assert(s@ =~= seq![' ']);
    }
    s
}

impl LineHighlighter {
    /// Resolve the marked regions into styled fragments covering the line:
    /// the events sorted by offset (higher-priority starts last at equal
    /// offsets), the runs between them emitted through the style stack, each
    /// run passed through the display transform, and one trailing space
    /// fragment when the cursor or the selection end sits past the last
    /// character.
    pub fn into_spans(self) -> (r: Vec<Span>)
        requires
            bounds_ok(self),
        ensures
            spans_view(r@) == spec_into_spans(self),
    {
        let LineHighlighter {
            line,
            boundaries,
            style_begin,
            cursor_at_end,
            cursor_style,
            tab_len,
            mask,
            select_at_end,
            select_style,
        } = self;
        let t = tab_len;
        let evs = sort_boundaries(boundaries);
        proof {
            let p = |e: (Boundary, usize)| e.1 <= self.line@.len();
            assert forall|k: int| 0 <= k < self.boundaries@.len() implies #[trigger] p(
                self.boundaries@[k],
            ) by {
                assert((self.boundaries@[k]).1 <= self.line@.len());
            }
            lemma_sort_evs_elems(self.boundaries@, p);
            assert forall|k: int|
                0 <= k < sort_evs(self.boundaries@).len() implies (#[trigger] sort_evs(
                self.boundaries@,
            )[k]).1 <= line@.len() by {
                assert(p(sort_evs(self.boundaries@)[k]));
            }
        }
        let n = line_char_len(&line);
        let mut spans: Vec<Span> = Vec::new();
        if evs.len() == 0 {
            let (txt, _wm) = build_run(line.as_str(), 0, t, mask, Ghost(0));
            if txt.as_str().unicode_len() > 0 {
                spans.push(Span { content: txt, style: style_begin });
            }
            if cursor_at_end {
                spans.push(Span { content: one_space(), style: cursor_style });
            } else if select_at_end {
                spans.push(Span { content: one_space(), style: select_style });
            }
            proof {
                assert(spans_view(spans@) =~= spec_into_spans(self));
            }
            return spans;
        }
        let mut style = style_begin;
        let mut start: usize = 0;
        let mut stack: Vec<Style> = Vec::new();
        let mut wm: usize = 0;
        let ghost mut gw: int = 0;
        let ghost st0 = HlState {
            spans: Seq::<(Seq<char>, Style)>::empty(),
            style: style_begin,
            start: 0,
            stack: Seq::<Style>::empty(),
            width: 0,
        };
        let mut i: usize = 0;
        proof {
            assert(spans_view(spans@) =~= st0.spans);
        }
        while i < evs.len()
            invariant
                i <= evs@.len(),
                evs@ == sort_evs(self.boundaries@),
                forall|k: int|
                    0 <= k < evs@.len() ==> (#[trigger] evs@[k]).1 <= line@.len(),
                line == self.line,
                t == self.tab_len,
                mask == self.mask,
                style_begin == self.style_begin,
                st0 == (HlState {
                    spans: Seq::<(Seq<char>, Style)>::empty(),
                    style: self.style_begin,
                    start: 0,
                    stack: Seq::<Style>::empty(),
                    width: 0,
                }),
                start <= line@.len(),
                t >= 1 ==> (gw >= 0 && wm as int == gw % (t as int) && wm < t),
                hl_run(
                    line@,
                    t as int,
                    mask,
                    style_begin,
                    HlState {
                        spans: spans_view(spans@),
                        style,
                        start: start as int,
                        stack: stack@,
                        width: gw,
                    },
                    evs@,
                    i as int,
                ) == hl_run(line@, t as int, mask, style_begin, st0, evs@, 0),
            decreases evs@.len() - i,
        {
            let (b, end) = evs[i];
            let ghost pre = HlState {
                spans: spans_view(spans@),
                style,
                start: start as int,
                stack: stack@,
                width: gw,
            };
            if start < end {
                let part = line.as_str().substring_char(start, end);
                let ghost spans_before = spans@;
                let (txt, w2) = build_run(part, wm, t, mask, Ghost(gw));
                spans.push(Span { content: txt, style });
                wm = w2;
                proof {
                    gw = spec_build(
                        line@.subrange(start as int, end as int),
                        gw,
                        t as int,
                        mask,
                    ).1;
                    assert(spans_view(spans@) =~= spans_view(spans_before).push(
                        (txt@, style),
                    ));
                }
            }
            match b {
                Boundary::Cursor(s) => {
                    stack.push(style);
                    style = s;
                },
                Boundary::Search(s) => {
                    stack.push(style);
                    style = s;
                },
                Boundary::Select(s) => {
                    stack.push(style);
                    style = s;
                },
                Boundary::End => {
                    style = match stack.pop() {
                        Some(s) => s,
                        None => style_begin,
                    };
                },
            }
            start = end;
            i = i + 1;
            proof {
                assert(HlState {
                    spans: spans_view(spans@),
                    style,
                    start: start as int,
                    stack: stack@,
                    width: gw,
                } == hl_step(line@, t as int, mask, style_begin, pre, evs@[i - 1]));
            }
        }
        let ghost st1 = hl_run(line@, t as int, mask, style_begin, st0, evs@, 0);
        proof {
            assert(st1 == (HlState {
                spans: spans_view(spans@),
                style,
                start: start as int,
                stack: stack@,
                width: gw,
            }));
        }
        if start != n {
            let part = line.as_str().substring_char(start, n);
            let ghost spans_before = spans@;
            let (txt, _w2) = build_run(part, wm, t, mask, Ghost(gw));
            spans.push(Span { content: txt, style });
            proof {
                assert(spans_view(spans@) =~= spans_view(spans_before).push((txt@, style)));
            }
        }
        let ghost spans_with_tail = spans@;
        if cursor_at_end {
            spans.push(Span { content: one_space(), style: cursor_style });
            proof {
                assert(spans_view(spans@) =~= spans_view(spans_with_tail).push(
                    (seq![' '], cursor_style),
                ));
            }
        } else if select_at_end {
            spans.push(Span { content: one_space(), style: select_style });
            proof {
                assert(spans_view(spans@) =~= spans_view(spans_with_tail).push(
                    (seq![' '], select_style),
                ));
            }
        }
        proof {
            assert(spans_view(spans@) =~= spec_into_spans(self));
        }
        spans
    }
}

/// The boundary events and flags that one row of a buffer contributes: the
/// cursor cell when the cursor sits on this row (or the at-end flag when it
/// sits past the last character), and the selection's intersection with the
/// row. Yields (events, base style, cursor at end, selection at end).
pub open spec fn spec_row_marks(t: crate::textarea::TextArea, line: Seq<char>, row: int) -> (
    Seq<(Boundary, usize)>,
    Style,
    bool,
    bool,
) {
    let cursor_here = row == t.cursor.0;
    let cur_evs: Seq<(Boundary, usize)> = if cursor_here && t.cursor.1 < line.len() {
        seq![
            (Boundary::Cursor(t.cursor_style), t.cursor.1),
            (Boundary::End, (t.cursor.1 + 1) as usize),
        ]
    } else {
        Seq::empty()
    };
    let cursor_at_end = cursor_here && t.cursor.1 >= line.len();
    let base_style = if cursor_here {
        t.cursor_line_style
    } else {
        Style { fg: None, bg: None, modifiers: 0u16 }
    };
    match crate::textarea::bm_sel_range(t.model()) {
        Some((s, e)) => match selection_span(
            line.len() as int,
            row,
            s.0 as int,
            s.1 as int,
            e.0 as int,
            e.1 as int,
        ) {
            Some((a, b, at_end)) => (
                cur_evs + if a != b {
                    seq![
                        (Boundary::Select(t.select_style), a as usize),
                        (Boundary::End, b as usize),
                    ]
                } else {
                    Seq::empty()
                },
                base_style,
                cursor_at_end,
                at_end,
            ),
            None => (cur_evs, base_style, cursor_at_end, false),
        },
        None => (cur_evs, base_style, cursor_at_end, false),
    }
}

impl crate::textarea::TextArea {
    /// The styled display fragments for row `row`, whose text is `line`: the
    /// cursor cell and the selection's intersection with the row composited
    /// over the line through the display transform. Rendering never changes
    /// the stored content.
    pub fn line_spans(&self, line: &str, row: usize) -> (r: Vec<Span>)
        requires
            self.wf(),
            row < self.lines@.len(),
            line@ == self.model().lines[row as int],
        ensures
            ({
                let (evs, base_style, cursor_at_end, select_at_end) = spec_row_marks(
                    *self,
                    line@,
                    row as int,
                );
                spans_view(r@) == spec_compose(
                    line@,
                    evs,
                    base_style,
                    cursor_at_end,
                    self.cursor_style,
                    self.tab_len,
                    self.mask,
                    select_at_end,
                    self.select_style,
                )
            }),
    {
        let mut hl = LineHighlighter::new(
            line,
            self.cursor_style,
            self.tab_len,
            self.mask,
            self.select_style,
        );
        if row == self.cursor.0 {
            hl.cursor_line(self.cursor.1, self.cursor_line_style);
        }
        if let Some((s, e)) = self.selection_range() {
            hl.selection(row, s.0, s.1, e.0, e.1);
        }
        proof {
            let (evs, base_style, cursor_at_end, select_at_end) = spec_row_marks(
                *self,
                line@,
                row as int,
            );
            assert(hl.boundaries@ =~= evs);
        }
        hl.into_spans()
    }
}

/// How the selection intersects one row: the covered span at character
/// offsets and whether it reaches past the last character, or `None` when the
/// row lies outside the selection.
pub open spec fn selection_span(
    line_len: int,
    current_row: int,
    start_row: int,
    start_off: int,
    end_row: int,
    end_off: int,
) -> Option<(int, int, bool)> {
    if current_row == start_row {
        if start_row == end_row {
            Some((start_off, end_off, false))
        } else {
            Some((start_off, line_len, true))
        }
    } else if current_row == end_row {
        Some((0, end_off, false))
    } else if start_row < current_row && current_row < end_row {
        Some((0, line_len, true))
    } else {
        None
    }
}

} // verus!
