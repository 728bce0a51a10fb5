//! The context renderer: margin computation, per-line wrapping, highlight
//! bracket drawing, comment placement, and merge-aware leading and trailing
//! decoration. Every emitting function is specified by a character-sequence
//! function it is proved to produce exactly.

use vstd::prelude::*;

use crate::context::{Context, ContextV, lemma_context_view, spec_is_empty};
use crate::highlight::{Highlight, HighlightV};
use crate::text::{
    chars_to_string, dec_digits, number_chars, push_repeat, push_str_chars, push_vec_chars,
    spec_lines, spec_repeat, split_lines, str_to_chars,
};

verus! {

// The glyphs of the rendered frame.
pub const ARC_BOTTOM_TO_RIGHT: char = '╭';
pub const ARC_TOP_TO_RIGHT: char = '╰';
pub const LEFT_TO_RIGHT: char = '─';
pub const TOP_ENDCAP: char = '╷';
pub const RIGHT_ENDCAP: char = '╴';
pub const LEFT_ENDCAP: char = '╶';
pub const BOTTOM_ENDCAP: char = '╵';
pub const TOP_TO_BOTTOM: char = '│';
pub const ELLIPSIS: char = '…';
pub const LENGTH_ZERO_HIGHLIGHT: char = 'ò';
pub const LENGTH_ONE_HIGHLIGHT: char = '⁃';

/// Addition clamped at the machine word maximum, as the saturating
/// executable additions behave.
pub open spec fn sat_add(a: nat, b: nat) -> nat {
    if a + b > usize::MAX {
        usize::MAX as nat
    } else {
        a + b
    }
}

/// Subtraction clamped at zero.
pub open spec fn nat_sub(a: nat, b: nat) -> nat {
    if a >= b {
        (a - b) as nat
    } else {
        0
    }
}

/// The smaller of two values.
pub open spec fn nat_min(a: nat, b: nat) -> nat {
    if a <= b {
        a
    } else {
        b
    }
}

/// The larger of two values.
pub open spec fn nat_max(a: nat, b: nat) -> nat {
    if a >= b {
        a
    } else {
        b
    }
}

/// How a context takes part in a merged multi-context rendering: alone, or
/// as the first, a middle, or the last member of a group that shares one
/// margin.
#[derive(Clone, Copy)]
pub enum Merged {
    No,
    First(usize),
    Middle(usize),
    Last(usize),
}

/// Whether this role draws the leading decorator.
pub open spec fn spec_leading_decoration(m: Merged) -> bool {
    match m {
        Merged::No | Merged::First(_) => true,
        _ => false,
    }
}

/// Whether this role draws the trailing decorator.
pub open spec fn spec_trailing_decoration(m: Merged) -> bool {
    match m {
        Merged::No | Merged::Last(_) => true,
        _ => false,
    }
}

/// The margin shared by the merged group, if any.
pub open spec fn spec_merged_margin(m: Merged) -> Option<usize> {
    match m {
        Merged::First(v) | Merged::Middle(v) | Merged::Last(v) => Some(v),
        Merged::No => None,
    }
}

impl Merged {
    pub fn leading_decoration(&self) -> (r: bool)
        ensures
            r == spec_leading_decoration(*self),
    {
        match self {
            Merged::No | Merged::First(_) => true,
            _ => false,
        }
    }

    pub fn trailing_decoration(&self) -> (r: bool)
        ensures
            r == spec_trailing_decoration(*self),
    {
        match self {
            Merged::No | Merged::Last(_) => true,
            _ => false,
        }
    }

    pub fn margin(&self) -> (r: Option<usize>)
        ensures
            r == spec_merged_margin(*self),
    {
        match self {
            Merged::First(v) | Merged::Middle(v) | Merged::Last(v) => Some(*v),
            Merged::No => None,
        }
    }
}

/// Ten to the `k`-th power.
pub open spec fn pow10(k: nat) -> nat
    decreases k,
{
    if k == 0 {
        1
    } else {
        10 * pow10((k - 1) as nat)
    }
}

/// A number below ten to the `k` has at most `k` decimal digits.
proof fn lemma_dec_digits_len(n: nat, k: nat)
    requires
        n < pow10(k),
        k >= 1,
    ensures
        dec_digits(n).len() <= k,
    decreases k,
{
    if n < 10 {
    } else {
        assert(pow10(k) == 10 * pow10((k - 1) as nat));
        if k == 1 {
            assert(pow10(0nat) == 1);
            assert(false);
        }
        vstd::arithmetic::div_mod::lemma_fundamental_div_mod(n as int, 10);
        assert(n / 10 < pow10((k - 1) as nat));
        lemma_dec_digits_len(n / 10, (k - 1) as nat);
    }
}

/// The margin a context needs on its own: zero without a line number, else
/// the decimal width of the largest line number that can appear (the first
/// line number plus the number of logical lines).
pub open spec fn spec_margin_of(c: ContextV) -> nat {
    match c.line_number {
        None => 0,
        Some(n) => dec_digits(n as nat + spec_lines(c.lines).len()).len(),
    }
}

/// The margin used for rendering: the merged group's shared margin when
/// there is one, else the context's own.
pub open spec fn spec_used_margin(c: ContextV, merged: Merged) -> nat {
    match spec_merged_margin(merged) {
        Some(m) => m as nat,
        None => spec_margin_of(c),
    }
}

impl Context {
    /// The margin needed for this context's line numbers; at most 29
    /// characters, since line counts and numbers are machine words.
    pub(crate) fn margin(&self) -> (r: usize)
        ensures
            r as nat == spec_margin_of(self@),
            r <= 29,
    {
        proof {
            lemma_context_view(self);
        }
        match self.line_number {
            None => 0,
            Some(n) => {
                let chars = str_to_chars(self.lines.as_str());
                let pieces = split_lines(&chars);
                let count = pieces.len();
                let x: u128 = n as u128 + count as u128;
                proof {
                    reveal_with_fuel(pow10, 30);
                    assert(pow10(29) == 100000000000000000000000000000nat);
                    assert((u32::MAX as nat) + (u64::MAX as nat) < pow10(29));
                    assert(count as nat <= usize::MAX as nat);
                    assert(usize::MAX as nat <= u64::MAX as nat);
                    lemma_dec_digits_len(x as nat, 29);
                }
                let digits = number_chars(x);
                digits.len()
            },
        }
    }
}

/// One when the flag is set, zero otherwise.
pub open spec fn b2n(b: bool) -> nat {
    if b {
        1
    } else {
        0
    }
}

/// The `:<line number>` piece of a source locator.
pub open spec fn spec_line_piece(c: ContextV) -> Seq<char> {
    match c.line_number {
        Some(n) => seq![':'] + dec_digits(n as nat),
        None => Seq::empty(),
    }
}

/// The `:<column>` piece of a source locator: present only when exactly one
/// highlight sits on logical line zero and a line number is present; the
/// column is the first line offset plus the highlight's offset, one-based.
pub open spec fn spec_column_piece(c: ContextV) -> Seq<char> {
    if c.highlights.len() == 1 && c.highlights[0].line == 0 && c.line_number is Some {
        seq![':'] + dec_digits(c.first_line_offset + c.highlights[0].offset + 1)
    } else {
        Seq::empty()
    }
}

/// The bracketed locator rendered for a context that has a source name or
/// line number but no text: `[source:line:column]` with the optional pieces.
pub open spec fn spec_locator(c: ContextV) -> Seq<char> {
    seq!['['] + (match c.source {
        Some(s) => s,
        None => Seq::empty(),
    }) + spec_line_piece(c) + spec_column_piece(c) + seq![']']
}

/// The leading decorator line: with a source name an arc into the bracketed
/// locator, else a lone top end-cap, after the margin's padding.
pub open spec fn spec_leading(c: ContextV, margin: nat) -> Seq<char> {
    spec_repeat(' ', margin) + seq![' '] + (match c.source {
        Some(s) => seq![ARC_BOTTOM_TO_RIGHT, LEFT_TO_RIGHT, '['] + s + spec_line_piece(c)
            + spec_column_piece(c) + seq![']'],
        None => seq![TOP_ENDCAP],
    })
}

/// The trailing decorator line: with a note an arc into the bracketed note,
/// else a lone bottom end-cap, after the margin's padding.
pub open spec fn spec_trailing(note: Option<Seq<char>>, margin: nat) -> Seq<char> {
    seq!['\n'] + spec_repeat(' ', margin) + seq![' '] + (match note {
        Some(nt) => seq![ARC_TOP_TO_RIGHT, LEFT_TO_RIGHT, '['] + nt + seq![']'],
        None => seq![BOTTOM_ENDCAP],
    })
}

/// The highlights that sit on logical line `li`, in their original order.
pub open spec fn filter_line(hs: Seq<HighlightV>, li: nat) -> Seq<HighlightV>
    decreases hs.len(),
{
    if hs.len() == 0 {
        Seq::empty()
    } else {
        filter_line(hs.drop_last(), li) + (if hs.last().line == li {
            seq![hs.last()]
        } else {
            Seq::empty()
        })
    }
}

/// Insert `x` into `s`, which is sorted by offset, after every element whose
/// offset is not greater: the insertion step of a stable sort.
pub open spec fn insert_by_offset(s: Seq<HighlightV>, x: HighlightV) -> Seq<HighlightV>
    decreases s.len(),
{
    if s.len() == 0 {
        seq![x]
    } else if s.last().offset <= x.offset {
        s.push(x)
    } else {
        insert_by_offset(s.drop_last(), x).push(s.last())
    }
}

/// Sort highlights by offset, stably: equal offsets keep their order.
pub open spec fn sort_by_offset(s: Seq<HighlightV>) -> Seq<HighlightV>
    decreases s.len(),
{
    if s.len() == 0 {
        Seq::empty()
    } else {
        insert_by_offset(sort_by_offset(s.drop_last()), s.last())
    }
}

/// The union of the spans the highlights cover: the least offset and the
/// greatest end (offset plus length, clamped as the machine arithmetic is).
pub open spec fn union_span(hs: Seq<HighlightV>) -> Option<(nat, nat)>
    decreases hs.len(),
{
    if hs.len() == 0 {
        None
    } else {
        let h = hs.last();
        let e = sat_add(h.offset, h.length);
        match union_span(hs.drop_last()) {
            None => Some((h.offset, e)),
            Some(r) => Some((nat_min(r.0, h.offset), nat_max(r.1, e))),
        }
    }
}

/// The half-open character range of the line that is put on display: a
/// window around the highlights (five characters of pad each side) when the
/// line overflows the column budget, else the budget from the line start.
pub open spec fn spec_displayed(hs_line: Seq<HighlightV>, line_len: nat, max_cols: nat) -> (nat, nat) {
    if hs_line.len() > 0 && line_len > max_cols {
        let u = union_span(hs_line)->Some_0;
        (nat_sub(u.0, 5), nat_min(sat_add(u.1, 5), line_len))
    } else {
        (0, nat_sub(max_cols, 1))
    }
}

/// Whether a highlight intersects the displayed span of a row.
pub open spec fn strip_sel(h: HighlightV, start: nat, end: nat, ft: bool, et: bool) -> bool {
    h.offset <= nat_sub(nat_sub(end, b2n(ft)), b2n(et)) && sat_add(h.offset, h.length) >= start
}

/// The bracket glyph run for one highlight on one row, and whether its
/// comment is cut off because the run leaves the row to the right: a point
/// glyph for length zero, a short glyph for length one, and for longer runs
/// an open cap, fill, and close cap, clipped at the row boundaries (no close
/// cap when the run leaves the row; no open cap when it entered before it).
#[verifier::opaque]
pub open spec fn spec_glyphs(
    h: HighlightV,
    start: nat,
    end: nat,
    ft: bool,
    et: bool,
    row_len: nat,
    line_len: nat,
) -> (Seq<char>, bool) {
    if h.length == 0 {
        (seq![LENGTH_ZERO_HIGHLIGHT], false)
    } else if h.length == 1 {
        (seq![LENGTH_ONE_HIGHLIGHT], false)
    } else {
        let hl = nat_min(h.length, nat_sub(line_len, h.offset));
        if h.offset < start {
            (
                spec_repeat(LEFT_TO_RIGHT, nat_sub(nat_sub(sat_add(h.offset, h.length), start), 1))
                    + seq![RIGHT_ENDCAP],
                false,
            )
        } else if h.offset + hl > nat_sub(end, b2n(et)) {
            (
                seq![LEFT_ENDCAP] + spec_repeat(
                    LEFT_TO_RIGHT,
                    nat_min(hl, nat_sub(nat_sub(nat_sub(end, b2n(et)), b2n(ft)), h.offset)),
                ),
                true,
            )
        } else {
            (
                seq![LEFT_ENDCAP] + spec_repeat(
                    LEFT_TO_RIGHT,
                    nat_min((h.length - 2) as nat, nat_sub(nat_sub(row_len, nat_sub(h.offset, start)), 2)),
                ) + seq![RIGHT_ENDCAP],
                false,
            )
        }
    }
}

/// A comment written after a highlight's brackets, wrapped onto fresh strip
/// rows whenever the column index reaches the budget, with control
/// characters substituted like the row text, so that no raw control
/// character reaches the output; the second component is the column index
/// after the last character.
#[verifier::opaque]
pub open spec fn spec_comment(cs: Seq<char>, k: nat, idx: nat, margin: nat, max_cols: nat) -> (
    Seq<char>,
    nat,
)
    decreases cs.len() - k,
{
    if k >= cs.len() {
        (Seq::empty(), idx)
    } else if idx == max_cols {
        let rest = spec_comment(cs, k + 1, 1, margin, max_cols);
        (
            seq!['\n'] + spec_repeat(' ', margin) + " ╎ "@ + seq![
                crate::text::spec_substitute(cs[k as int]),
            ] + rest.0,
            rest.1,
        )
    } else {
        let rest = spec_comment(cs, k + 1, sat_add(idx, 1), margin, max_cols);
        (seq![crate::text::spec_substitute(cs[k as int])] + rest.0, rest.1)
    }
}

/// The highlight strips under one row: for each highlight that intersects
/// the row, spaces up to its column, its glyph run, and its comment.
/// Non-colliding highlights continue on the same strip; a new strip row
/// starts otherwise. The second component tells whether the last comment was
/// cut off, which dashes the leading fill of the next row's first strip.
/// One highlight's strip piece on one row: the strip-row opener (when the
/// highlight cannot continue the current strip), the leading fill, the glyph
/// run, and the comment; with the column after it and the cut-off flag.
pub open spec fn spec_strip_one(
    h: HighlightV,
    line_len: nat,
    margin: nat,
    max_cols: nat,
    start: nat,
    end: nat,
    row_len: nat,
    ft: bool,
    et: bool,
    flo_zero: bool,
    last_offset: nat,
    llcco: bool,
) -> (Seq<char>, nat, bool) {
    let cont = last_offset != 0 && last_offset <= h.offset;
    let ss: Seq<char> = if cont {
        Seq::empty()
    } else {
        seq!['\n'] + spec_repeat(' ', margin) + " ╎ "@ + spec_repeat(
            if llcco { LEFT_TO_RIGHT } else { ' ' },
            b2n(ft),
        )
    };
    let so = if cont { last_offset } else { start + b2n(ft) };
    let llcco1: bool = if cont { llcco } else { false };
    let g = spec_glyphs(h, start, end, ft, et, row_len, line_len);
    let idx0 = sat_add(nat_sub(h.offset, start), h.length);
    let cmt: Seq<char> = match h.comment {
        Some(cs) => cs,
        None => Seq::empty(),
    };
    let ctext: Seq<char> = if !g.1 {
        spec_comment(cmt, 0, idx0, margin, max_cols).0
    } else {
        Seq::empty()
    };
    let llcco2: bool = if g.1 { true } else { llcco1 };
    let next_lo = sat_add(
        sat_add(
            sat_add(h.offset, nat_min(nat_max(h.length, 1), nat_sub(row_len, nat_sub(h.offset, start)))),
            cmt.len(),
        ),
        b2n(ft && flo_zero),
    );
    (ss + spec_repeat(' ', nat_sub(h.offset, so)) + g.0 + ctext, next_lo, llcco2)
}

/// The highlight strips under one row: for each highlight that intersects
/// the row, spaces up to its column, its bracket run, and its comment.
/// Non-colliding highlights continue on the same strip; a new strip row
/// starts otherwise. The second component tells whether the last comment was
/// cut off, which dashes the leading fill of the next row's first strip.
#[verifier::opaque]
pub open spec fn spec_strips(
    hs: Seq<HighlightV>,
    j: nat,
    line_len: nat,
    margin: nat,
    max_cols: nat,
    start: nat,
    end: nat,
    row_len: nat,
    ft: bool,
    et: bool,
    flo_zero: bool,
    last_offset: nat,
    llcco: bool,
) -> (Seq<char>, bool)
    decreases hs.len() - j,
{
    if j >= hs.len() {
        (Seq::empty(), llcco)
    } else {
        let h = hs[j as int];
        if !strip_sel(h, start, end, ft, et) {
            spec_strips(
                hs, j + 1, line_len, margin, max_cols, start, end, row_len, ft, et, flo_zero,
                last_offset, llcco,
            )
        } else {
            let one = spec_strip_one(
                h, line_len, margin, max_cols, start, end, row_len, ft, et, flo_zero,
                last_offset, llcco,
            );
            let rest = spec_strips(
                hs, j + 1, line_len, margin, max_cols, start, end, row_len, ft, et, flo_zero,
                one.1, one.2,
            );
            (one.0 + rest.0, rest.1)
        }
    }
}

/// One displayed row of a logical line: the line-number header, the
/// (possibly windowed) text with ellipses marking truncation and control
/// characters substituted, and the highlight strips under it. The second
/// component carries the cut-off flag to the next row.
/// The line-number header of a row: the number left-aligned in the margin,
/// then the frame column.
pub open spec fn spec_row_header(ln: Option<u32>, li: nat, margin: nat) -> Seq<char> {
    let numf: Seq<char> = match ln {
        None => Seq::empty(),
        Some(n) => dec_digits(n as nat + li),
    };
    seq!['\n'] + numf + spec_repeat(' ', nat_sub(margin, numf.len())) + seq![' ']
        + seq![TOP_TO_BOTTOM] + seq![' ']
}

/// The text of a row: `t` characters of the line from `start`, substituted,
/// with ellipses marking truncation at either edge.
pub open spec fn spec_row_text(line: Seq<char>, start: nat, t: nat, ft: bool, et: bool) -> Seq<char> {
    let window = line.subrange(start as int, (start + t) as int).map_values(
        |ch: char| crate::text::spec_substitute(ch),
    );
    (if ft { seq![ELLIPSIS] } else { Seq::<char>::empty() }) + window + (if et {
        seq![ELLIPSIS]
    } else {
        Seq::<char>::empty()
    })
}

#[verifier::opaque]
pub open spec fn spec_row(
    line: Seq<char>,
    hs: Seq<HighlightV>,
    li: nat,
    ln: Option<u32>,
    flo: nat,
    margin: nat,
    max_cols: nat,
    start: nat,
    first: bool,
    llcco: bool,
) -> (Seq<char>, bool) {
    let line_len = line.len();
    let end = nat_min(sat_add(start, max_cols), line_len);
    let row_len = nat_sub(end, start);
    let ft = (first && li == 0 && flo > 0) || start != 0;
    let et = end < line_len;
    let t = nat_min(row_len, nat_sub(max_cols, b2n(ft) + b2n(et)));
    let s = spec_strips(
        hs, 0, line_len, margin, max_cols, start, end, row_len, ft, et, flo == 0, 0, llcco,
    );
    (spec_row_header(ln, li, margin) + spec_row_text(line, start, t, ft, et) + s.0, s.1)
}

/// All displayed rows of one logical line, stepping the window start by one
/// less than the column budget until the displayed range is covered.
#[verifier::opaque]
pub open spec fn spec_rows(
    line: Seq<char>,
    hs: Seq<HighlightV>,
    li: nat,
    ln: Option<u32>,
    flo: nat,
    margin: nat,
    max_cols: nat,
    d1: nat,
    start: nat,
    first: bool,
    llcco: bool,
) -> Seq<char>
    decreases d1 - start,
{
    if start >= d1 {
        Seq::empty()
    } else {
        let r = spec_row(line, hs, li, ln, flo, margin, max_cols, start, first, llcco);
        let next = sat_add(start, nat_sub(max_cols, 1));
        if start < next < d1 {
            r.0 + spec_rows(line, hs, li, ln, flo, margin, max_cols, d1, next, false, r.1)
        } else {
            r.0
        }
    }
}

/// The full rendering of one logical line: its highlights are filtered and
/// stably sorted by offset, the displayed window is chosen around them, and
/// the rows are emitted.
pub open spec fn spec_line_block_parts(
    highlights: Seq<HighlightV>,
    line: Seq<char>,
    li: nat,
    ln: Option<u32>,
    flo: nat,
    margin: nat,
    max_cols: nat,
) -> Seq<char> {
    let fl = filter_line(highlights, li);
    let hs = sort_by_offset(fl);
    let d = spec_displayed(fl, line.len(), max_cols);
    spec_rows(line, hs, li, ln, flo, margin, max_cols, d.1, d.0, true, false)
}

pub open spec fn spec_line_block(c: ContextV, line: Seq<char>, li: nat, margin: nat, max_cols: nat) -> Seq<char> {
    spec_line_block_parts(c.highlights, line, li, c.line_number, c.first_line_offset, margin, max_cols)
}

/// The renderings of all logical lines from `li` on, in order.
#[verifier::opaque]
pub open spec fn spec_lines_from(c: ContextV, ls: Seq<Seq<char>>, li: nat, margin: nat, max_cols: nat) -> Seq<char>
    decreases ls.len() - li,
{
    if li >= ls.len() {
        Seq::empty()
    } else {
        spec_line_block(c, ls[li as int], li, margin, max_cols) + spec_lines_from(
            c, ls, li + 1, margin, max_cols,
        )
    }
}

pub(crate) fn emit_line_piece(out: &mut Vec<char>, c: &Context)
    ensures
        final(out)@ == old(out)@ + spec_line_piece(c@),
{
    proof {
        lemma_context_view(c);
    }
    match c.line_number {
        Some(n) => {
            out.push(':');
            let d = number_chars(n as u128);
            push_vec_chars(out, &d);
            assert(out@ =~= old(out)@ + spec_line_piece(c@));
        },
        None => {
            assert(out@ =~= old(out)@ + spec_line_piece(c@));
        },
    }
}

pub(crate) fn emit_column_piece(out: &mut Vec<char>, c: &Context)
    ensures
        final(out)@ == old(out)@ + spec_column_piece(c@),
{
    proof {
        lemma_context_view(c);
    }
    if c.highlights.len() == 1 && c.line_number.is_some() {
        let h = &c.highlights[0];
        proof {
            assert(c@.highlights[0] == c.highlights@[0]@);
        }
        if h.line == 0 {
            out.push(':');
            let x: u128 = c.first_line_offset as u128 + h.offset as u128 + 1;
            proof {
                assert(usize::MAX as nat <= u64::MAX as nat);
            }
            let d = number_chars(x);
            push_vec_chars(out, &d);
            assert(out@ =~= old(out)@ + spec_column_piece(c@));
        } else {
            assert(out@ =~= old(out)@ + spec_column_piece(c@));
        }
    } else {
        assert(out@ =~= old(out)@ + spec_column_piece(c@));
    }
}

fn emit_locator(out: &mut Vec<char>, c: &Context)
    ensures
        final(out)@ == old(out)@ + spec_locator(c@),
{
    proof {
        lemma_context_view(c);
    }
    out.push('[');
    match &c.source {
        Some(s) => push_str_chars(out, s.as_str()),
        None => {},
    }
    emit_line_piece(out, c);
    emit_column_piece(out, c);
    out.push(']');
    assert(out@ =~= old(out)@ + spec_locator(c@));
}

fn emit_leading(out: &mut Vec<char>, c: &Context, margin: usize)
    ensures
        final(out)@ == old(out)@ + spec_leading(c@, margin as nat),
{
    proof {
        lemma_context_view(c);
    }
    push_repeat(out, ' ', margin);
    out.push(' ');
    match &c.source {
        Some(s) => {
            out.push(ARC_BOTTOM_TO_RIGHT);
            out.push(LEFT_TO_RIGHT);
            out.push('[');
            push_str_chars(out, s.as_str());
            emit_line_piece(out, c);
            emit_column_piece(out, c);
            out.push(']');
        },
        None => {
            out.push(TOP_ENDCAP);
        },
    }
    assert(out@ =~= old(out)@ + spec_leading(c@, margin as nat));
}

fn emit_trailing(out: &mut Vec<char>, note: Option<&str>, margin: usize)
    ensures
        final(out)@ == old(out)@ + spec_trailing(
            match note {
                Some(s) => Some(s@),
                None => None,
            },
            margin as nat,
        ),
{
    out.push('\n');
    push_repeat(out, ' ', margin);
    out.push(' ');
    match note {
        Some(nt) => {
            out.push(ARC_TOP_TO_RIGHT);
            out.push(LEFT_TO_RIGHT);
            out.push('[');
            push_str_chars(out, nt);
            out.push(']');
        },
        None => {
            out.push(BOTTOM_ENDCAP);
        },
    }
    assert(out@ =~= old(out)@ + spec_trailing(
        match note {
            Some(s) => Some(s@),
            None => None,
        },
        margin as nat,
    ));
}

/// The highlights of `hs` that sit on logical line `li`, in order.
pub(crate) fn filter_line_exec(hs: &Vec<Highlight>, li: usize) -> (r: Vec<Highlight>)
    ensures
        crate::context::highlights_view(r@) == filter_line(
            crate::context::highlights_view(hs@),
            li as nat,
        ),
{
    let ghost vw = crate::context::highlights_view(hs@);
    let mut r: Vec<Highlight> = Vec::new();
    let n = hs.len();
    let mut j: usize = 0;
    while j < n
        invariant
            j <= n,
            n == hs@.len(),
            vw == crate::context::highlights_view(hs@),
            vw.len() == n,
            crate::context::highlights_view(r@) == filter_line(vw.take(j as int), li as nat),
        decreases n - j,
    {
        proof {
            assert(vw[j as int] == hs@[j as int]@);
            assert(vw.take(j + 1 as int).drop_last() =~= vw.take(j as int));
            assert(vw.take(j + 1 as int).last() == vw[j as int]);
        }
        if hs[j].line == li {
            let ghost prev = r@;
            r.push(hs[j].clone());
            proof {
                assert(crate::context::highlights_view(r@) =~= crate::context::highlights_view(prev) + seq![vw[j as int]]);
            }
        } else {
            assert(crate::context::highlights_view(r@) =~= filter_line(vw.take(j as int), li as nat) + Seq::<HighlightV>::empty());
        }
        j = j + 1;
    }
    proof {
        assert(vw.take(n as int) =~= vw);
    }
    r
}

/// Inserting at the position found by scanning from the end realizes the
/// stable insertion step.
proof fn lemma_insert_at(s: Seq<HighlightV>, x: HighlightV, k: int)
    requires
        0 <= k <= s.len(),
        forall|j: int| k <= j < s.len() ==> s[j].offset > x.offset,
        k > 0 ==> s[k - 1].offset <= x.offset,
    ensures
        insert_by_offset(s, x) == s.take(k) + seq![x] + s.skip(k),
    decreases s.len(),
{
    if s.len() == 0 {
        assert(insert_by_offset(s, x) =~= s.take(k) + seq![x] + s.skip(k));
    } else if s.last().offset <= x.offset {
        assert(k == s.len());
        assert(s.push(x) =~= s.take(k) + seq![x] + s.skip(k));
    } else {
        assert(k < s.len());
        lemma_insert_at(s.drop_last(), x, k);
        assert(insert_by_offset(s.drop_last(), x).push(s.last()) =~= s.take(k) + seq![x] + s.skip(k));
    }
}

/// Sort highlights by offset with a stable insertion sort.
pub(crate) fn sort_by_offset_exec(hs: Vec<Highlight>) -> (r: Vec<Highlight>)
    ensures
        crate::context::highlights_view(r@) == sort_by_offset(crate::context::highlights_view(hs@)),
{
    let ghost vw = crate::context::highlights_view(hs@);
    let mut r: Vec<Highlight> = Vec::new();
    let n = hs.len();
    let mut i: usize = 0;
    while i < n
        invariant
            i <= n,
            n == hs@.len(),
            vw == crate::context::highlights_view(hs@),
            vw.len() == n,
            crate::context::highlights_view(r@) == sort_by_offset(vw.take(i as int)),
        decreases n - i,
    {
        proof {
            assert(vw[i as int] == hs@[i as int]@);
            assert(vw.take(i + 1 as int).drop_last() =~= vw.take(i as int));
            assert(vw.take(i + 1 as int).last() == vw[i as int]);
        }
        let x = hs[i].clone();
        let ghost sv = crate::context::highlights_view(r@);
        let mut k: usize = r.len();
        while k > 0 && r[k - 1].offset > x.offset
            invariant
                k <= r@.len(),
                sv == crate::context::highlights_view(r@),
                sv.len() == r@.len(),
                forall|j: int| k <= j < sv.len() ==> sv[j].offset > x@.offset,
            decreases k,
        {
            proof {
                assert(sv[k - 1 as int] == r@[k - 1 as int]@);
            }
            k = k - 1;
        }
        proof {
            if k > 0 {
                assert(sv[k - 1 as int] == r@[k - 1 as int]@);
            }
            lemma_insert_at(sv, x@, k as int);
        }
        let ghost prev = r@;
        r.insert(k, x);
        proof {
            assert(crate::context::highlights_view(r@) =~= sv.take(k as int) + seq![x@] + sv.skip(k as int));
        }
        i = i + 1;
    }
    proof {
        assert(vw.take(n as int) =~= vw);
    }
    r
}

/// The union of the spans covered by `hs`, as [`union_span`] describes.
pub(crate) fn union_span_exec(hs: &Vec<Highlight>) -> (r: Option<(usize, usize)>)
    ensures
        match r {
            None => union_span(crate::context::highlights_view(hs@)) is None,
            Some(p) => union_span(crate::context::highlights_view(hs@)) == Some(
                (p.0 as nat, p.1 as nat),
            ),
        },
{
    let ghost vw = crate::context::highlights_view(hs@);
    let mut cur: Option<(usize, usize)> = None;
    let n = hs.len();
    let mut i: usize = 0;
    while i < n
        invariant
            i <= n,
            n == hs@.len(),
            vw == crate::context::highlights_view(hs@),
            vw.len() == n,
            match cur {
                None => union_span(vw.take(i as int)) is None,
                Some(p) => union_span(vw.take(i as int)) == Some((p.0 as nat, p.1 as nat)),
            },
        decreases n - i,
    {
        proof {
            assert(vw[i as int] == hs@[i as int]@);
            assert(vw.take(i + 1 as int).drop_last() =~= vw.take(i as int));
            assert(vw.take(i + 1 as int).last() == vw[i as int]);
        }
        let h = &hs[i];
        let e = h.offset.saturating_add(h.length);
        cur = match cur {
            None => Some((h.offset, e)),
            Some((a, b)) => Some(
                (if a <= h.offset { a } else { h.offset }, if b >= e { b } else { e }),
            ),
        };
        i = i + 1;
    }
    proof {
        assert(vw.take(n as int) =~= vw);
    }
    cur
}

/// The full rendering of a context: nothing for an empty context, the bare
/// locator for a context without text, and otherwise the leading decorator
/// (unless a non-first member of a merged group), every logical line's
/// block, and the trailing decorator (unless a non-last member).
pub open spec fn spec_render_with(
    c: ContextV,
    note: Option<Seq<char>>,
    lead: bool,
    trail: bool,
    margin: nat,
) -> Seq<char> {
    if spec_is_empty(c) {
        Seq::empty()
    } else if c.lines.len() == 0 {
        spec_locator(c)
    } else {
        let max_cols = nat_sub(nat_sub(100, margin), 3);
        (if lead {
            spec_leading(c, margin)
        } else {
            Seq::empty()
        }) + spec_lines_from(c, spec_lines(c.lines), 0, margin, max_cols) + (if trail {
            spec_trailing(note, margin)
        } else {
            Seq::empty()
        })
    }
}

pub open spec fn spec_render_context(c: ContextV, note: Option<Seq<char>>, merged: Merged) -> Seq<char> {
    spec_render_with(
        c,
        note,
        spec_leading_decoration(merged),
        spec_trailing_decoration(merged),
        spec_used_margin(c, merged),
    )
}

/// Write a comment after a highlight's brackets, wrapping onto fresh strip
/// rows at the column budget.
#[verifier::rlimit(100)]
#[verifier::spinoff_prover]
#[verifier::loop_isolation(false)]
fn emit_comment(out: &mut Vec<char>, cs: &str, idx0: usize, margin: usize, max_cols: usize)
    ensures
        final(out)@ == old(out)@ + spec_comment(cs@, 0, idx0 as nat, margin as nat, max_cols as nat).0,
{
    let ghost cv = cs@;
    let ghost full = spec_comment(cv, 0, idx0 as nat, margin as nat, max_cols as nat);
    let chars = str_to_chars(cs);
    let n = chars.len();
    let mut idx: usize = idx0;
    let mut k: usize = 0;
    let ghost mut p: Seq<char> = Seq::empty();
    proof {
        assert(out@ =~= old(out)@ + p);
        assert(p + full.0 =~= full.0);
    }
    while k < n
        invariant
            k <= n,
            n == cv.len(),
            chars@ == cv,
            out@ == old(out)@ + p,
            full.0 == p + spec_comment(cv, k as nat, idx as nat, margin as nat, max_cols as nat).0,
            full.1 == spec_comment(cv, k as nat, idx as nat, margin as nat, max_cols as nat).1,
        decreases n - k,
    {
        proof {
            reveal_with_fuel(spec_comment, 2);
        }
        let ghost cur = spec_comment(cv, k as nat, idx as nat, margin as nat, max_cols as nat);
        if idx == max_cols {
            out.push('\n');
            push_repeat(out, ' ', margin);
            push_str_chars(out, " ╎ ");
            out.push(crate::text::substitute(chars[k]));
            proof {
                let piece = seq!['\n'] + spec_repeat(' ', margin as nat) + " ╎ "@ + seq![
                    crate::text::spec_substitute(cv[k as int]),
                ];
                let rest = spec_comment(cv, (k + 1) as nat, 1, margin as nat, max_cols as nat);
                assert(cur.0 =~= piece + rest.0);
                assert(out@ =~= old(out)@ + (p + piece));
                assert(full.0 =~= (p + piece) + rest.0);
                p = p + piece;
            }
            idx = 1;
        } else {
            out.push(crate::text::substitute(chars[k]));
            proof {
                let piece = seq![crate::text::spec_substitute(cv[k as int])];
                let rest = spec_comment(
                    cv,
                    (k + 1) as nat,
                    sat_add(idx as nat, 1),
                    margin as nat,
                    max_cols as nat,
                );
                assert(cur.0 =~= piece + rest.0);
                assert(out@ =~= old(out)@ + (p + piece));
                assert(full.0 =~= (p + piece) + rest.0);
                p = p + piece;
            }
            idx = idx.saturating_add(1);
        }
        k = k + 1;
    }
    proof {
        reveal_with_fuel(spec_comment, 2);
        assert(full.0 =~= p);
    }
}

/// Draw the bracket glyph run for one highlight on one row; tells whether
/// the run was cut off at the right edge, which suppresses the comment.
#[verifier::rlimit(100)]
fn emit_glyphs(
    out: &mut Vec<char>,
    h: &Highlight,
    start: usize,
    end: usize,
    ft: bool,
    et: bool,
    row_len: usize,
    line_len: usize,
) -> (cut: bool)
    ensures
        final(out)@ == old(out)@ + spec_glyphs(
            h@, start as nat, end as nat, ft, et, row_len as nat, line_len as nat,
        ).0,
        cut == spec_glyphs(h@, start as nat, end as nat, ft, et, row_len as nat, line_len as nat).1,
{
    proof {
        reveal(spec_glyphs);
    }
    let ghost g = spec_glyphs(h@, start as nat, end as nat, ft, et, row_len as nat, line_len as nat);
    if h.length == 0 {
        out.push(LENGTH_ZERO_HIGHLIGHT);
        assert(out@ =~= old(out)@ + g.0);
        false
    } else if h.length == 1 {
        out.push(LENGTH_ONE_HIGHLIGHT);
        assert(out@ =~= old(out)@ + g.0);
        false
    } else {
        let bound = line_len.saturating_sub(h.offset);
        let hl = if h.length <= bound { h.length } else { bound };
        let etn: usize = if et { 1 } else { 0 };
        let ftn: usize = if ft { 1 } else { 0 };
        if h.offset < start {
            push_repeat(
                out,
                LEFT_TO_RIGHT,
                h.offset.saturating_add(h.length).saturating_sub(start).saturating_sub(1),
            );
            out.push(RIGHT_ENDCAP);
            assert(out@ =~= old(out)@ + g.0);
            false
        } else if h.offset.saturating_add(hl) > end.saturating_sub(etn) {
            out.push(LEFT_ENDCAP);
            let cap = end.saturating_sub(etn).saturating_sub(ftn).saturating_sub(h.offset);
            push_repeat(out, LEFT_TO_RIGHT, if hl <= cap { hl } else { cap });
            assert(out@ =~= old(out)@ + g.0);
            true
        } else {
            out.push(LEFT_ENDCAP);
            let cap = row_len.saturating_sub(h.offset.saturating_sub(start)).saturating_sub(2);
            let fill = h.length - 2;
            push_repeat(out, LEFT_TO_RIGHT, if fill <= cap { fill } else { cap });
            out.push(RIGHT_ENDCAP);
            assert(out@ =~= old(out)@ + g.0);
            false
        }
    }
}

/// Draw one highlight's strip piece, as [`spec_strip_one`] describes.
/// Returns the column after the piece and the cut-off flag.
#[verifier::rlimit(100)]
#[verifier::spinoff_prover]
fn emit_strip_one(
    out: &mut Vec<char>,
    h: &Highlight,
    line_len: usize,
    margin: usize,
    max_cols: usize,
    start: usize,
    end: usize,
    row_len: usize,
    ft: bool,
    et: bool,
    flo_zero: bool,
    last_offset: usize,
    llcco0: bool,
) -> (res: (usize, bool))
    requires
        start < usize::MAX,
    ensures
        final(out)@ == old(out)@ + spec_strip_one(
            h@, line_len as nat, margin as nat, max_cols as nat, start as nat, end as nat,
            row_len as nat, ft, et, flo_zero, last_offset as nat, llcco0,
        ).0,
        res.0 as nat == spec_strip_one(
            h@, line_len as nat, margin as nat, max_cols as nat, start as nat, end as nat,
            row_len as nat, ft, et, flo_zero, last_offset as nat, llcco0,
        ).1,
        res.1 == spec_strip_one(
            h@, line_len as nat, margin as nat, max_cols as nat, start as nat, end as nat,
            row_len as nat, ft, et, flo_zero, last_offset as nat, llcco0,
        ).2,
{
    let ghost one = spec_strip_one(
        h@, line_len as nat, margin as nat, max_cols as nat, start as nat, end as nat,
        row_len as nat, ft, et, flo_zero, last_offset as nat, llcco0,
    );
    let ftn: usize = if ft { 1 } else { 0 };
    let mut llcco = llcco0;
    let cont = last_offset != 0 && last_offset <= h.offset;
    let ghost ss: Seq<char> = if cont {
        Seq::empty()
    } else {
        seq!['\n'] + spec_repeat(' ', margin as nat) + " ╎ "@ + spec_repeat(
            if llcco0 { LEFT_TO_RIGHT } else { ' ' },
            b2n(ft),
        )
    };
    let so: usize;
    if cont {
        so = last_offset;
    } else {
        out.push('\n');
        push_repeat(out, ' ', margin);
        push_str_chars(out, " ╎ ");
        push_repeat(out, if llcco { LEFT_TO_RIGHT } else { ' ' }, ftn);
        so = start + ftn;
        llcco = false;
    }
    proof {
        assert(out@ =~= old(out)@ + ss);
    }
    push_repeat(out, ' ', h.offset.saturating_sub(so));
    let ghost spaces = spec_repeat(' ', nat_sub(h@.offset, so as nat));
    let cut = emit_glyphs(out, h, start, end, ft, et, row_len, line_len);
    let ghost g = spec_glyphs(
        h@, start as nat, end as nat, ft, et, row_len as nat, line_len as nat,
    );
    let idx0 = h.offset.saturating_sub(start).saturating_add(h.length);
    if !cut {
        match &h.comment {
            Some(cstr) => {
                emit_comment(out, cstr.as_str(), idx0, margin, max_cols);
            },
            None => {},
        }
    }
    let ghost cmt: Seq<char> = match h@.comment {
        Some(cs) => cs,
        None => Seq::empty(),
    };
    let ghost ctext: Seq<char> = if !g.1 {
        spec_comment(cmt, 0, idx0 as nat, margin as nat, max_cols as nat).0
    } else {
        Seq::empty()
    };
    proof {
        reveal_with_fuel(spec_comment, 1);
        if !g.1 && h@.comment is None {
            assert(ctext =~= Seq::<char>::empty());
        }
        assert(out@ =~= old(out)@ + (ss + spaces + g.0 + ctext));
    }
    if cut {
        llcco = true;
    }
    let clen: usize = match &h.comment {
        Some(cstr) => cstr.as_str().unicode_len(),
        None => 0,
    };
    let minpart: usize = {
        let a = if h.length == 0 { 1 } else { h.length };
        let b = row_len.saturating_sub(h.offset.saturating_sub(start));
        if a <= b { a } else { b }
    };
    let next_lo = h.offset.saturating_add(minpart).saturating_add(clen).saturating_add(
        if ft && flo_zero { 1 } else { 0 },
    );
    proof {
        assert(so as nat == (if last_offset as nat != 0 && last_offset as nat <= h@.offset {
            last_offset as nat
        } else {
            start as nat + b2n(ft)
        }));
        assert(minpart as nat == nat_min(
            nat_max(h@.length, 1),
            nat_sub(row_len as nat, nat_sub(h@.offset, start as nat)),
        ));
        assert(clen as nat == cmt.len());
        assert(one.0 == ss + spaces + g.0 + ctext);
        assert(next_lo as nat == one.1);
        assert(llcco == one.2);
        assert(out@ =~= old(out)@ + one.0);
    }
    (next_lo, llcco)
}

/// Draw the highlight strips under one row: every intersecting highlight's
/// piece, as [`spec_strips`] describes. Returns whether the last comment was
/// cut off.
#[verifier::rlimit(100)]
#[verifier::spinoff_prover]
fn emit_strips(
    out: &mut Vec<char>,
    hs: &Vec<Highlight>,
    line_len: usize,
    margin: usize,
    max_cols: usize,
    start: usize,
    end: usize,
    row_len: usize,
    ft: bool,
    et: bool,
    flo_zero: bool,
    llcco0: bool,
) -> (llcco: bool)
    requires
        start < usize::MAX,
    ensures
        final(out)@ == old(out)@ + spec_strips(
            crate::context::highlights_view(hs@), 0, line_len as nat, margin as nat,
            max_cols as nat, start as nat, end as nat, row_len as nat, ft, et, flo_zero, 0, llcco0,
        ).0,
        llcco == spec_strips(
            crate::context::highlights_view(hs@), 0, line_len as nat, margin as nat,
            max_cols as nat, start as nat, end as nat, row_len as nat, ft, et, flo_zero, 0, llcco0,
        ).1,
{
    let ghost vw = crate::context::highlights_view(hs@);
    let ghost full = spec_strips(
        vw, 0, line_len as nat, margin as nat, max_cols as nat, start as nat, end as nat,
        row_len as nat, ft, et, flo_zero, 0, llcco0,
    );
    let n = hs.len();
    let mut j: usize = 0;
    let mut last_offset: usize = 0;
    let mut llcco: bool = llcco0;
    let ghost mut p: Seq<char> = Seq::empty();
    proof {
        assert(out@ =~= old(out)@ + p);
        assert(p + full.0 =~= full.0);
    }
    while j < n
        invariant
            j <= n,
            n == vw.len(),
            vw == crate::context::highlights_view(hs@),
            start < usize::MAX,
            out@ == old(out)@ + p,
            full.0 == p + spec_strips(
                vw, j as nat, line_len as nat, margin as nat, max_cols as nat, start as nat,
                end as nat, row_len as nat, ft, et, flo_zero, last_offset as nat, llcco,
            ).0,
            full.1 == spec_strips(
                vw, j as nat, line_len as nat, margin as nat, max_cols as nat, start as nat,
                end as nat, row_len as nat, ft, et, flo_zero, last_offset as nat, llcco,
            ).1,
        decreases n - j,
    {
        let ghost cur = spec_strips(
            vw, j as nat, line_len as nat, margin as nat, max_cols as nat, start as nat,
            end as nat, row_len as nat, ft, et, flo_zero, last_offset as nat, llcco,
        );
        let h = &hs[j];
        proof {
            assert(vw[j as int] == hs@[j as int]@);
        }
        let ftn: usize = if ft { 1 } else { 0 };
        let etn: usize = if et { 1 } else { 0 };
        let sel = h.offset <= end.saturating_sub(ftn).saturating_sub(etn)
            && h.offset.saturating_add(h.length) >= start;
        proof {
            assert(sel == strip_sel(vw[j as int], start as nat, end as nat, ft, et));
        }
        if sel {
            let ghost one = spec_strip_one(
                vw[j as int], line_len as nat, margin as nat, max_cols as nat, start as nat,
                end as nat, row_len as nat, ft, et, flo_zero, last_offset as nat, llcco,
            );
            let res = emit_strip_one(
                out, h, line_len, margin, max_cols, start, end, row_len, ft, et, flo_zero,
                last_offset, llcco,
            );
            last_offset = res.0;
            llcco = res.1;
            proof {
                reveal_with_fuel(spec_strips, 1);
                let rest = spec_strips(
                    vw, (j + 1) as nat, line_len as nat, margin as nat, max_cols as nat,
                    start as nat, end as nat, row_len as nat, ft, et, flo_zero,
                    last_offset as nat, llcco,
                );
                assert(cur.0 == one.0 + rest.0);
                assert(cur.1 == rest.1);
                p = p + one.0;
                assert(out@ =~= old(out)@ + p);
                assert(full.0 =~= p + rest.0);
            }
        } else {
            proof {
                reveal_with_fuel(spec_strips, 1);
                assert(cur == spec_strips(
                    vw, (j + 1) as nat, line_len as nat, margin as nat, max_cols as nat,
                    start as nat, end as nat, row_len as nat, ft, et, flo_zero,
                    last_offset as nat, llcco,
                ));
            }
        }
        j = j + 1;
    }
    proof {
        reveal_with_fuel(spec_strips, 1);
        assert(full.0 =~= p);
    }
    llcco
}

/// Emit one displayed row of a logical line: header, windowed text with
/// ellipses and control-character substitution, then the highlight strips.
/// Returns whether the row's last comment was cut off.
/// Write a row's line-number header.
fn emit_row_header(out: &mut Vec<char>, ln: Option<u32>, li: usize, margin: usize)
    ensures
        final(out)@ == old(out)@ + spec_row_header(ln, li as nat, margin as nat),
{
    out.push('\n');
    match ln {
        Some(n) => {
            let x: u128 = n as u128 + li as u128;
            proof {
                assert(usize::MAX as nat <= u64::MAX as nat);
            }
            let d = number_chars(x);
            push_vec_chars(out, &d);
            push_repeat(out, ' ', margin.saturating_sub(d.len()));
        },
        None => {
            push_repeat(out, ' ', margin);
        },
    }
    out.push(' ');
    out.push(TOP_TO_BOTTOM);
    out.push(' ');
    assert(out@ =~= old(out)@ + spec_row_header(ln, li as nat, margin as nat));
}

/// Write a row's text: `t` characters from `start`, substituted, with
/// ellipses marking truncation.
#[verifier::rlimit(100)]
fn emit_row_text(out: &mut Vec<char>, line: &Vec<char>, start: usize, t: usize, ft: bool, et: bool)
    requires
        start + t <= line@.len(),
    ensures
        final(out)@ == old(out)@ + spec_row_text(line@, start as nat, t as nat, ft, et),
{
    let line_len = line.len();
    if ft {
        out.push(ELLIPSIS);
    }
    let ghost base = out@;
    proof {
        assert(line@.subrange(start as int, start as int).map_values(
            |ch: char| crate::text::spec_substitute(ch),
        ) =~= Seq::<char>::empty());
        assert(out@ =~= base + line@.subrange(start as int, start as int).map_values(
            |ch: char| crate::text::spec_substitute(ch),
        ));
    }
    let mut i: usize = 0;
    while i < t
        invariant
            i <= t,
            line@.len() == line_len,
            start + t <= line@.len(),
            out@ == base + line@.subrange(start as int, (start + i) as int).map_values(
                |ch: char| crate::text::spec_substitute(ch),
            ),
        decreases t - i,
    {
        out.push(crate::text::substitute(line[start + i]));
        proof {
            assert(line@.subrange(start as int, (start + i + 1) as int).map_values(
                |ch: char| crate::text::spec_substitute(ch),
            ) =~= line@.subrange(start as int, (start + i) as int).map_values(
                |ch: char| crate::text::spec_substitute(ch),
            ) + seq![crate::text::spec_substitute(line@[(start + i) as int])]);
        }
        i = i + 1;
    }
    if et {
        out.push(ELLIPSIS);
    }
    assert(out@ =~= old(out)@ + spec_row_text(line@, start as nat, t as nat, ft, et));
}

/// Emit one displayed row of a logical line: header, windowed text, then the
/// highlight strips. Returns whether the row's last comment was cut off.
#[verifier::rlimit(100)]
#[verifier::spinoff_prover]
fn emit_row(
    out: &mut Vec<char>,
    line: &Vec<char>,
    hs: &Vec<Highlight>,
    li: usize,
    ln: Option<u32>,
    flo: u32,
    margin: usize,
    max_cols: usize,
    start: usize,
    first: bool,
    llcco0: bool,
) -> (llcco: bool)
    requires
        start < usize::MAX,
        start <= line@.len(),
    ensures
        final(out)@ == old(out)@ + spec_row(
            line@, crate::context::highlights_view(hs@), li as nat, ln, flo as nat, margin as nat,
            max_cols as nat, start as nat, first, llcco0,
        ).0,
        llcco == spec_row(
            line@, crate::context::highlights_view(hs@), li as nat, ln, flo as nat, margin as nat,
            max_cols as nat, start as nat, first, llcco0,
        ).1,
{
    let ghost rr = spec_row(
        line@, crate::context::highlights_view(hs@), li as nat, ln, flo as nat, margin as nat,
        max_cols as nat, start as nat, first, llcco0,
    );
    let line_len = line.len();
    let sum = start.saturating_add(max_cols);
    let end = if sum <= line_len { sum } else { line_len };
    let row_len = end - start;
    let ft = (first && li == 0 && flo > 0) || start != 0;
    let et = end < line_len;
    let ftn: usize = if ft { 1 } else { 0 };
    let etn: usize = if et { 1 } else { 0 };
    let budget = max_cols.saturating_sub(ftn + etn);
    let t = if row_len <= budget { row_len } else { budget };
    emit_row_header(out, ln, li, margin);
    emit_row_text(out, line, start, t, ft, et);
    let llcco = emit_strips(
        out, hs, line_len, margin, max_cols, start, end, row_len, ft, et, flo == 0, llcco0,
    );
    proof {
        reveal(spec_row);
        let vwh = crate::context::highlights_view(hs@);
        let s = spec_strips(
            vwh, 0, line_len as nat, margin as nat, max_cols as nat, start as nat, end as nat,
            row_len as nat, ft, et, flo == 0, 0, llcco0,
        );
        assert(end as nat == nat_min(sat_add(start as nat, max_cols as nat), line@.len()));
        assert(row_len as nat == nat_sub(end as nat, start as nat));
        assert(ft == ((first && li == 0 && flo as nat > 0) || start as nat != 0));
        assert(et == ((end as nat) < line@.len()));
        assert(t as nat == nat_min(row_len as nat, nat_sub(max_cols as nat, b2n(ft) + b2n(et))));
        assert(rr.0 == spec_row_header(ln, li as nat, margin as nat) + spec_row_text(
            line@, start as nat, t as nat, ft, et,
        ) + s.0);
        assert(rr.1 == s.1);
        assert(out@ =~= old(out)@ + rr.0);
        assert(llcco == rr.1);
    }
    llcco
}

/// Render one logical line completely: filter and sort its highlights,
/// choose the displayed window, and emit the rows.
#[verifier::rlimit(100)]
#[verifier::spinoff_prover]
#[verifier::loop_isolation(false)]
fn emit_line_block(
    out: &mut Vec<char>,
    line: &Vec<char>,
    highlights: &Vec<Highlight>,
    li: usize,
    ln: Option<u32>,
    flo: u32,
    margin: usize,
    max_cols: usize,
)
    requires
        2 <= max_cols,
    ensures
        final(out)@ == old(out)@ + spec_line_block_parts(
            crate::context::highlights_view(highlights@), line@, li as nat, ln, flo as nat,
            margin as nat, max_cols as nat,
        ),
{
    let ghost hv = crate::context::highlights_view(highlights@);
    let ghost full = spec_line_block_parts(
        hv, line@, li as nat, ln, flo as nat, margin as nat, max_cols as nat,
    );
    let fl = filter_line_exec(highlights, li);
    let ghost flv = crate::context::highlights_view(fl@);
    let line_len = line.len();
    let u = union_span_exec(&fl);
    let has_highlights = fl.len() > 0;
    proof {
        assert(flv.len() == fl@.len());
    }
    let sorted = sort_by_offset_exec(fl);
    let d0: usize;
    let d1: usize;
    if has_highlights && line_len > max_cols {
        proof {
            assert(union_span(flv) is Some);
        }
        match u {
            Some((a, b)) => {
                d0 = a.saturating_sub(5);
                let bb = b.saturating_add(5);
                d1 = if bb <= line_len { bb } else { line_len };
            },
            None => {
                d0 = 0;
                d1 = 0;
                proof {
                    assert(false);
                }
            },
        }
    } else {
        d0 = 0;
        d1 = max_cols - 1;
    }
    let ghost d = spec_displayed(flv, line@.len(), max_cols as nat);
    proof {
        assert(d.0 == d0 as nat && d.1 == d1 as nat);
    }
    let mut start: usize = d0;
    let mut first: bool = true;
    let mut llcco: bool = false;
    let ghost mut p: Seq<char> = Seq::empty();
    let ghost sv = crate::context::highlights_view(sorted@);
    proof {
        assert(out@ =~= old(out)@ + p);
        assert(sv == sort_by_offset(filter_line(hv, li as nat)));
        assert(p + spec_rows(
            line@, sv, li as nat, ln, flo as nat, margin as nat, max_cols as nat, d.1, d.0,
            true, false,
        ) =~= spec_rows(
            line@, sv, li as nat, ln, flo as nat, margin as nat, max_cols as nat, d.1, d.0,
            true, false,
        ));
    }
    while start < d1
        invariant
            2 <= max_cols,
            line_len == line@.len(),
            sv == crate::context::highlights_view(sorted@),
            d1 as nat == d.1,
            d.1 > line@.len() ==> d.1 == nat_sub(max_cols as nat, 1),
            start < d1 ==> start <= line@.len(),
            out@ == old(out)@ + p,
            spec_rows(
                line@, sv, li as nat, ln, flo as nat, margin as nat, max_cols as nat, d.1,
                d.0, true, false,
            ) == p + spec_rows(
                line@, sv, li as nat, ln, flo as nat, margin as nat, max_cols as nat, d.1,
                start as nat, first, llcco,
            ),
        decreases nat_sub(d1 as nat, start as nat),
    {
        proof {
            reveal_with_fuel(spec_rows, 2);
        }
        let ghost cur = spec_rows(
            line@, sv, li as nat, ln, flo as nat, margin as nat, max_cols as nat, d.1,
            start as nat, first, llcco,
        );
        let ghost r = spec_row(
            line@, sv, li as nat, ln, flo as nat, margin as nat, max_cols as nat, start as nat,
            first, llcco,
        );
        let llcco2 = emit_row(out, line, &sorted, li, ln, flo, margin, max_cols, start, first, llcco);
        let next = start.saturating_add(max_cols - 1);
        proof {
            reveal_with_fuel(spec_rows, 1);
            assert(next as nat == sat_add(start as nat, nat_sub(max_cols as nat, 1)));
            assert(start < next);
            if next < d1 {
                assert(cur =~= r.0 + spec_rows(
                    line@, sv, li as nat, ln, flo as nat, margin as nat, max_cols as nat, d.1,
                    next as nat, false, r.1,
                ));
            } else {
                assert(cur =~= r.0);
                assert(spec_rows(
                    line@, sv, li as nat, ln, flo as nat, margin as nat, max_cols as nat, d.1,
                    next as nat, false, r.1,
                ) =~= Seq::<char>::empty());
            }
            p = p + r.0;
            assert(out@ =~= old(out)@ + p);
        }
        llcco = llcco2;
        first = false;
        start = next;
    }
    proof {
        reveal_with_fuel(spec_rows, 2);
        assert(spec_rows(
            line@, sv, li as nat, ln, flo as nat, margin as nat, max_cols as nat, d.1,
            start as nat, first, llcco,
        ) =~= Seq::<char>::empty());
        assert(full == spec_rows(
            line@, sv, li as nat, ln, flo as nat, margin as nat, max_cols as nat, d.1, d.0,
            true, false,
        ));
        assert(full =~= p);
    }
}

impl Context {
    /// Render this context into text, with an optional note in the trailing
    /// decorator and a merge role, as [`spec_render_context`] describes.
    #[verifier::rlimit(100)]
    #[verifier::spinoff_prover]
    #[verifier::loop_isolation(false)]
    pub(crate) fn render(&self, note: Option<&str>, merged: Merged) -> (r: String)
        requires
            match spec_merged_margin(merged) {
                Some(m) => m <= 29,
                None => true,
            },
        ensures
            r@ == spec_render_context(
                self@,
                match note {
                    Some(s) => Some(s@),
                    None => None,
                },
                merged,
            ),
    {
        proof {
            lemma_context_view(self);
        }
        let ghost nv: Option<Seq<char>> = match note {
            Some(s) => Some(s@),
            None => None,
        };
        if self.is_empty() {
            let r = String::new();
            proof {
                assert(r@ =~= spec_render_context(self@, nv, merged));
            }
            r
        } else if self.lines.as_str().is_empty() {
            let mut out: Vec<char> = Vec::new();
            emit_locator(&mut out, self);
            proof {
                assert(out@ =~= spec_render_context(self@, nv, merged));
            }
            chars_to_string(out)
        } else {
            let margin = match merged.margin() {
                Some(m) => m,
                None => self.margin(),
            };
            let max_cols = 100 - margin - 3;
            let mut out: Vec<char> = Vec::new();
            if merged.leading_decoration() {
                emit_leading(&mut out, self, margin);
            }
            let ghost lead: Seq<char> = if spec_leading_decoration(merged) {
                spec_leading(self@, margin as nat)
            } else {
                Seq::empty()
            };
            proof {
                assert(out@ =~= lead);
            }
            let chars = str_to_chars(self.lines.as_str());
            let pieces = split_lines(&chars);
            let ghost ls = spec_lines(self@.lines);
            let n = pieces.len();
            let mut li: usize = 0;
            let ghost mut p: Seq<char> = Seq::empty();
            proof {
                assert(p + spec_lines_from(
                    self@, ls, 0, margin as nat, (100 - margin - 3) as nat,
                ) =~= spec_lines_from(self@, ls, 0, margin as nat, (100 - margin - 3) as nat));
            }
            while li < n
                invariant
                    li <= n,
                    n == ls.len(),
                    max_cols == 100 - margin - 3,
                    pieces@.len() == ls.len(),
                    forall|k: int| 0 <= k < ls.len() ==> pieces@[k]@ == ls[k],
                    2 <= 100 - margin - 3 <= usize::MAX,
                    margin <= 29,
                    out@ == lead + p,
                    spec_lines_from(self@, ls, 0, margin as nat, (100 - margin - 3) as nat)
                        == p + spec_lines_from(self@, ls, li as nat, margin as nat, (100 - margin - 3) as nat),
                decreases n - li,
            {
                let ghost cur = spec_lines_from(
                    self@, ls, li as nat, margin as nat, (100 - margin - 3) as nat,
                );
                emit_line_block(
                    &mut out, &pieces[li], &self.highlights, li, self.line_number,
                    self.first_line_offset, margin, max_cols,
                );
                proof {
                    reveal_with_fuel(spec_lines_from, 1);
                    let blk = spec_line_block(
                        self@, ls[li as int], li as nat, margin as nat, (100 - margin - 3) as nat,
                    );
                    assert(cur =~= blk + spec_lines_from(
                        self@, ls, (li + 1) as nat, margin as nat, (100 - margin - 3) as nat,
                    ));
                    assert(self@.highlights == crate::context::highlights_view(self.highlights@));
                    assert(pieces@[li as int]@ == ls[li as int]);
                    assert(blk == spec_line_block_parts(
                        crate::context::highlights_view(self.highlights@), pieces@[li as int]@,
                        li as nat, self.line_number, self.first_line_offset as nat, margin as nat,
                        max_cols as nat,
                    ));
                    p = p + blk;
                    assert(out@ =~= lead + p);
                }
                li = li + 1;
            }
            proof {
                reveal_with_fuel(spec_lines_from, 2);
                assert(spec_lines_from(self@, ls, n as nat, margin as nat, (100 - margin - 3) as nat)
                    =~= Seq::<char>::empty());
            }
            if merged.trailing_decoration() {
                emit_trailing(&mut out, note, margin);
            }
            proof {
                assert(out@ =~= spec_render_context(self@, nv, merged));
            }
            chars_to_string(out)
        }
    }

    /// Render this context alone, without a note: the text form of the
    /// context.
    pub fn to_string(&self) -> (r: String)
        ensures
            r@ == spec_render_context(self@, None, Merged::No),
    {
        self.render(None, Merged::No)
    }
}

} // verus!
