//! Laws of the library, stated and proved: what rendering and merging
//! guarantee for every input, beyond the contracts of the single functions.

use vstd::prelude::*;

use crate::combine::{
    spec_absorb, spec_combine_error, spec_combine_errors, spec_mergeable,
};
use crate::context::{spec_is_empty, ContextV};
use crate::custom_error::{spec_contexts_block, ErrorV};
use crate::highlight::HighlightV;
use crate::render::{
    nat_min, nat_sub, sat_add, spec_glyphs, spec_render_context, spec_render_with, spec_row,
    spec_row_header, spec_rows, Merged, ELLIPSIS, LENGTH_ZERO_HIGHLIGHT,
};

verus! {

/// Rendering an empty context yields the empty string, under every note and
/// every merge role.
pub proof fn lemma_empty_context_renders_nothing(c: ContextV, note: Option<Seq<char>>, merged: Merged)
    requires
        spec_is_empty(c),
    ensures
        spec_render_context(c, note, merged) == Seq::<char>::empty(),
{
}

/// A zero-length highlight draws the single point glyph, never a dash run,
/// on every row it is drawn on.
pub proof fn lemma_point_highlight_glyph(
    h: HighlightV,
    start: nat,
    end: nat,
    ft: bool,
    et: bool,
    row_len: nat,
    line_len: nat,
)
    requires
        h.length == 0,
    ensures
        spec_glyphs(h, start, end, ft, et, row_len, line_len).0 == seq![LENGTH_ZERO_HIGHLIGHT],
{
    reveal(crate::render::spec_glyphs);
}

/// The contexts of a list of errors, in order.
pub open spec fn contexts_of_all(s: Seq<ErrorV>) -> Seq<ContextV>
    decreases s.len(),
{
    if s.len() == 0 {
        Seq::empty()
    } else {
        s[0].contexts + contexts_of_all(s.drop_first())
    }
}

/// Merging never looks at contexts, so absorbing contexts into an error
/// keeps what it can merge with unchanged.
pub proof fn lemma_absorb_keeps_mergeable(a: ErrorV, x: ErrorV, y: ErrorV)
    ensures
        spec_mergeable(spec_absorb(a, x), y) == spec_mergeable(a, y),
{
}

/// Folding errors that can all merge into the accumulator leaves a single
/// record that has taken over all their contexts, in order.
proof fn lemma_fold_identical(acc: ErrorV, new: Seq<ErrorV>)
    requires
        forall|i: int| 0 <= i < new.len() ==> spec_mergeable(acc, new[i]),
    ensures
        spec_combine_errors(seq![acc], new).len() == 1,
        spec_combine_errors(seq![acc], new)[0] == (ErrorV {
            contexts: acc.contexts + contexts_of_all(new),
            ..acc
        }),
    decreases new.len(),
{
    if new.len() == 0 {
        assert(acc.contexts + contexts_of_all(new) =~= acc.contexts);
        assert((ErrorV { contexts: acc.contexts + contexts_of_all(new), ..acc }) =~= acc);
    } else {
        assert(spec_mergeable(acc, new[0]));
        assert(spec_combine_error(seq![acc], new[0]) =~= seq![spec_absorb(acc, new[0])]) by {
            assert(seq![acc].drop_first() =~= Seq::<ErrorV>::empty());
            assert(seq![spec_absorb(acc, new[0])] + Seq::<ErrorV>::empty() =~= seq![
                spec_absorb(acc, new[0]),
            ]);
        }
        let acc2 = spec_absorb(acc, new[0]);
        assert forall|i: int| 0 <= i < new.drop_first().len() implies spec_mergeable(
            acc2,
            new.drop_first()[i],
        ) by {
            lemma_absorb_keeps_mergeable(acc, new[0], new.drop_first()[i]);
            assert(new.drop_first()[i] == new[i + 1]);
        }
        lemma_fold_identical(acc2, new.drop_first());
        assert(spec_combine_errors(seq![acc], new) == spec_combine_errors(
            seq![acc2],
            new.drop_first(),
        ));
        assert(acc2.contexts + contexts_of_all(new.drop_first()) =~= acc.contexts
            + contexts_of_all(new));
        assert((ErrorV { contexts: acc2.contexts + contexts_of_all(new.drop_first()), ..acc2 })
            =~= (ErrorV { contexts: acc.contexts + contexts_of_all(new), ..acc }));
    }
}

/// Combining any number of structurally identical diagnostics (same kind,
/// descriptions, suggestions, version and underlying errors, differing only
/// in their contexts) into an empty list yields exactly one diagnostic that
/// carries all their contexts, in the original order.
pub proof fn lemma_combine_identical_collapses(new: Seq<ErrorV>)
    requires
        new.len() >= 1,
        forall|i: int| 0 <= i < new.len() ==> spec_mergeable(new[0], new[i]),
    ensures
        spec_combine_errors(Seq::empty(), new).len() == 1,
        spec_combine_errors(Seq::empty(), new)[0] == (ErrorV {
            contexts: contexts_of_all(new),
            ..new[0]
        }),
{
    assert(spec_combine_error(Seq::empty(), new[0]) == seq![new[0]]);
    assert(spec_combine_errors(Seq::empty(), new) == spec_combine_errors(
        seq![new[0]],
        new.drop_first(),
    ));
    assert forall|i: int| 0 <= i < new.drop_first().len() implies spec_mergeable(
        new[0],
        new.drop_first()[i],
    ) by {
        assert(new.drop_first()[i] == new[i + 1]);
    }
    lemma_fold_identical(new[0], new.drop_first());
    assert(new[0].contexts + contexts_of_all(new.drop_first()) =~= contexts_of_all(new));
    assert((ErrorV { contexts: new[0].contexts + contexts_of_all(new.drop_first()), ..new[0] })
        =~= (ErrorV { contexts: contexts_of_all(new), ..new[0] }));
}

/// Two diagnostics that differ in their version never merge: combining the
/// second into a list holding the first yields two separate entries.
pub proof fn lemma_version_splits(a: ErrorV, b: ErrorV)
    requires
        a.version != b.version,
    ensures
        spec_combine_error(seq![a], b) == seq![a, b],
{
    assert(!spec_mergeable(a, b));
    assert(seq![a].drop_first() =~= Seq::<ErrorV>::empty());
    assert(spec_combine_error(Seq::empty(), b) == seq![b]);
    assert(seq![a] + seq![b] =~= seq![a, b]);
}

/// More generally: a diagnostic that can merge nowhere is appended as a new
/// entry, leaving the existing entries unchanged.
pub proof fn lemma_unmergeable_appends(s: Seq<ErrorV>, e: ErrorV)
    requires
        forall|i: int| 0 <= i < s.len() ==> !spec_mergeable(s[i], e),
    ensures
        spec_combine_error(s, e) == s + seq![e],
    decreases s.len(),
{
    if s.len() == 0 {
        assert(s + seq![e] =~= seq![e]);
    } else {
        assert forall|i: int| 0 <= i < s.drop_first().len() implies !spec_mergeable(
            s.drop_first()[i],
            e,
        ) by {
            assert(s.drop_first()[i] == s[i + 1]);
        }
        lemma_unmergeable_appends(s.drop_first(), e);
        assert(seq![s[0]] + (s.drop_first() + seq![e]) =~= s + seq![e]);
    }
}

/// Contexts that are all empty from `i` on draw no decoration at all: that
/// part of the context block is empty. In particular a diagnostic whose
/// contexts are all empty renders no block.
pub proof fn lemma_no_contexts_no_decoration(cs: Seq<ContextV>, i: nat, first: bool, margin: nat)
    requires
        i <= cs.len(),
        forall|j: int| i <= j < cs.len() ==> spec_is_empty(cs[j]),
    ensures
        spec_contexts_block(cs, i, first, margin) == Seq::<char>::empty(),
    decreases cs.len() - i,
{
    reveal(crate::custom_error::spec_contexts_block);
    if i < cs.len() {
        lemma_no_contexts_no_decoration(cs, i + 1, first, margin);
    }
}

/// Empty contexts at the tail of the list change nothing: the block renders
/// as if the list stopped after its last non-empty member. Together with the
/// solo and merged decoration laws this fixes the decoration of every list
/// that holds at least one non-empty context.
pub proof fn lemma_trailing_empties_ignored(cs: Seq<ContextV>, i: nat, first: bool, margin: nat, m: nat)
    requires
        i <= m <= cs.len(),
        forall|j: int| m <= j < cs.len() ==> spec_is_empty(cs[j]),
    ensures
        spec_contexts_block(cs, i, first, margin) == spec_contexts_block(
            cs.take(m as int),
            i,
            first,
            margin,
        ),
    decreases cs.len() - i,
{
    reveal(crate::custom_error::spec_contexts_block);
    let t = cs.take(m as int);
    if i >= cs.len() {
        assert(spec_contexts_block(cs, i, first, margin) == Seq::<char>::empty());
        assert(spec_contexts_block(t, i, first, margin) == Seq::<char>::empty());
    } else if i >= m {
        lemma_no_contexts_no_decoration(cs, i, first, margin);
        assert(spec_contexts_block(t, i, first, margin) == Seq::<char>::empty());
    } else {
        assert(t[i as int] == cs[i as int]);
        if spec_is_empty(cs[i as int]) {
            lemma_trailing_empties_ignored(cs, i + 1, first, margin, m);
        } else {
            assert(crate::custom_error::no_nonempty_after(cs, i)
                == crate::custom_error::no_nonempty_after(t, i)) by {
                if crate::custom_error::no_nonempty_after(t, i) {
                    assert forall|j: int| i < j < cs.len() implies spec_is_empty(cs[j]) by {
                        if j < m {
                            assert(t[j] == cs[j]);
                        }
                    }
                }
                if crate::custom_error::no_nonempty_after(cs, i) {
                    assert forall|j: int| i < j < t.len() implies spec_is_empty(t[j]) by {
                        assert(t[j] == cs[j]);
                    }
                }
            }
            lemma_trailing_empties_ignored(cs, i + 1, false, margin, m);
        }
    }
}

/// The non-first, non-last members of a merged group, rendered without
/// either decorator.
pub open spec fn spec_middles(cs: Seq<ContextV>, i: nat, margin: nat) -> Seq<char>
    decreases cs.len() - i,
{
    if i >= cs.len() {
        Seq::empty()
    } else {
        spec_render_with(cs[i as int], None, false, false, margin) + spec_middles(cs, i + 1, margin)
    }
}

/// Middles from position `k` equal the middles of the sequence with the
/// first `k` members dropped.
proof fn lemma_middles_tail(cs: Seq<ContextV>, k: nat, margin: nat)
    requires
        k <= cs.len(),
    ensures
        spec_middles(cs, k, margin) == spec_middles(
            cs.subrange(k as int, cs.len() as int),
            0,
            margin,
        ),
    decreases cs.len() - k,
{
    let t = cs.subrange(k as int, cs.len() as int);
    if k == cs.len() {
        assert(t.len() == 0);
    } else {
        lemma_middles_tail(cs, k + 1, margin);
        lemma_middles_tail(t, 1, margin);
        assert(t[0] == cs[k as int]);
        assert(t.subrange(1, t.len() as int) =~= cs.subrange(k as int + 1, cs.len() as int));
        assert(spec_middles(cs, k, margin) =~= spec_middles(t, 0, margin));
    }
}

/// The tail of a merged group: middles, then the last member with the
/// trailing decorator and the closing line feed.
proof fn lemma_block_tail(cs: Seq<ContextV>, i: nat, margin: nat)
    requires
        cs.len() >= 2,
        1 <= i <= cs.len() - 1,
        forall|j: int| 0 <= j < cs.len() ==> !spec_is_empty(cs[j]),
    ensures
        spec_contexts_block(cs, i, false, margin) == spec_middles(
            cs.subrange(i as int, cs.len() - 1),
            0,
            margin,
        ) + spec_render_with(cs.last(), None, false, true, margin) + seq!['\n'],
    decreases cs.len() - i,
{
    reveal(crate::custom_error::spec_contexts_block);
    let mid = cs.subrange(i as int, cs.len() - 1);
    if i == cs.len() - 1 {
        assert(spec_contexts_block(cs, (i + 1) as nat, false, margin) == Seq::<char>::empty());
        assert(mid.len() == 0);
        assert(cs[i as int] == cs.last());
        assert(spec_contexts_block(cs, i, false, margin) =~= spec_middles(mid, 0, margin)
            + spec_render_with(cs.last(), None, false, true, margin) + seq!['\n']);
    } else {
        lemma_block_tail(cs, i + 1, margin);
        lemma_middles_tail(mid, 1, margin);
        assert(mid[0] == cs[i as int]);
        assert(mid.subrange(1, mid.len() as int) =~= cs.subrange(i as int + 1, cs.len() - 1));
        assert(spec_contexts_block(cs, i, false, margin) =~= spec_middles(mid, 0, margin)
            + spec_render_with(cs.last(), None, false, true, margin) + seq!['\n']);
    }
}

/// In a merged rendering of two or more non-empty contexts, the leading
/// decorator is drawn exactly once, by the first member, and the trailing
/// decorator exactly once, by the last member, whatever the number of
/// contexts in between: the block is the first member with only its leading
/// decorator, then the middles with neither, then the last member with only
/// its trailing decorator.
pub proof fn lemma_merged_decoration(cs: Seq<ContextV>, margin: nat)
    requires
        cs.len() >= 2,
        forall|i: int| 0 <= i < cs.len() ==> !spec_is_empty(cs[i]),
    ensures
        spec_contexts_block(cs, 0, true, margin) == spec_render_with(cs[0], None, true, false, margin)
            + spec_middles(cs.subrange(1, cs.len() - 1), 0, margin) + spec_render_with(
            cs.last(),
            None,
            false,
            true,
            margin,
        ) + seq!['\n'],
{
    reveal(crate::custom_error::spec_contexts_block);
    lemma_block_tail(cs, 1, margin);
    assert(spec_contexts_block(cs, 0, true, margin) =~= spec_render_with(
        cs[0],
        None,
        true,
        false,
        margin,
    ) + spec_middles(cs.subrange(1, cs.len() - 1), 0, margin) + spec_render_with(
        cs.last(),
        None,
        false,
        true,
        margin,
    ) + seq!['\n']);
}

/// A single non-empty context in a diagnostic draws both decorators itself,
/// using its own margin, and closes with a line feed.
pub proof fn lemma_solo_decoration(cs: Seq<ContextV>, margin: nat)
    requires
        cs.len() == 1,
        !spec_is_empty(cs[0]),
    ensures
        spec_contexts_block(cs, 0, true, margin) == spec_render_with(
            cs[0],
            None,
            true,
            true,
            crate::render::spec_margin_of(cs[0]),
        ) + seq!['\n'],
{
    reveal(crate::custom_error::spec_contexts_block);
    assert(spec_contexts_block(cs, 1, false, margin) == Seq::<char>::empty());
    assert(spec_contexts_block(cs, 0, true, margin) =~= spec_render_with(
        cs[0],
        None,
        true,
        true,
        crate::render::spec_margin_of(cs[0]),
    ) + seq!['\n']);
}

/// A highlight that overruns its line is clipped: on a row that shows the
/// whole line, a bracket run of length two or more spans exactly the
/// highlight's length clipped to the characters the line has left after the
/// offset, so it never extends past the line end; its comment is not cut
/// off. (A highlight starting on the line's last character still draws its
/// two end caps, so offsets within one character of the line end are left
/// out.)
pub proof fn lemma_overlong_highlight_clipped(h: HighlightV, line_len: nat)
    requires
        2 <= h.length,
        h.offset + 2 <= line_len,
    ensures
        spec_glyphs(h, 0, line_len, false, false, line_len, line_len).0.len() == nat_min(
            h.length,
            (line_len - h.offset) as nat,
        ),
        h.offset + spec_glyphs(h, 0, line_len, false, false, line_len, line_len).0.len()
            <= line_len,
        !spec_glyphs(h, 0, line_len, false, false, line_len, line_len).1,
{
    reveal(crate::render::spec_glyphs);
}

/// A displayed span wider than one window step continues with further rows:
/// the rendering is the first row followed by the rows from the stepped
/// start, and that remainder is never empty.
pub proof fn lemma_wide_window_continues(
    line: Seq<char>,
    hs: Seq<crate::highlight::HighlightV>,
    li: nat,
    ln: Option<u32>,
    flo: nat,
    margin: nat,
    max_cols: nat,
    d1: nat,
    start: nat,
    first: bool,
    llcco: bool,
)
    requires
        2 <= max_cols,
        d1 <= usize::MAX,
        start < d1,
        sat_add(start, nat_sub(max_cols, 1)) < d1,
    ensures
        ({
            let r = spec_row(line, hs, li, ln, flo, margin, max_cols, start, first, llcco);
            let next = sat_add(start, nat_sub(max_cols, 1));
            spec_rows(line, hs, li, ln, flo, margin, max_cols, d1, start, first, llcco) == r.0
                + spec_rows(line, hs, li, ln, flo, margin, max_cols, d1, next, false, r.1)
                && spec_rows(line, hs, li, ln, flo, margin, max_cols, d1, next, false, r.1).len()
                > 0
        }),
{
    reveal(crate::render::spec_rows);
    reveal(crate::render::spec_row);
    let next = sat_add(start, nat_sub(max_cols, 1));
    assert(start < next);
    let r2 = spec_row(
        line,
        hs,
        li,
        ln,
        flo,
        margin,
        max_cols,
        next,
        false,
        spec_row(line, hs, li, ln, flo, margin, max_cols, start, first, llcco).1,
    );
    assert(r2.0.len() > 0);
}

/// Every continuation row, a row whose window does not start at the line
/// start, begins with the ellipsis glyph right after its line-number
/// header, marking the truncation on its left.
pub proof fn lemma_continuation_row_marks_truncation(
    line: Seq<char>,
    hs: Seq<crate::highlight::HighlightV>,
    li: nat,
    ln: Option<u32>,
    flo: nat,
    margin: nat,
    max_cols: nat,
    start: nat,
    first: bool,
    llcco: bool,
)
    requires
        start != 0,
    ensures
        ({
            let r = spec_row(line, hs, li, ln, flo, margin, max_cols, start, first, llcco).0;
            let hd = spec_row_header(ln, li, margin);
            r.len() > hd.len() && r[hd.len() as int] == ELLIPSIS
        }),
{
    reveal(crate::render::spec_row);
    let r = spec_row(line, hs, li, ln, flo, margin, max_cols, start, first, llcco).0;
    let hd = spec_row_header(ln, li, margin);
    let line_len = line.len();
    let end = nat_min(sat_add(start, max_cols), line_len);
    let row_len = nat_sub(end, start);
    let et = end < line_len;
    let t = nat_min(row_len, nat_sub(max_cols, crate::render::b2n(true) + crate::render::b2n(et)));
    let text = crate::render::spec_row_text(line, start, t, true, et);
    assert(text[0] == ELLIPSIS);
    assert(r[hd.len() as int] == text[0]);
}

} // verus!
