//! The HTML renderer: a secondary renderer over the same data model,
//! emitting nested `div`/`span` markup with one highlight `span` per
//! highlighted run, under the same line-window and truncation policy as the
//! text renderer, with its own column budget.

use vstd::prelude::*;

use crate::context::{spec_is_empty, Context, ContextV};
use crate::custom_error::{contexts_view, errors_view, strings_view, CustomError, ErrorV};
use crate::highlight::{Highlight, HighlightV};
use crate::render::{
    filter_line, filter_line_exec, nat_min, nat_sub, sat_add, sort_by_offset, sort_by_offset_exec,
    spec_column_piece, spec_line_piece, union_span, union_span_exec,
};
use crate::text::{chars_to_string, dec_digits, number_chars, push_str_chars, spec_lines, split_lines, str_to_chars};

verus! {

broadcast use vstd::std_specs::vec::group_vec_axioms;

/// The HTML column budget: larger than the text renderer's, since a browser
/// scrolls, but still bounded by the same windowing policy.
pub const HTML_COLS: usize = 195;

/// The opening highlight `span`s at character position `k`: one for every
/// highlight whose run starts there, with its comment as the title.
pub open spec fn spec_html_opens(hs: Seq<HighlightV>, j: nat, k: nat) -> Seq<char>
    decreases hs.len() - j,
{
    if j >= hs.len() {
        Seq::empty()
    } else {
        (if hs[j as int].offset == k {
            "<span class='highlight' title='"@ + (match hs[j as int].comment {
                Some(cs) => cs,
                None => Seq::<char>::empty(),
            }) + "'>"@
        } else {
            Seq::<char>::empty()
        }) + spec_html_opens(hs, j + 1, k)
    }
}

/// The closing `span`s at character position `k`: one for every highlight
/// whose run ends there.
pub open spec fn spec_html_closes(hs: Seq<HighlightV>, j: nat, k: nat) -> Seq<char>
    decreases hs.len() - j,
{
    if j >= hs.len() {
        Seq::empty()
    } else {
        (if sat_add(hs[j as int].offset, hs[j as int].length) == k {
            "</span>"@
        } else {
            Seq::<char>::empty()
        }) + spec_html_closes(hs, j + 1, k)
    }
}

/// The displayed characters of one line from `k` to `kend`, each wrapped in
/// the highlight `span`s that start and end at its position.
#[verifier::opaque]
pub open spec fn spec_html_chars(line: Seq<char>, hs: Seq<HighlightV>, k: nat, kend: nat) -> Seq<char>
    decreases kend - k,
{
    if k >= kend {
        Seq::empty()
    } else {
        spec_html_opens(hs, 0, k) + seq![line[k as int]] + spec_html_closes(hs, 0, k)
            + spec_html_chars(line, hs, k + 1, kend)
    }
}

/// The markup of one logical line: the line number, then the displayed
/// window of the line with ellipses marking truncation, under the text
/// renderer's windowing policy at the HTML column budget.
pub open spec fn spec_html_line(
    highlights: Seq<HighlightV>,
    line: Seq<char>,
    li: nat,
    ln: Option<u32>,
) -> Seq<char> {
    let fl = filter_line(highlights, li);
    let hs = sort_by_offset(fl);
    let line_len = line.len();
    let d = if fl.len() > 0 && line_len > HTML_COLS {
        let u = union_span(fl)->Some_0;
        let start = nat_sub(u.0, 5);
        (start, nat_min(nat_min(sat_add(u.1, 5), line_len), sat_add(start, HTML_COLS as nat)))
    } else {
        (0nat, nat_sub(HTML_COLS as nat, 1))
    };
    let kend = nat_min(d.1, line_len);
    let numf: Seq<char> = match ln {
        None => Seq::empty(),
        Some(n) => dec_digits(n as nat + li),
    };
    "<span class='line-number'>"@ + numf + "</span><span class='line'>"@ + (if d.0 != 0 {
        seq!['…']
    } else {
        Seq::<char>::empty()
    }) + spec_html_chars(line, hs, d.0, kend) + (if kend < line_len {
        seq!['…']
    } else {
        Seq::<char>::empty()
    }) + "</span>"@
}

/// The markup of the logical lines from `li` on.
#[verifier::opaque]
pub open spec fn spec_html_lines(
    highlights: Seq<HighlightV>,
    ls: Seq<Seq<char>>,
    li: nat,
    ln: Option<u32>,
) -> Seq<char>
    decreases ls.len() - li,
{
    if li >= ls.len() {
        Seq::empty()
    } else {
        spec_html_line(highlights, ls[li as int], li, ln) + spec_html_lines(highlights, ls, li + 1, ln)
    }
}

/// The markup of a context: nothing when empty, the bare source locator
/// when it has no text, else the source locator followed by every line.
pub open spec fn spec_html_context(c: ContextV) -> Seq<char> {
    if spec_is_empty(c) {
        Seq::empty()
    } else if c.lines.len() == 0 {
        "<div class='context'>"@ + "<span class='source'>"@ + (match c.source {
            Some(s) => s,
            None => Seq::<char>::empty(),
        }) + spec_line_piece(c) + spec_column_piece(c) + "</span>"@ + "</div>"@
    } else {
        "<div class='context'>"@ + (match c.source {
            Some(s) => "<span class='source'>"@ + s + spec_line_piece(c) + spec_column_piece(c)
                + "</span>"@,
            None => Seq::<char>::empty(),
        }) + spec_html_lines(c.highlights, spec_lines(c.lines), 0, c.line_number) + "</div>"@
    }
}

/// Write the opening highlight `span`s at position `k`.
fn emit_html_opens(out: &mut Vec<char>, hs: &Vec<Highlight>, k: usize)
    ensures
        final(out)@ == old(out)@ + spec_html_opens(
            crate::context::highlights_view(hs@), 0, k as nat,
        ),
{
    let ghost vw = crate::context::highlights_view(hs@);
    let ghost full = spec_html_opens(vw, 0, k as nat);
    let n = hs.len();
    let mut j: usize = 0;
    let ghost mut p: Seq<char> = Seq::empty();
    proof {
        assert(out@ =~= old(out)@ + p);
        assert(p + full =~= full);
    }
    while j < n
        invariant
            j <= n,
            n == vw.len(),
            vw == crate::context::highlights_view(hs@),
            out@ == old(out)@ + p,
            full == p + spec_html_opens(vw, j as nat, k as nat),
        decreases n - j,
    {
        let ghost cur = spec_html_opens(vw, j as nat, k as nat);
        proof {
            assert(vw[j as int] == hs@[j as int]@);
        }
        let ghost piece: Seq<char> = if vw[j as int].offset == k as nat {
            "<span class='highlight' title='"@ + (match vw[j as int].comment {
                Some(cs) => cs,
                None => Seq::<char>::empty(),
            }) + "'>"@
        } else {
            Seq::<char>::empty()
        };
        if hs[j].offset == k {
            push_str_chars(out, "<span class='highlight' title='");
            match &hs[j].comment {
                Some(c) => push_str_chars(out, c.as_str()),
                None => {},
            }
            push_str_chars(out, "'>");
        }
        proof {
            assert(out@ =~= (old(out)@ + p) + piece);
            assert(cur == piece + spec_html_opens(vw, (j + 1) as nat, k as nat));
            p = p + piece;
            assert(full =~= p + spec_html_opens(vw, (j + 1) as nat, k as nat));
        }
        j = j + 1;
    }
    proof {
        assert(full =~= p);
    }
}

/// Write the closing `span`s at position `k`.
fn emit_html_closes(out: &mut Vec<char>, hs: &Vec<Highlight>, k: usize)
    ensures
        final(out)@ == old(out)@ + spec_html_closes(
            crate::context::highlights_view(hs@), 0, k as nat,
        ),
{
    let ghost vw = crate::context::highlights_view(hs@);
    let ghost full = spec_html_closes(vw, 0, k as nat);
    let n = hs.len();
    let mut j: usize = 0;
    let ghost mut p: Seq<char> = Seq::empty();
    proof {
        assert(out@ =~= old(out)@ + p);
        assert(p + full =~= full);
    }
    while j < n
        invariant
            j <= n,
            n == vw.len(),
            vw == crate::context::highlights_view(hs@),
            out@ == old(out)@ + p,
            full == p + spec_html_closes(vw, j as nat, k as nat),
        decreases n - j,
    {
        let ghost cur = spec_html_closes(vw, j as nat, k as nat);
        proof {
            assert(vw[j as int] == hs@[j as int]@);
        }
        let ghost piece: Seq<char> = if sat_add(vw[j as int].offset, vw[j as int].length) == k as nat {
            "</span>"@
        } else {
            Seq::<char>::empty()
        };
        if hs[j].offset.saturating_add(hs[j].length) == k {
            push_str_chars(out, "</span>");
        }
        proof {
            assert(out@ =~= (old(out)@ + p) + piece);
            assert(cur == piece + spec_html_closes(vw, (j + 1) as nat, k as nat));
            p = p + piece;
            assert(full =~= p + spec_html_closes(vw, (j + 1) as nat, k as nat));
        }
        j = j + 1;
    }
    proof {
        assert(full =~= p);
    }
}

/// Write the displayed characters of one line with their highlight `span`s.
#[verifier::rlimit(100)]
#[verifier::spinoff_prover]
fn emit_html_chars(out: &mut Vec<char>, line: &Vec<char>, hs: &Vec<Highlight>, k0: usize, kend: usize)
    requires
        kend <= line@.len(),
    ensures
        final(out)@ == old(out)@ + spec_html_chars(
            line@, crate::context::highlights_view(hs@), k0 as nat, kend as nat,
        ),
{
    let ghost vw = crate::context::highlights_view(hs@);
    let ghost full = spec_html_chars(line@, vw, k0 as nat, kend as nat);
    let mut k: usize = k0;
    let ghost mut p: Seq<char> = Seq::empty();
    proof {
        assert(out@ =~= old(out)@ + p);
        assert(p + full =~= full);
    }
    while k < kend
        invariant
            kend <= line@.len(),
            vw == crate::context::highlights_view(hs@),
            out@ == old(out)@ + p,
            full == p + spec_html_chars(line@, vw, k as nat, kend as nat),
        decreases kend - k,
    {
        let ghost cur = spec_html_chars(line@, vw, k as nat, kend as nat);
        emit_html_opens(out, hs, k);
        out.push(line[k]);
        emit_html_closes(out, hs, k);
        proof {
            reveal_with_fuel(spec_html_chars, 1);
            let piece = spec_html_opens(vw, 0, k as nat) + seq![line@[k as int]]
                + spec_html_closes(vw, 0, k as nat);
            let rest = spec_html_chars(line@, vw, (k + 1) as nat, kend as nat);
            assert(cur == spec_html_opens(vw, 0, k as nat) + seq![line@[k as int]]
                + spec_html_closes(vw, 0, k as nat) + rest);
            assert(out@ =~= old(out)@ + (p + piece));
            p = p + piece;
            assert(full =~= p + rest);
        }
        k = k + 1;
    }
    proof {
        reveal_with_fuel(spec_html_chars, 1);
        assert(full =~= p);
    }
}

/// Write the markup of one logical line.
#[verifier::rlimit(100)]
#[verifier::spinoff_prover]
fn emit_html_line(out: &mut Vec<char>, line: &Vec<char>, highlights: &Vec<Highlight>, li: usize, ln: Option<u32>)
    ensures
        final(out)@ == old(out)@ + spec_html_line(
            crate::context::highlights_view(highlights@), line@, li as nat, ln,
        ),
{
    let ghost hv = crate::context::highlights_view(highlights@);
    let ghost full = spec_html_line(hv, line@, li as nat, ln);
    let fl = filter_line_exec(highlights, li);
    let ghost flv = crate::context::highlights_view(fl@);
    let line_len = line.len();
    let u = union_span_exec(&fl);
    let has_highlights = fl.len() > 0;
    proof {
        assert(flv.len() == fl@.len());
    }
    let sorted = sort_by_offset_exec(fl);
    let d0: usize;
    let d1: usize;
    if has_highlights && line_len > HTML_COLS {
        proof {
            assert(union_span(flv) is Some);
        }
        match u {
            Some((a, b)) => {
                d0 = a.saturating_sub(5);
                let b1 = b.saturating_add(5);
                let b2 = if b1 <= line_len { b1 } else { line_len };
                let b3 = d0.saturating_add(HTML_COLS);
                d1 = if b2 <= b3 { b2 } else { b3 };
            },
            None => {
                d0 = 0;
                d1 = 0;
                proof {
                    assert(false);
                }
            },
        }
    } else {
        d0 = 0;
        d1 = HTML_COLS - 1;
    }
    let kend = if d1 <= line_len { d1 } else { line_len };
    push_str_chars(out, "<span class='line-number'>");
    let ghost numf: Seq<char> = match ln {
        None => Seq::empty(),
        Some(n) => dec_digits(n as nat + li as nat),
    };
    match ln {
        Some(n) => {
            let x: u128 = n as u128 + li as u128;
            proof {
                assert(usize::MAX as nat <= u64::MAX as nat);
            }
            let d = number_chars(x);
            crate::text::push_vec_chars(out, &d);
        },
        None => {},
    }
    push_str_chars(out, "</span><span class='line'>");
    if d0 != 0 {
        out.push('…');
    }
    let k0 = if d0 <= kend { d0 } else { kend };
    proof {
        if d0 as nat >= kend as nat {
            reveal(spec_html_chars);
            assert(spec_html_chars(line@, sort_by_offset(flv), d0 as nat, kend as nat)
                =~= Seq::<char>::empty());
            assert(spec_html_chars(line@, sort_by_offset(flv), k0 as nat, kend as nat)
                =~= Seq::<char>::empty());
        }
    }
    emit_html_chars(out, line, &sorted, k0, kend);
    if kend < line_len {
        out.push('…');
    }
    push_str_chars(out, "</span>");
    proof {
        assert(out@ =~= old(out)@ + full);
    }
}

/// The views of a sequence of character vectors.
pub open spec fn pieces_view(ps: Seq<Vec<char>>) -> Seq<Seq<char>> {
    ps.map_values(|v: Vec<char>| v@)
}

/// Write the markup of the logical lines from `li` on.
#[verifier::rlimit(100)]
#[verifier::loop_isolation(false)]
fn emit_html_lines(out: &mut Vec<char>, pieces: &Vec<Vec<char>>, highlights: &Vec<Highlight>, ln: Option<u32>)
    ensures
        final(out)@ == old(out)@ + spec_html_lines(
            crate::context::highlights_view(highlights@), pieces_view(pieces@), 0, ln,
        ),
{
    let ghost ls = pieces_view(pieces@);
    let ghost hv = crate::context::highlights_view(highlights@);
    let ghost full = spec_html_lines(hv, ls, 0, ln);
    let n = pieces.len();
    let mut li: usize = 0;
    let ghost mut p: Seq<char> = Seq::empty();
    proof {
        assert(out@ =~= old(out)@ + p);
        assert(p + full =~= full);
    }
    while li < n
        invariant
            li <= n,
            n == ls.len(),
            out@ == old(out)@ + p,
            full == p + spec_html_lines(hv, ls, li as nat, ln),
        decreases n - li,
    {
        let ghost cur = spec_html_lines(hv, ls, li as nat, ln);
        proof {
            assert(ls[li as int] == pieces@[li as int]@);
        }
        emit_html_line(out, &pieces[li], highlights, li, ln);
        proof {
            reveal_with_fuel(spec_html_lines, 1);
            let piece = spec_html_line(hv, ls[li as int], li as nat, ln);
            let rest = spec_html_lines(hv, ls, (li + 1) as nat, ln);
            assert(cur == piece + rest);
            p = p + piece;
            assert(out@ =~= old(out)@ + p);
            assert(full =~= p + rest);
        }
        li = li + 1;
    }
    proof {
        reveal_with_fuel(spec_html_lines, 1);
        assert(full =~= p);
    }
}

impl Context {
    /// The HTML form of this context, as [`spec_html_context`] describes.
    #[verifier::rlimit(100)]
    #[verifier::spinoff_prover]
    pub fn to_html(&self) -> (r: String)
        ensures
            r@ == spec_html_context(self@),
    {
        proof {
            crate::context::lemma_context_view(self);
        }
        let mut out: Vec<char> = Vec::new();
        if self.is_empty() {
            proof {
                assert(out@ =~= spec_html_context(self@));
            }
        } else if self.lines.as_str().is_empty() {
            push_str_chars(&mut out, "<div class='context'>");
            push_str_chars(&mut out, "<span class='source'>");
            match &self.source {
                Some(s) => push_str_chars(&mut out, s.as_str()),
                None => {},
            }
            crate::render::emit_line_piece(&mut out, self);
            crate::render::emit_column_piece(&mut out, self);
            push_str_chars(&mut out, "</span>");
            push_str_chars(&mut out, "</div>");
            proof {
                assert(out@ =~= spec_html_context(self@));
            }
        } else {
            push_str_chars(&mut out, "<div class='context'>");
            match &self.source {
                Some(s) => {
                    push_str_chars(&mut out, "<span class='source'>");
                    push_str_chars(&mut out, s.as_str());
                    crate::render::emit_line_piece(&mut out, self);
                    crate::render::emit_column_piece(&mut out, self);
                    push_str_chars(&mut out, "</span>");
                },
                None => {},
            }
            let chars = str_to_chars(self.lines.as_str());
            let pieces = split_lines(&chars);
            proof {
                assert(pieces_view(pieces@) =~= spec_lines(self@.lines));
            }
            emit_html_lines(&mut out, &pieces, &self.highlights, self.line_number);
            push_str_chars(&mut out, "</div>");
            proof {
                assert(out@ =~= spec_html_context(self@));
            }
        }
        chars_to_string(out)
    }
}

/// The markup of the underlying errors from `i` on, as collapsible list
/// items.
#[verifier::opaque]
pub open spec fn spec_html_underlying(us: Seq<ErrorV>, i: nat) -> Seq<char>
    decreases us, us.len() - i,
{
    if i >= us.len() {
        Seq::empty()
    } else {
        "<li class='underlying_error'>"@ + spec_html_error(us[i as int]) + "</li>"@
            + spec_html_underlying(us, i + 1)
    }
}

/// The suggestion list items from `i` on.
#[verifier::opaque]
pub open spec fn spec_html_suggestions(ss: Seq<Seq<char>>, i: nat) -> Seq<char>
    decreases ss.len() - i,
{
    if i >= ss.len() {
        Seq::empty()
    } else {
        "<li class='suggestion'>"@ + ss[i as int] + "</li>"@ + spec_html_suggestions(ss, i + 1)
    }
}

/// The markup of a diagnostic: a `div` classed by the kind's label, holding
/// the title, the contexts, the description, the suggestions, the version,
/// and the underlying errors as a checkbox-collapsible list.
pub open spec fn spec_html_error(e: ErrorV) -> Seq<char>
    decreases e, 0nat,
{
    "<div class='"@ + crate::error_kind::spec_descriptor(e.kind) + "'>"@ + "<p class='title'>"@
        + e.short_description + "</p>"@ + "<div class='contexts'>"@ + spec_html_contexts(
        e.contexts,
        0,
    ) + "</div>"@ + "<p class='description'>"@ + e.long_description + "</p>"@ + (if e.suggestions.len()
        == 0 {
        Seq::<char>::empty()
    } else {
        "<p>Did you mean"@ + (if e.suggestions.len() == 1 {
            Seq::<char>::empty()
        } else {
            " any of"@
        }) + "?</p><ul>"@ + spec_html_suggestions(e.suggestions, 0) + "</ul>"@
    }) + (if e.version.len() == 0 {
        Seq::<char>::empty()
    } else {
        "<p class='version'>Version: <span class='version-text'>"@ + e.version + "</span></p>"@
    }) + (if e.underlying_errors.len() == 0 {
        Seq::<char>::empty()
    } else {
        "<label><input type='checkbox'></input> Underlying error"@ + (if e.underlying_errors.len()
            == 1 {
            Seq::<char>::empty()
        } else {
            "s"@
        }) + "</label><ul>"@ + spec_html_underlying(e.underlying_errors, 0) + "</ul>"@
    }) + "</div>"@
}

/// The markup of the contexts from `i` on.
#[verifier::opaque]
pub open spec fn spec_html_contexts(cs: Seq<ContextV>, i: nat) -> Seq<char>
    decreases cs.len() - i,
{
    if i >= cs.len() {
        Seq::empty()
    } else {
        spec_html_context(cs[i as int]) + spec_html_contexts(cs, i + 1)
    }
}

/// Write the suggestion list items.
fn emit_html_suggestions(out: &mut Vec<char>, ss: &Vec<String>)
    ensures
        final(out)@ == old(out)@ + spec_html_suggestions(strings_view(ss@), 0),
{
    let ghost sv = strings_view(ss@);
    let ghost full = spec_html_suggestions(sv, 0);
    let n = ss.len();
    let mut i: usize = 0;
    let ghost mut p: Seq<char> = Seq::empty();
    proof {
        assert(out@ =~= old(out)@ + p);
        assert(p + full =~= full);
    }
    while i < n
        invariant
            i <= n,
            n == ss@.len(),
            sv == strings_view(ss@),
            out@ == old(out)@ + p,
            full == p + spec_html_suggestions(sv, i as nat),
        decreases n - i,
    {
        let ghost cur = spec_html_suggestions(sv, i as nat);
        proof {
            assert(sv[i as int] == ss@[i as int]@);
        }
        push_str_chars(out, "<li class='suggestion'>");
        push_str_chars(out, ss[i].as_str());
        push_str_chars(out, "</li>");
        proof {
            reveal_with_fuel(spec_html_suggestions, 1);
            let piece = "<li class='suggestion'>"@ + sv[i as int] + "</li>"@;
            let rest = spec_html_suggestions(sv, (i + 1) as nat);
            assert(cur == piece + rest);
            assert(out@ =~= old(out)@ + (p + piece));
            p = p + piece;
            assert(full =~= p + rest);
        }
        i = i + 1;
    }
    proof {
        reveal_with_fuel(spec_html_suggestions, 1);
        assert(full =~= p);
    }
}

/// Write the markup of the contexts.
fn emit_html_contexts(out: &mut Vec<char>, cs: &Vec<Context>)
    ensures
        final(out)@ == old(out)@ + spec_html_contexts(contexts_view(cs@), 0),
{
    let ghost cv = contexts_view(cs@);
    let ghost full = spec_html_contexts(cv, 0);
    let n = cs.len();
    let mut i: usize = 0;
    let ghost mut p: Seq<char> = Seq::empty();
    proof {
        assert(out@ =~= old(out)@ + p);
        assert(p + full =~= full);
    }
    while i < n
        invariant
            i <= n,
            n == cs@.len(),
            cv == contexts_view(cs@),
            out@ == old(out)@ + p,
            full == p + spec_html_contexts(cv, i as nat),
        decreases n - i,
    {
        let ghost cur = spec_html_contexts(cv, i as nat);
        proof {
            assert(cv[i as int] == cs@[i as int]@);
        }
        let piece = cs[i].to_html();
        push_str_chars(out, piece.as_str());
        proof {
            reveal_with_fuel(spec_html_contexts, 1);
            let rest = spec_html_contexts(cv, (i + 1) as nat);
            assert(cur == spec_html_context(cv[i as int]) + rest);
            assert(out@ =~= old(out)@ + (p + piece@));
            p = p + piece@;
            assert(full =~= p + rest);
        }
        i = i + 1;
    }
    proof {
        reveal_with_fuel(spec_html_contexts, 1);
        assert(full =~= p);
    }
}

impl CustomError {
    /// The HTML form of this error, as [`spec_html_error`] describes.
    #[verifier::rlimit(100)]
    #[verifier::spinoff_prover]
    pub fn to_html(&self) -> (r: String)
        ensures
            r@ == spec_html_error(self@),
        decreases *self,
    {
        proof {
            crate::custom_error::lemma_error_view(self);
        }
        let ghost ev = self@;
        let mut out: Vec<char> = Vec::new();
        push_str_chars(&mut out, "<div class='");
        push_str_chars(&mut out, self.get_kind().descriptor());
        push_str_chars(&mut out, "'>");
        push_str_chars(&mut out, "<p class='title'>");
        push_str_chars(&mut out, self.get_short_description().as_str());
        push_str_chars(&mut out, "</p>");
        push_str_chars(&mut out, "<div class='contexts'>");
        emit_html_contexts(&mut out, self.get_contexts());
        push_str_chars(&mut out, "</div>");
        push_str_chars(&mut out, "<p class='description'>");
        push_str_chars(&mut out, self.get_long_description().as_str());
        push_str_chars(&mut out, "</p>");
        let ghost head = "<div class='"@ + crate::error_kind::spec_descriptor(ev.kind) + "'>"@
            + "<p class='title'>"@ + ev.short_description + "</p>"@ + "<div class='contexts'>"@
            + spec_html_contexts(ev.contexts, 0) + "</div>"@ + "<p class='description'>"@
            + ev.long_description + "</p>"@;
        proof {
            assert(out@ =~= head);
        }
        let sn = self.get_suggestions().len();
        if sn > 0 {
            push_str_chars(&mut out, "<p>Did you mean");
            if sn != 1 {
                push_str_chars(&mut out, " any of");
            }
            push_str_chars(&mut out, "?</p><ul>");
            emit_html_suggestions(&mut out, self.get_suggestions());
            push_str_chars(&mut out, "</ul>");
        }
        let ghost sugg: Seq<char> = if ev.suggestions.len() == 0 {
            Seq::empty()
        } else {
            "<p>Did you mean"@ + (if ev.suggestions.len() == 1 {
                Seq::<char>::empty()
            } else {
                " any of"@
            }) + "?</p><ul>"@ + spec_html_suggestions(ev.suggestions, 0) + "</ul>"@
        };
        proof {
            assert(out@ =~= head + sugg);
        }
        if !self.get_version().as_str().is_empty() {
            push_str_chars(&mut out, "<p class='version'>Version: <span class='version-text'>");
            push_str_chars(&mut out, self.get_version().as_str());
            push_str_chars(&mut out, "</span></p>");
        }
        let ghost verb: Seq<char> = if ev.version.len() == 0 {
            Seq::empty()
        } else {
            "<p class='version'>Version: <span class='version-text'>"@ + ev.version
                + "</span></p>"@
        };
        proof {
            assert(out@ =~= head + sugg + verb);
        }
        let un = self.underlying_errors.len();
        let ghost ub: Seq<char> = if ev.underlying_errors.len() == 0 {
            Seq::empty()
        } else {
            "<label><input type='checkbox'></input> Underlying error"@ + (if ev.underlying_errors.len() == 1 {
                Seq::<char>::empty()
            } else {
                "s"@
            }) + "</label><ul>"@ + spec_html_underlying(ev.underlying_errors, 0) + "</ul>"@
        };
        if un > 0 {
            proof {
                crate::custom_error::lemma_errors_view(self.underlying_errors@);
            }
            push_str_chars(&mut out, "<label><input type='checkbox'></input> Underlying error");
            if un != 1 {
                push_str_chars(&mut out, "s");
            }
            push_str_chars(&mut out, "</label><ul>");
            let ghost uhead = out@;
            let ghost uv = ev.underlying_errors;
            let mut j: usize = 0;
            let ghost mut p: Seq<char> = Seq::empty();
            proof {
                assert(out@ =~= uhead + p);
                assert(p + spec_html_underlying(uv, 0) =~= spec_html_underlying(uv, 0));
            }
            while j < un
                invariant
                    j <= un,
                    un == self.underlying_errors@.len(),
                    uv == errors_view(self.underlying_errors@),
                    uv.len() == un,
                    forall|k: int| 0 <= k < un ==> uv[k] == self.underlying_errors@[k]@,
                    out@ == uhead + p,
                    spec_html_underlying(uv, 0) == p + spec_html_underlying(uv, j as nat),
                decreases un - j,
            {
                let ghost cur = spec_html_underlying(uv, j as nat);
                push_str_chars(&mut out, "<li class='underlying_error'>");
                let sub = self.underlying_errors[j].to_html();
                push_str_chars(&mut out, sub.as_str());
                push_str_chars(&mut out, "</li>");
                proof {
                    reveal_with_fuel(spec_html_underlying, 1);
                    let piece = "<li class='underlying_error'>"@ + spec_html_error(uv[j as int])
                        + "</li>"@;
                    let rest = spec_html_underlying(uv, (j + 1) as nat);
                    assert(cur == piece + rest);
                    p = p + piece;
                    assert(out@ =~= uhead + p);
                    assert(spec_html_underlying(uv, 0) =~= p + rest);
                }
                j = j + 1;
            }
            push_str_chars(&mut out, "</ul>");
            proof {
                reveal_with_fuel(spec_html_underlying, 1);
                assert(spec_html_underlying(uv, un as nat) =~= Seq::<char>::empty());
                assert(p =~= spec_html_underlying(uv, 0));
                assert(out@ =~= head + sugg + verb + ub);
            }
        } else {
            proof {
                assert(out@ =~= head + sugg + verb + ub);
            }
        }
        push_str_chars(&mut out, "</div>");
        proof {
            assert(out@ =~= spec_html_error(ev));
        }
        chars_to_string(out)
    }
}

impl crate::boxed_error::BoxedError {
    /// The HTML form of this error, as [`spec_html_error`] describes.
    pub fn to_html(&self) -> (r: String)
        ensures
            r@ == spec_html_error(self@),
    {
        proof {
            crate::boxed_error::lemma_boxed_view(self);
        }
        self.content.to_html()
    }
}

/// Anything of the diagnostic data model that has an HTML form.
pub trait ToHtml {
    /// The HTML form of this value.
    fn to_html(&self) -> String;
}

impl ToHtml for Context {
    fn to_html(&self) -> String {
        Context::to_html(self)
    }
}

impl ToHtml for CustomError {
    fn to_html(&self) -> String {
        CustomError::to_html(self)
    }
}

impl ToHtml for crate::boxed_error::BoxedError {
    fn to_html(&self) -> String {
        crate::boxed_error::BoxedError::to_html(self)
    }
}

} // verus!
