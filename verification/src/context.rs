//! A located slice of source text plus zero or more highlighted sub-ranges,
//! rendered as an annotated code block.

use vstd::prelude::*;

use crate::highlight::{Highlight, HighlightV};
use crate::text::{
    dec_digits, line_break, number_chars, spec_lines, split_lines, str_to_chars, chars_to_string,
};

verus! {

/// A context presumably in a file, but possibly in any kind of source text:
/// an optional source name, an optional 1-based first line number, a
/// character offset trimmed before the first visible line, the text itself
/// (multi-line text is split on line feeds), and the highlights on it.
pub struct Context {
    /// The source or path of the text.
    pub(crate) source: Option<String>,
    /// 1-based number of the first line; `None` when no line number is known.
    pub(crate) line_number: Option<u32>,
    /// Characters of the first line trimmed away before the slice starts.
    pub(crate) first_line_offset: u32,
    /// The text of this context; logical lines are split on line feeds.
    pub(crate) lines: String,
    /// The highlights, conceptually sorted by line first, offset second;
    /// the renderer tolerates and sorts unsorted input.
    pub(crate) highlights: Vec<Highlight>,
}

/// The mathematical value of a [`Context`].
#[verifier::ext_equal]
pub ghost struct ContextV {
    pub source: Option<Seq<char>>,
    pub line_number: Option<u32>,
    pub first_line_offset: nat,
    pub lines: Seq<char>,
    pub highlights: Seq<HighlightV>,
}

/// The views of a sequence of highlights.
pub open spec fn highlights_view(hs: Seq<Highlight>) -> Seq<HighlightV> {
    hs.map_values(|h: Highlight| h@)
}

impl View for Context {
    type V = ContextV;

    closed spec fn view(&self) -> ContextV {
        ContextV {
            source: match self.source {
                Some(ref s) => Some(s@),
                None => None,
            },
            line_number: self.line_number,
            first_line_offset: self.first_line_offset as nat,
            lines: self.lines@,
            highlights: highlights_view(self.highlights@),
        }
    }
}

/// The view of a context is its fields, with text as character sequences.
pub(crate) proof fn lemma_context_view(c: &Context)
    ensures
        c@ == (ContextV {
            source: match c.source {
                Some(ref s) => Some(s@),
                None => None,
            },
            line_number: c.line_number,
            first_line_offset: c.first_line_offset as nat,
            lines: c.lines@,
            highlights: highlights_view(c.highlights@),
        }),
{
}

/// The stored line number for a 0-based line index: the index plus one, with
/// the wrapped zero value (from an index at the integer maximum) standing
/// for "no line number".
pub open spec fn spec_line_number(line_index: u32) -> Option<u32> {
    if line_index == u32::MAX {
        None
    } else {
        Some((line_index + 1) as u32)
    }
}

fn line_number_of(line_index: u32) -> (r: Option<u32>)
    ensures
        r == spec_line_number(line_index),
{
    if line_index == u32::MAX {
        None
    } else {
        Some(line_index + 1)
    }
}

/// The length of a half-open range, as the single-line context constructors
/// normalize it: the end bound minus the start, clamped at zero.
pub open spec fn spec_range_span(start: nat, end: nat) -> nat {
    if end >= start {
        (end - start) as nat
    } else {
        0
    }
}

/// Whether a context is empty: no text, no source name and no line number.
pub open spec fn spec_is_empty(c: ContextV) -> bool {
    c.lines.len() == 0 && c.source is None && c.line_number is None
}

impl Context {
    /// Creates a new context when no context can be given.
    pub fn none() -> (r: Self)
        ensures
            r@ == (ContextV {
                source: None,
                line_number: None,
                first_line_offset: 0,
                lines: Seq::<char>::empty(),
                highlights: Seq::<HighlightV>::empty(),
            }),
    {
        let r = Context {
            source: None,
            line_number: None,
            first_line_offset: 0,
            lines: String::new(),
            highlights: Vec::new(),
        };
        proof {
            assert(r@.lines =~= Seq::<char>::empty());
            assert(r@.highlights =~= Seq::<HighlightV>::empty());
        }
        r
    }

    /// Creates a new context when only a line (for example a file name) can
    /// be shown.
    pub fn show(line: &str) -> (r: Self)
        ensures
            r@ == (ContextV {
                source: None,
                line_number: None,
                first_line_offset: 0,
                lines: line@,
                highlights: Seq::<HighlightV>::empty(),
            }),
    {
        let r = Context {
            source: None,
            line_number: None,
            first_line_offset: 0,
            lines: line.to_owned(),
            highlights: Vec::new(),
        };
        proof {
            assert(r@.highlights =~= Seq::<HighlightV>::empty());
        }
        r
    }

    /// Creates a new context when a full line is faulty and no special
    /// position can be annotated on it. `line_index` is 0-based.
    pub fn full_line(line_index: u32, line: &str) -> (r: Self)
        ensures
            r@ == (ContextV {
                source: None,
                line_number: spec_line_number(line_index),
                first_line_offset: 0,
                lines: line@,
                highlights: Seq::<HighlightV>::empty(),
            }),
    {
        let r = Context {
            source: None,
            line_number: line_number_of(line_index),
            first_line_offset: 0,
            lines: line.to_owned(),
            highlights: Vec::new(),
        };
        proof {
            assert(r@.highlights =~= Seq::<HighlightV>::empty());
        }
        r
    }

    /// Creates a new context when a special position can be annotated on a
    /// line: one highlight at `offset` of `length` characters.
    pub fn line(line_index: Option<u32>, line: &str, offset: usize, length: usize) -> (r: Self)
        ensures
            r@ == (ContextV {
                source: None,
                line_number: match line_index {
                    Some(i) => spec_line_number(i),
                    None => None,
                },
                first_line_offset: 0,
                lines: line@,
                highlights: seq![
                    HighlightV { line: 0, offset: offset as nat, length: length as nat, comment: None }
                ],
            }),
    {
        Self::line_with_comment(line_index, line, offset, length, None)
    }

    /// Creates a new context when a special position can be annotated on a
    /// line, with an optional comment on the highlight.
    pub fn line_with_comment(
        line_index: Option<u32>,
        line: &str,
        offset: usize,
        length: usize,
        comment: Option<&str>,
    ) -> (r: Self)
        ensures
            r@ == (ContextV {
                source: None,
                line_number: match line_index {
                    Some(i) => spec_line_number(i),
                    None => None,
                },
                first_line_offset: 0,
                lines: line@,
                highlights: seq![
                    HighlightV {
                        line: 0,
                        offset: offset as nat,
                        length: length as nat,
                        comment: match comment {
                            Some(c) => Some(c@),
                            None => None,
                        },
                    }
                ],
            }),
    {
        let mut highlights: Vec<Highlight> = Vec::new();
        let h = match comment {
            Some(c) => Highlight::with_comment(0, offset, length, c),
            None => Highlight::new(0, offset, length),
        };
        highlights.push(h);
        let r = Context {
            source: None,
            line_number: match line_index {
                Some(i) => line_number_of(i),
                None => None,
            },
            first_line_offset: 0,
            lines: line.to_owned(),
            highlights,
        };
        proof {
            assert(r@.highlights =~= seq![h@]);
        }
        r
    }

    /// Create a context highlighting a certain range on a single line. The
    /// highlight starts at `range.start` and runs for `range.end - range.start`
    /// characters.
    pub fn line_range(line_index: Option<u32>, line: &str, range: core::ops::Range<usize>) -> (r: Self)
        ensures
            r@ == (ContextV {
                source: None,
                line_number: match line_index {
                    Some(i) => spec_line_number(i),
                    None => None,
                },
                first_line_offset: 0,
                lines: line@,
                highlights: seq![
                    HighlightV {
                        line: 0,
                        offset: range.start as nat,
                        length: spec_range_span(range.start as nat, range.end as nat),
                        comment: None,
                    }
                ],
            }),
    {
        Self::line_range_with_comment(line_index, line, range, None)
    }

    /// Create a context highlighting a certain range on a single line, with
    /// an optional comment on the highlight.
    pub fn line_range_with_comment(
        line_index: Option<u32>,
        line: &str,
        range: core::ops::Range<usize>,
        comment: Option<&str>,
    ) -> (r: Self)
        ensures
            r@ == (ContextV {
                source: None,
                line_number: match line_index {
                    Some(i) => spec_line_number(i),
                    None => None,
                },
                first_line_offset: 0,
                lines: line@,
                highlights: seq![
                    HighlightV {
                        line: 0,
                        offset: range.start as nat,
                        length: spec_range_span(range.start as nat, range.end as nat),
                        comment: match comment {
                            Some(c) => Some(c@),
                            None => None,
                        },
                    }
                ],
            }),
    {
        let length = range.end.saturating_sub(range.start);
        Self::line_with_comment(line_index, line, range.start, length, comment)
    }

    /// Create a context highlighting an inclusive range on a single line:
    /// the highlight starts at `start` and runs through `end`, so its length
    /// is `end - start + 1`, clamped at the machine maximum and zero when
    /// the range is reversed.
    pub fn line_range_inclusive(line_index: Option<u32>, line: &str, start: usize, end: usize) -> (r: Self)
        ensures
            r@ == (ContextV {
                source: None,
                line_number: match line_index {
                    Some(i) => spec_line_number(i),
                    None => None,
                },
                first_line_offset: 0,
                lines: line@,
                highlights: seq![
                    HighlightV {
                        line: 0,
                        offset: start as nat,
                        length: if start <= end {
                            if end - start < usize::MAX {
                                (end - start + 1) as nat
                            } else {
                                usize::MAX as nat
                            }
                        } else {
                            0
                        },
                        comment: None,
                    }
                ],
            }),
    {
        let length: usize = if start <= end {
            (end - start).saturating_add(1)
        } else {
            0
        };
        Self::line_with_comment(line_index, line, start, length, None)
    }

    /// Create a context with multiple highlighted ranges, each given as a
    /// line index, a half-open range on that line, and an optional comment.
    pub fn multiple_highlights(
        line_index: Option<u32>,
        lines: &str,
        highlights: &Vec<(usize, core::ops::Range<usize>, Option<String>)>,
    ) -> (r: Self)
        ensures
            r@.source is None,
            r@.line_number == (match line_index {
                Some(i) => spec_line_number(i),
                None => None,
            }),
            r@.first_line_offset == 0,
            r@.lines == lines@,
            r@.highlights.len() == highlights@.len(),
            forall|i: int| 0 <= i < highlights@.len() ==> r@.highlights[i] == (HighlightV {
                line: highlights@[i].0 as nat,
                offset: highlights@[i].1.start as nat,
                length: spec_range_span(highlights@[i].1.start as nat, highlights@[i].1.end as nat),
                comment: match highlights@[i].2 {
                    Some(ref c) => Some(c@),
                    None => None,
                },
            }),
    {
        let mut hs: Vec<Highlight> = Vec::new();
        let n = highlights.len();
        let mut i: usize = 0;
        while i < n
            invariant
                i <= n,
                n == highlights@.len(),
                hs@.len() == i,
                forall|j: int| 0 <= j < i ==> hs@[j]@ == (HighlightV {
                    line: highlights@[j].0 as nat,
                    offset: highlights@[j].1.start as nat,
                    length: spec_range_span(highlights@[j].1.start as nat, highlights@[j].1.end as nat),
                    comment: match highlights@[j].2 {
                        Some(ref c) => Some(c@),
                        None => None,
                    },
                }),
            decreases n - i,
        {
            let entry = &highlights[i];
            let length = entry.1.end.saturating_sub(entry.1.start);
            let comment = match &entry.2 {
                Some(c) => Some(c.clone()),
                None => None,
            };
            let h = Highlight {
                line: entry.0,
                offset: entry.1.start,
                length,
                comment,
            };
            hs.push(h);
            i = i + 1;
        }
        proof {
            assert(forall|j: int| 0 <= j < hs@.len() ==> highlights_view(hs@)[j] == hs@[j]@);
        }
        Context {
            source: None,
            line_number: match line_index {
                Some(i) => line_number_of(i),
                None => None,
            },
            first_line_offset: 0,
            lines: lines.to_owned(),
            highlights: hs,
        }
    }

    /// Turn this context into one that owns all of its text. Text is always
    /// owned here, so this returns the value unchanged.
    pub fn to_owned(self) -> (r: Self)
        ensures
            r@ == self@,
    {
        self
    }

    /// Check if this is an empty context: no text, no source name, no line
    /// number.
    pub fn is_empty(&self) -> (r: bool)
        ensures
            r == spec_is_empty(self@),
    {
        self.lines.as_str().is_empty() && self.source.is_none() && self.line_number.is_none()
    }
}

/// Builder style methods.
impl Context {
    /// Set the source name.
    #[must_use]
    pub fn source(self, source: &str) -> (r: Self)
        ensures
            r@ == (ContextV { source: Some(source@), ..self@ }),
    {
        Context { source: Some(source.to_owned()), ..self }
    }

    /// Set the 0-based line index; the context stores it 1-based.
    #[must_use]
    pub fn line_index(self, line_index: u32) -> (r: Self)
        ensures
            r@ == (ContextV { line_number: spec_line_number(line_index), ..self@ }),
    {
        Context { line_number: line_number_of(line_index), ..self }
    }

    /// Set the text together with the character offset of the first line.
    #[must_use]
    pub fn lines(self, first_line_offset: u32, lines: &str) -> (r: Self)
        ensures
            r@ == (ContextV {
                first_line_offset: first_line_offset as nat,
                lines: lines@,
                ..self@
            }),
    {
        Context { first_line_offset, lines: lines.to_owned(), ..self }
    }

    /// Add a highlight.
    #[must_use]
    pub fn add_highlight(self, highlight: Highlight) -> (r: Self)
        ensures
            r@ == (ContextV { highlights: self@.highlights.push(highlight@), ..self@ }),
    {
        let ghost old_hs = self.highlights@;
        let mut s = self;
        s.highlights.push(highlight);
        proof {
            assert(highlights_view(s.highlights@) =~= highlights_view(old_hs).push(highlight@));
        }
        s
    }

    /// Add several highlights.
    #[must_use]
    pub fn add_highlights(self, highlights: Vec<Highlight>) -> (r: Self)
        ensures
            r@ == (ContextV {
                highlights: self@.highlights + highlights_view(highlights@),
                ..self@
            }),
    {
        let ghost old_hs = self.highlights@;
        let ghost added = highlights@;
        let mut s = self;
        let mut highlights = highlights;
        s.highlights.append(&mut highlights);
        proof {
            assert(highlights_view(s.highlights@) =~= highlights_view(old_hs) + highlights_view(added));
        }
        s
    }
}

impl Default for Context {
    /// An empty context, identical to [`Context::none`].
    fn default() -> (r: Self)
        ensures
            r@ == (ContextV {
                source: None,
                line_number: None,
                first_line_offset: 0,
                lines: Seq::<char>::empty(),
                highlights: Seq::<HighlightV>::empty(),
            }),
    {
        Context::none()
    }
}

impl Clone for Context {
    fn clone(&self) -> (r: Self)
        ensures
            r@ == self@,
    {
        let mut hs: Vec<Highlight> = Vec::new();
        let n = self.highlights.len();
        let mut i: usize = 0;
        while i < n
            invariant
                i <= n,
                n == self.highlights@.len(),
                hs@.len() == i,
                forall|j: int| 0 <= j < i ==> hs@[j]@ == self.highlights@[j]@,
            decreases n - i,
        {
            let h = self.highlights[i].clone();
            hs.push(h);
            i = i + 1;
        }
        let r = Context {
            source: match &self.source {
                Some(s) => Some(s.clone()),
                None => None,
            },
            line_number: self.line_number,
            first_line_offset: self.first_line_offset,
            lines: self.lines.clone(),
            highlights: hs,
        };
        proof {
            assert(highlights_view(r.highlights@) =~= highlights_view(self.highlights@));
        }
        r
    }
}

/// A position in a source text, for use in parsing and lexing: the text that
/// remains from this point forward, and the 0-based line index and column of
/// the point.
pub struct FilePosition {
    /// The remaining text from this position forward.
    pub text: String,
    /// The current 0-based line index.
    pub line_index: u32,
    /// The current column, in characters.
    pub column: u32,
}

/// The first logical line of `s`: everything before the first line feed.
pub open spec fn first_line_of(s: Seq<char>) -> Seq<char> {
    s.subrange(0, line_break(s, 0))
}

/// `pieces` joined with a line feed between consecutive pieces.
pub open spec fn join_lines(pieces: Seq<Seq<char>>) -> Seq<char>
    decreases pieces.len(),
{
    if pieces.len() == 0 {
        Seq::empty()
    } else if pieces.len() == 1 {
        pieces[0]
    } else {
        pieces[0] + seq!['\n'] + join_lines(pieces.drop_first())
    }
}

impl Context {
    /// Creates a new context to highlight a certain position: the first line
    /// of the remaining text, with a three-character synthetic highlight at
    /// its start.
    pub fn position(pos: &FilePosition) -> (r: Self)
        ensures
            r@ == (ContextV {
                source: None,
                line_number: spec_line_number(pos.line_index),
                first_line_offset: 0,
                lines: first_line_of(pos.text@),
                highlights: seq![HighlightV { line: 0, offset: 0, length: 3, comment: None }],
            }),
    {
        let chars = str_to_chars(pos.text.as_str());
        let n = chars.len();
        let mut e: usize = 0;
        while e < n && chars[e] != '\n'
            invariant
                e <= n,
                n == pos.text@.len(),
                chars@ == pos.text@,
                line_break(pos.text@, e as int) == line_break(pos.text@, 0),
            decreases n - e,
        {
            e = e + 1;
        }
        assert(line_break(pos.text@, 0) == e as int);
        let mut piece: Vec<char> = Vec::new();
        let mut i: usize = 0;
        while i < e
            invariant
                i <= e <= n,
                n == pos.text@.len(),
                chars@ == pos.text@,
                piece@ == pos.text@.subrange(0, i as int),
            decreases e - i,
        {
            piece.push(chars[i]);
            assert(pos.text@.subrange(0, i + 1 as int) =~= pos.text@.subrange(0, i as int) + seq![pos.text@[i as int]]);
            i = i + 1;
        }
        let mut highlights: Vec<Highlight> = Vec::new();
        highlights.push(Highlight::new(0, 0, 3));
        let r = Context {
            source: None,
            line_number: line_number_of(pos.line_index),
            first_line_offset: 0,
            lines: chars_to_string(piece),
            highlights,
        };
        proof {
            assert(r@.highlights =~= seq![HighlightV { line: 0, offset: 0, length: 3, comment: None }]);
        }
        r
    }

    /// Creates a new context from a start and an end position within a
    /// single source text. On one line this is the highlighted span between
    /// the two columns; across lines it is the intervening logical lines
    /// joined with line feeds, without a highlight.
    pub fn range(start: &FilePosition, end: &FilePosition) -> (r: Self)
        requires
            start.line_index == end.line_index ==> start.column <= end.column
                && end.column - start.column <= start.text@.len(),
            start.line_index != end.line_index ==> start.line_index < end.line_index,
        ensures
            start.line_index == end.line_index ==> r@ == (ContextV {
                source: None,
                line_number: spec_line_number(start.line_index),
                first_line_offset: start.column as nat,
                lines: start.text@.subrange(0, end.column - start.column),
                highlights: seq![
                    HighlightV {
                        line: 0,
                        offset: 0,
                        length: (end.column - start.column) as nat,
                        comment: None,
                    }
                ],
            }),
            start.line_index != end.line_index ==> r@ == (ContextV {
                source: None,
                line_number: spec_line_number(start.line_index),
                first_line_offset: start.column as nat,
                lines: join_lines(
                    spec_lines(start.text@).take(
                        if end.line_index - start.line_index <= spec_lines(start.text@).len() {
                            end.line_index - start.line_index
                        } else {
                            spec_lines(start.text@).len() as int
                        },
                    ),
                ),
                highlights: Seq::<HighlightV>::empty(),
            }),
    {
        if start.line_index == end.line_index {
            let span = (end.column - start.column) as usize;
            let chars = str_to_chars(start.text.as_str());
            let mut piece: Vec<char> = Vec::new();
            let mut i: usize = 0;
            while i < span
                invariant
                    i <= span,
                    span <= chars@.len(),
                    chars@ == start.text@,
                    piece@ == start.text@.subrange(0, i as int),
                decreases span - i,
            {
                piece.push(chars[i]);
                assert(start.text@.subrange(0, i + 1 as int) =~= start.text@.subrange(0, i as int) + seq![start.text@[i as int]]);
                i = i + 1;
            }
            let mut highlights: Vec<Highlight> = Vec::new();
            highlights.push(Highlight::new(0, 0, span));
            let r = Context {
                source: None,
                line_number: line_number_of(start.line_index),
                first_line_offset: start.column,
                lines: chars_to_string(piece),
                highlights,
            };
            proof {
                assert(r@.highlights =~= seq![
                    HighlightV { line: 0, offset: 0, length: span as nat, comment: None }
                ]);
            }
            r
        } else {
            let k = (end.line_index - start.line_index) as usize;
            let chars = str_to_chars(start.text.as_str());
            let pieces = split_lines(&chars);
            let take = if k <= pieces.len() { k } else { pieces.len() };
            let ghost taken = spec_lines(start.text@).take(take as int);
            let mut joined: Vec<char> = Vec::new();
            let mut i: usize = 0;
            while i < take
                invariant
                    i <= take <= pieces@.len(),
                    pieces@.len() == spec_lines(start.text@).len(),
                    forall|j: int| 0 <= j < pieces@.len() ==> pieces@[j]@ == spec_lines(start.text@)[j],
                    taken == spec_lines(start.text@).take(take as int),
                    joined@ == join_lines(taken.take(i as int)),
                decreases take - i,
            {
                if i > 0 {
                    joined.push('\n');
                }
                crate::text::push_vec_chars(&mut joined, &pieces[i]);
                proof {
                    lemma_join_lines_step(taken, i as int);
                    assert(taken.take(i as int + 1).drop_last() =~= taken.take(i as int));
                    assert(taken.take(i as int + 1).last() == taken[i as int]);
                    assert(taken[i as int] == spec_lines(start.text@)[i as int]);
                }
                i = i + 1;
            }
            proof {
                assert(taken.take(take as int) =~= taken);
            }
            let r = Context {
                source: None,
                line_number: line_number_of(start.line_index),
                first_line_offset: start.column,
                lines: chars_to_string(joined),
                highlights: Vec::new(),
            };
            proof {
                assert(r@.highlights =~= Seq::<HighlightV>::empty());
            }
            r
        }
    }
}

/// Appending one more piece to a join adds a line feed (when the join was
/// non-empty) and then the piece.
proof fn lemma_join_lines_step(pieces: Seq<Seq<char>>, i: int)
    requires
        0 <= i < pieces.len(),
    ensures
        i == 0 ==> join_lines(pieces.take(i + 1)) == pieces[0],
        i > 0 ==> join_lines(pieces.take(i + 1)) == join_lines(pieces.take(i)) + seq!['\n'] + pieces[i],
    decreases i,
{
    if i == 0 {
        assert(pieces.take(1).len() == 1);
        assert(join_lines(pieces.take(1)) == pieces.take(1)[0]);
        assert(pieces.take(1)[0] == pieces[0]);
    } else {
        let p1 = pieces.take(i + 1);
        let p0 = pieces.take(i);
        assert(p1.len() >= 2);
        assert(join_lines(p1) == p1[0] + seq!['\n'] + join_lines(p1.drop_first()));
        lemma_join_lines_step(pieces.drop_first(), i - 1);
        assert(p1.drop_first() =~= pieces.drop_first().take(i));
        assert(p0.drop_first() =~= pieces.drop_first().take(i - 1));
        if i == 1 {
            assert(join_lines(p1.drop_first()) == pieces.drop_first()[0]);
            assert(join_lines(p0) == p0[0]);
            assert(p1[0] == p0[0]);
            assert(pieces.drop_first()[0] == pieces[1]);
        } else {
            assert(join_lines(pieces.drop_first().take(i)) == join_lines(pieces.drop_first().take(i - 1)) + seq!['\n'] + pieces.drop_first()[i - 1]);
            assert(join_lines(p0) == p0[0] + seq!['\n'] + join_lines(p0.drop_first()));
            assert(p1[0] == p0[0]);
            assert(pieces.drop_first()[i - 1] == pieces[i]);
        }
    }
}

} // verus!
