//! A highlight: a marked sub-range on one logical line of a context, with
//! an optional inline comment.

use vstd::prelude::*;

verus! {

/// A located, length-bounded, optionally commented marker on one logical line
/// of a context. A `length` of zero marks a single point rather than a run.
pub struct Highlight {
    /// Index of the logical line this highlight sits on (0-based, counted
    /// within the context's own text, not within the file).
    pub line: usize,
    /// Character offset into that logical line.
    pub offset: usize,
    /// Length of the highlighted run, in characters; 0 means a point marker.
    pub length: usize,
    /// Optional comment placed next to the highlight.
    pub comment: Option<String>,
}

/// The mathematical value of a [`Highlight`]: the same fields with text as a
/// character sequence.
#[verifier::ext_equal]
pub ghost struct HighlightV {
    pub line: nat,
    pub offset: nat,
    pub length: nat,
    pub comment: Option<Seq<char>>,
}

impl View for Highlight {
    type V = HighlightV;

    open spec fn view(&self) -> HighlightV {
        HighlightV {
            line: self.line as nat,
            offset: self.offset as nat,
            length: self.length as nat,
            comment: match self.comment {
                Some(ref c) => Some(c@),
                None => None,
            },
        }
    }
}

impl Highlight {
    /// Create a highlight at the given line and offset, of the given length,
    /// without a comment.
    pub fn new(line: usize, offset: usize, length: usize) -> (r: Self)
        ensures
            r@ == (HighlightV { line: line as nat, offset: offset as nat, length: length as nat, comment: None }),
    {
        Highlight { line, offset, length, comment: None }
    }

    /// Create a highlight at the given line and offset, of the given length,
    /// with a comment.
    pub fn with_comment(line: usize, offset: usize, length: usize, comment: &str) -> (r: Self)
        ensures
            r@ == (HighlightV {
                line: line as nat,
                offset: offset as nat,
                length: length as nat,
                comment: Some(comment@),
            }),
    {
        Highlight { line, offset, length, comment: Some(comment.to_owned()) }
    }

    /// Create a highlight covering `range` on the given line: the highlight
    /// starts at `range.start` and runs for `range.end - range.start`
    /// characters (zero when the range is reversed).
    pub fn from_range(line: usize, range: core::ops::Range<usize>) -> (r: Self)
        ensures
            r@ == (HighlightV {
                line: line as nat,
                offset: range.start as nat,
                length: if range.start <= range.end { (range.end - range.start) as nat } else { 0 },
                comment: None,
            }),
    {
        let length: usize = if range.start <= range.end { range.end - range.start } else { 0 };
        Highlight { line, offset: range.start, length, comment: None }
    }

    /// Create a highlight covering `range` on the given line, with a comment.
    pub fn from_range_with_comment(line: usize, range: core::ops::Range<usize>, comment: &str) -> (r: Self)
        ensures
            r@ == (HighlightV {
                line: line as nat,
                offset: range.start as nat,
                length: if range.start <= range.end { (range.end - range.start) as nat } else { 0 },
                comment: Some(comment@),
            }),
    {
        let length: usize = if range.start <= range.end { range.end - range.start } else { 0 };
        Highlight { line, offset: range.start, length, comment: Some(comment.to_owned()) }
    }

    /// Create a highlight covering the inclusive range from `start` to `end`
    /// on the given line: offset `start`, length `end - start + 1`, clamped
    /// at the machine maximum and zero when the range is reversed.
    pub fn from_range_inclusive(line: usize, start: usize, end: usize) -> (r: Self)
        ensures
            r@ == (HighlightV {
                line: line as nat,
                offset: start as nat,
                length: if start <= end {
                    if end - start < usize::MAX {
                        (end - start + 1) as nat
                    } else {
                        usize::MAX as nat
                    }
                } else {
                    0
                },
                comment: None,
            }),
    {
        let length: usize = if start <= end {
            (end - start).saturating_add(1)
        } else {
            0
        };
        Highlight { line, offset: start, length, comment: None }
    }

    /// Turn this highlight into one that owns all of its text. Text is always
    /// owned here, so this returns the value unchanged.
    pub fn to_owned(self) -> (r: Self)
        ensures
            r@ == self@,
    {
        self
    }
}

impl Clone for Highlight {
    fn clone(&self) -> (r: Self)
        ensures
            r@ == self@,
    {
        Highlight {
            line: self.line,
            offset: self.offset,
            length: self.length,
            comment: match &self.comment {
                Some(c) => Some(c.clone()),
                None => None,
            },
        }
    }
}

} // verus!
