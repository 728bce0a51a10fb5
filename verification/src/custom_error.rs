//! A complete user-facing diagnostic: a kind, a short and a long
//! description, suggestions, a version tag, the contexts it points at, and
//! the underlying diagnostics it wraps.

use vstd::prelude::*;

use crate::context::{Context, ContextV};
use crate::error_kind::BasicKind;

verus! {

broadcast use vstd::std_specs::vec::group_vec_axioms;

/// An error or warning with all the data needed to render a helpful
/// message. It owns its contexts and its underlying errors: the tree has no
/// sharing and no cycles.
pub struct CustomError {
    /// The kind of the error.
    pub(crate) kind: BasicKind,
    /// A short description of the error, used as the title line.
    pub(crate) short_description: String,
    /// A longer description, presented below the contexts.
    pub(crate) long_description: String,
    /// Possible suggestions for the indicated text.
    pub(crate) suggestions: Vec<String>,
    /// Version of the underlying format, if applicable.
    pub(crate) version: String,
    /// The contexts: the places in the source this error points at.
    pub(crate) contexts: Vec<Context>,
    /// Underlying errors that this error wraps.
    pub(crate) underlying_errors: Vec<CustomError>,
}

/// The mathematical value of a [`CustomError`]: its fields with text as
/// character sequences and the underlying errors as a sequence of values.
#[verifier::ext_equal]
pub ghost struct ErrorV {
    pub kind: BasicKind,
    pub short_description: Seq<char>,
    pub long_description: Seq<char>,
    pub suggestions: Seq<Seq<char>>,
    pub version: Seq<char>,
    pub contexts: Seq<ContextV>,
    pub underlying_errors: Seq<ErrorV>,
}

/// The views of a sequence of strings.
pub open spec fn strings_view(ss: Seq<String>) -> Seq<Seq<char>> {
    ss.map_values(|s: String| s@)
}

/// The views of a sequence of contexts.
pub open spec fn contexts_view(cs: Seq<Context>) -> Seq<ContextV> {
    cs.map_values(|c: Context| c@)
}

/// The views of a sequence of errors.
pub open spec fn errors_view(es: Seq<CustomError>) -> Seq<ErrorV>
    decreases es,
{
    if es.len() == 0 {
        Seq::empty()
    } else {
        seq![es[0]@] + errors_view(es.drop_first())
    }
}

impl View for CustomError {
    type V = ErrorV;

    closed spec fn view(&self) -> ErrorV
        decreases self,
    {
        ErrorV {
            kind: self.kind,
            short_description: self.short_description@,
            long_description: self.long_description@,
            suggestions: strings_view(self.suggestions@),
            version: self.version@,
            contexts: contexts_view(self.contexts@),
            underlying_errors: errors_view(self.underlying_errors@),
        }
    }
}

/// The view of an error sequence is the element views, in order.
pub proof fn lemma_errors_view(es: Seq<CustomError>)
    ensures
        errors_view(es).len() == es.len(),
        forall|i: int| 0 <= i < es.len() ==> errors_view(es)[i] == es[i]@,
    decreases es,
{
    if es.len() > 0 {
        lemma_errors_view(es.drop_first());
        assert(errors_view(es) == seq![es[0]@] + errors_view(es.drop_first()));
        assert forall|i: int| 0 <= i < es.len() implies errors_view(es)[i] == es[i]@ by {
            if i > 0 {
                assert(errors_view(es)[i] == (seq![es[0]@] + errors_view(es.drop_first()))[i]);
                assert((seq![es[0]@] + errors_view(es.drop_first()))[i] == errors_view(es.drop_first())[i - 1]);
                assert(es.drop_first()[i - 1] == es[i]);
            } else {
                assert(errors_view(es)[0] == (seq![es[0]@] + errors_view(es.drop_first()))[0]);
            }
        }
    }
}

/// The view of an error is its fields, viewed.
pub(crate) proof fn lemma_error_view(e: &CustomError)
    ensures
        e@ == (ErrorV {
            kind: e.kind,
            short_description: e.short_description@,
            long_description: e.long_description@,
            suggestions: strings_view(e.suggestions@),
            version: e.version@,
            contexts: contexts_view(e.contexts@),
            underlying_errors: errors_view(e.underlying_errors@),
        }),
{
}

impl CustomError {
    /// Create a new error of the given kind with a short and a long
    /// description and one context.
    pub fn new(kind: BasicKind, short_desc: &str, long_desc: &str, context: Context) -> (r: Self)
        ensures
            r@ == (ErrorV {
                kind,
                short_description: short_desc@,
                long_description: long_desc@,
                suggestions: Seq::<Seq<char>>::empty(),
                version: Seq::<char>::empty(),
                contexts: seq![context@],
                underlying_errors: Seq::<ErrorV>::empty(),
            }),
    {
        let mut contexts: Vec<Context> = Vec::new();
        contexts.push(context);
        let r = CustomError {
            kind,
            short_description: short_desc.to_owned(),
            long_description: long_desc.to_owned(),
            suggestions: Vec::new(),
            version: String::new(),
            contexts,
            underlying_errors: Vec::new(),
        };
        proof {
            lemma_error_view(&r);
            assert(strings_view(r.suggestions@) =~= Seq::<Seq<char>>::empty());
            assert(contexts_view(r.contexts@) =~= seq![context@]);
            assert(errors_view(r.underlying_errors@) =~= Seq::<ErrorV>::empty());
        }
        r
    }

    /// Update with a new long description.
    #[must_use]
    pub fn long_description(self, long_desc: &str) -> (r: Self)
        ensures
            r@ == (ErrorV { long_description: long_desc@, ..self@ }),
    {
        let ghost old_self = self;
        let r = CustomError { long_description: long_desc.to_owned(), ..self };
        proof {
            lemma_error_view(&r);
            lemma_error_view(&old_self);
        }
        r
    }

    /// Extend the suggestions with the given ones; earlier suggestions stay.
    #[must_use]
    pub fn suggestions(self, suggestions: &Vec<String>) -> (r: Self)
        ensures
            r@ == (ErrorV {
                suggestions: self@.suggestions + strings_view(suggestions@),
                ..self@
            }),
    {
        let ghost old_self = self;
        let mut s = self;
        let n = suggestions.len();
        let mut i: usize = 0;
        while i < n
            invariant
                i <= n,
                n == suggestions@.len(),
                s.kind == old_self.kind,
                s.short_description == old_self.short_description,
                s.long_description == old_self.long_description,
                s.version == old_self.version,
                s.contexts == old_self.contexts,
                s.underlying_errors == old_self.underlying_errors,
                s.suggestions@ == old_self.suggestions@ + suggestions@.take(i as int),
            decreases n - i,
        {
            s.suggestions.push(suggestions[i].clone());
            proof {
                assert(old_self.suggestions@ + suggestions@.take(i + 1 as int) =~= (old_self.suggestions@ + suggestions@.take(i as int)).push(suggestions@[i as int]));
            }
            i = i + 1;
        }
        proof {
            assert(suggestions@.take(n as int) =~= suggestions@);
            lemma_error_view(&s);
            lemma_error_view(&old_self);
            assert(strings_view(s.suggestions@) =~= strings_view(old_self.suggestions@) + strings_view(suggestions@));
        }
        s
    }

    /// Set the version of the underlying format.
    #[must_use]
    pub fn version(self, version: &str) -> (r: Self)
        ensures
            r@ == (ErrorV { version: version@, ..self@ }),
    {
        let ghost old_self = self;
        let r = CustomError { version: version.to_owned(), ..self };
        proof {
            lemma_error_view(&r);
            lemma_error_view(&old_self);
        }
        r
    }

    /// Replace all contexts with the given one.
    #[must_use]
    pub fn replace_context(self, context: Context) -> (r: Self)
        ensures
            r@ == (ErrorV { contexts: seq![context@], ..self@ }),
    {
        let ghost old_self = self;
        let mut contexts: Vec<Context> = Vec::new();
        contexts.push(context);
        let r = CustomError { contexts, ..self };
        proof {
            lemma_error_view(&r);
            lemma_error_view(&old_self);
            assert(contexts_view(r.contexts@) =~= seq![context@]);
        }
        r
    }

    /// Add a context; meant for merging identical errors together.
    #[must_use]
    pub fn add_context(self, context: Context) -> (r: Self)
        ensures
            r@ == (ErrorV { contexts: self@.contexts.push(context@), ..self@ }),
    {
        let ghost old_self = self;
        let mut s = self;
        s.contexts.push(context);
        proof {
            lemma_error_view(&s);
            lemma_error_view(&old_self);
            assert(contexts_view(s.contexts@) =~= contexts_view(old_self.contexts@).push(context@));
        }
        s
    }

    /// Add several contexts; meant for merging identical errors together.
    #[must_use]
    pub fn add_contexts(self, contexts: Vec<Context>) -> (r: Self)
        ensures
            r@ == (ErrorV { contexts: self@.contexts + contexts_view(contexts@), ..self@ }),
    {
        let ghost old_self = self;
        let ghost added = contexts@;
        let mut s = self;
        let mut contexts = contexts;
        s.contexts.append(&mut contexts);
        proof {
            lemma_error_view(&s);
            lemma_error_view(&old_self);
            assert(contexts_view(s.contexts@) =~= contexts_view(old_self.contexts@) + contexts_view(added));
        }
        s
    }

    /// Add several contexts in place; meant for merging identical errors.
    pub fn add_contexts_ref(&mut self, contexts: Vec<Context>)
        ensures
            final(self)@ == (ErrorV {
                contexts: old(self)@.contexts + contexts_view(contexts@),
                ..old(self)@
            }),
    {
        let ghost old_self = *self;
        let ghost added = contexts@;
        let mut contexts = contexts;
        self.contexts.append(&mut contexts);
        proof {
            lemma_error_view(self);
            lemma_error_view(&old_self);
            assert(contexts_view(self.contexts@) =~= contexts_view(old_self.contexts@) + contexts_view(added));
        }
    }

    /// Add an underlying error, appended to the current list.
    #[must_use]
    pub fn add_underlying_error(self, underlying_error: CustomError) -> (r: Self)
        ensures
            r@ == (ErrorV {
                underlying_errors: self@.underlying_errors.push(underlying_error@),
                ..self@
            }),
    {
        let ghost old_self = self;
        let mut s = self;
        s.underlying_errors.push(underlying_error);
        proof {
            lemma_error_view(&s);
            lemma_error_view(&old_self);
            lemma_errors_view(s.underlying_errors@);
            lemma_errors_view(old_self.underlying_errors@);
            assert(errors_view(s.underlying_errors@) =~= errors_view(old_self.underlying_errors@).push(underlying_error@));
        }
        s
    }

    /// Add the given underlying errors, appended to the current list.
    #[must_use]
    pub fn add_underlying_errors(self, underlying_errors: Vec<CustomError>) -> (r: Self)
        ensures
            r@ == (ErrorV {
                underlying_errors: self@.underlying_errors + errors_view(underlying_errors@),
                ..self@
            }),
    {
        let ghost old_self = self;
        let ghost added = underlying_errors@;
        let mut s = self;
        let mut underlying_errors = underlying_errors;
        s.underlying_errors.append(&mut underlying_errors);
        proof {
            lemma_error_view(&s);
            lemma_error_view(&old_self);
            lemma_errors_view(s.underlying_errors@);
            lemma_errors_view(old_self.underlying_errors@);
            lemma_errors_view(added);
            assert(errors_view(s.underlying_errors@) =~= errors_view(old_self.underlying_errors@) + errors_view(added));
        }
        s
    }

    /// Rewrite the 0-based line index of every held context.
    #[must_use]
    pub fn overwrite_line_index(self, line_index: u32) -> (r: Self)
        ensures
            r@.kind == self@.kind,
            r@.short_description == self@.short_description,
            r@.long_description == self@.long_description,
            r@.suggestions == self@.suggestions,
            r@.version == self@.version,
            r@.underlying_errors == self@.underlying_errors,
            r@.contexts.len() == self@.contexts.len(),
            forall|i: int| 0 <= i < self@.contexts.len() ==> r@.contexts[i] == (ContextV {
                line_number: crate::context::spec_line_number(line_index),
                ..self@.contexts[i]
            }),
    {
        let ghost old_self = self;
        let mut s = self;
        let n = s.contexts.len();
        let mut rebuilt: Vec<Context> = Vec::new();
        let mut i: usize = 0;
        while i < n
            invariant
                i <= n,
                n == old_self.contexts@.len(),
                s.contexts@ == old_self.contexts@,
                rebuilt@.len() == i,
                forall|j: int| 0 <= j < i ==> rebuilt@[j]@ == (ContextV {
                    line_number: crate::context::spec_line_number(line_index),
                    ..old_self.contexts@[j]@
                }),
            decreases n - i,
        {
            let c = s.contexts[i].clone();
            rebuilt.push(c.line_index(line_index));
            i = i + 1;
        }
        let r = CustomError { contexts: rebuilt, ..s };
        proof {
            lemma_error_view(&r);
            lemma_error_view(&old_self);
            assert(forall|j: int| 0 <= j < n ==> contexts_view(r.contexts@)[j] == r.contexts@[j]@);
            assert(forall|j: int| 0 <= j < n ==> contexts_view(old_self.contexts@)[j] == old_self.contexts@[j]@);
        }
        r
    }

    /// Turn this error into one that owns all of its text. Text is always
    /// owned here, so this returns the value unchanged.
    pub fn to_owned(self) -> (r: Self)
        ensures
            r@ == self@,
    {
        self
    }

    /// The kind of this error.
    pub fn get_kind(&self) -> (r: BasicKind)
        ensures
            r == self@.kind,
    {
        proof {
            lemma_error_view(self);
        }
        self.kind
    }

    /// The short description or title of this error.
    pub fn get_short_description(&self) -> (r: &String)
        ensures
            r@ == self@.short_description,
    {
        proof {
            lemma_error_view(self);
        }
        &self.short_description
    }

    /// The long description of this error.
    pub fn get_long_description(&self) -> (r: &String)
        ensures
            r@ == self@.long_description,
    {
        proof {
            lemma_error_view(self);
        }
        &self.long_description
    }

    /// The suggestions.
    pub fn get_suggestions(&self) -> (r: &Vec<String>)
        ensures
            strings_view(r@) == self@.suggestions,
    {
        proof {
            lemma_error_view(self);
        }
        &self.suggestions
    }

    /// The version.
    pub fn get_version(&self) -> (r: &String)
        ensures
            r@ == self@.version,
    {
        proof {
            lemma_error_view(self);
        }
        &self.version
    }

    /// The contexts of this error.
    pub fn get_contexts(&self) -> (r: &Vec<Context>)
        ensures
            contexts_view(r@) == self@.contexts,
    {
        proof {
            lemma_error_view(self);
        }
        &self.contexts
    }

    /// The underlying errors.
    pub fn get_underlying_errors(&self) -> (r: &Vec<CustomError>)
        ensures
            errors_view(r@) == self@.underlying_errors,
    {
        proof {
            lemma_error_view(self);
        }
        &self.underlying_errors
    }
}

/// Whether two errors agree on everything that does not involve their
/// contexts: the static content compared when merging.
pub open spec fn spec_could_merge_static(a: ErrorV, b: ErrorV) -> bool {
    a.short_description == b.short_description && a.long_description == b.long_description
        && a.suggestions == b.suggestions && a.version == b.version
}

/// Whether two errors are structurally equal apart from their contexts:
/// same kind, same descriptions, same suggestions, same version, same
/// underlying errors. Contexts are deliberately left out, so that the same
/// error found at many places can be folded into one record.
pub open spec fn spec_could_merge(a: ErrorV, b: ErrorV) -> bool {
    a.kind == b.kind && a.underlying_errors == b.underlying_errors && spec_could_merge_static(a, b)
}

/// Compare two string lists by content.
fn strings_eq(a: &Vec<String>, b: &Vec<String>) -> (r: bool)
    ensures
        r == (strings_view(a@) == strings_view(b@)),
{
    if a.len() != b.len() {
        proof {
            assert(strings_view(a@).len() != strings_view(b@).len());
        }
        return false;
    }
    let n = a.len();
    let mut i: usize = 0;
    while i < n
        invariant
            i <= n,
            n == a@.len() && n == b@.len(),
            forall|j: int| 0 <= j < i ==> a@[j]@ == b@[j]@,
        decreases n - i,
    {
        if !(a[i] == b[i]) {
            proof {
                assert(strings_view(a@)[i as int] == a@[i as int]@);
                assert(strings_view(b@)[i as int] == b@[i as int]@);
            }
            return false;
        }

        i = i + 1;
    }
    proof {
        assert(strings_view(a@) =~= strings_view(b@));
    }
    true
}

/// Compare two highlights by content.
fn highlight_eq(a: &crate::highlight::Highlight, b: &crate::highlight::Highlight) -> (r: bool)
    ensures
        r == (a@ == b@),
{
    if a.line != b.line || a.offset != b.offset || a.length != b.length {
        return false;
    }
    match (&a.comment, &b.comment) {
        (None, None) => {
            proof {
                assert(a@ =~= b@);
            }
            true
        },
        (Some(x), Some(y)) => {
            let r = *x == *y;
            proof {
                if r {
                    assert(a@ =~= b@);
                }
            }
            r
        },
        _ => false,
    }
}

/// Compare two contexts by content.
fn context_eq(a: &Context, b: &Context) -> (r: bool)
    ensures
        r == (a@ == b@),
{
    proof {
        crate::context::lemma_context_view(a);
        crate::context::lemma_context_view(b);
    }
    let source_ok = match (&a.source, &b.source) {
        (None, None) => true,
        (Some(x), Some(y)) => *x == *y,
        _ => false,
    };
    if !source_ok {
        return false;
    }
    let ln_ok = match (a.line_number, b.line_number) {
        (None, None) => true,
        (Some(x), Some(y)) => x == y,
        _ => false,
    };
    if !ln_ok || a.first_line_offset != b.first_line_offset || !(a.lines == b.lines) {
        return false;
    }
    if a.highlights.len() != b.highlights.len() {
        proof {
            assert(a@.highlights.len() != b@.highlights.len());
        }
        return false;
    }
    let n = a.highlights.len();
    let mut i: usize = 0;
    while i < n
        invariant
            i <= n,
            n == a.highlights@.len() && n == b.highlights@.len(),
            forall|j: int| 0 <= j < i ==> a.highlights@[j]@ == b.highlights@[j]@,
        decreases n - i,
    {
        if !highlight_eq(&a.highlights[i], &b.highlights[i]) {
            proof {
                crate::context::lemma_context_view(a);
                crate::context::lemma_context_view(b);
                assert(a@.highlights[i as int] == a.highlights@[i as int]@);
                assert(b@.highlights[i as int] == b.highlights@[i as int]@);
            }
            return false;
        }
        i = i + 1;
    }
    proof {
        assert(a@.highlights =~= b@.highlights);
        assert(a@ =~= b@);
    }
    true
}

/// Compare two context lists by content.
fn contexts_eq(a: &Vec<Context>, b: &Vec<Context>) -> (r: bool)
    ensures
        r == (contexts_view(a@) == contexts_view(b@)),
{
    if a.len() != b.len() {
        proof {
            assert(contexts_view(a@).len() != contexts_view(b@).len());
        }
        return false;
    }
    let n = a.len();
    let mut i: usize = 0;
    while i < n
        invariant
            i <= n,
            n == a@.len() && n == b@.len(),
            forall|j: int| 0 <= j < i ==> a@[j]@ == b@[j]@,
        decreases n - i,
    {
        if !context_eq(&a[i], &b[i]) {
            proof {
                assert(contexts_view(a@)[i as int] == a@[i as int]@);
                assert(contexts_view(b@)[i as int] == b@[i as int]@);
            }
            return false;
        }

        i = i + 1;
    }
    proof {
        assert(contexts_view(a@) =~= contexts_view(b@));
    }
    true
}

impl CustomError {
    /// Compare two errors by content: every field, contexts included.
    pub fn error_eq(&self, other: &CustomError) -> (r: bool)
        ensures
            r == (self@ == other@),
        decreases *self, 0int,
    {
        proof {
            lemma_error_view(self);
            lemma_error_view(other);
        }
        if !(self.kind == other.kind) {
            return false;
        }
        if !(self.short_description == other.short_description)
            || !(self.long_description == other.long_description)
            || !(self.version == other.version) {
            return false;
        }
        if !strings_eq(&self.suggestions, &other.suggestions) {
            return false;
        }
        if !contexts_eq(&self.contexts, &other.contexts) {
            return false;
        }
        let r = errors_eq(&self.underlying_errors, &other.underlying_errors);
        proof {
            if r {
                assert(self@ =~= other@);
            }
        }
        r
    }

    /// Check whether `other` could be merged into this error: all fields
    /// but the contexts are equal. Use together with the kind's merge
    /// policy; see [`crate::combine::combine_error`].
    pub fn could_merge(&self, other: &CustomError) -> (r: bool)
        ensures
            r == spec_could_merge(self@, other@),
    {
        proof {
            lemma_error_view(self);
            lemma_error_view(other);
        }
        self.kind == other.kind && self.short_description == other.short_description
            && self.long_description == other.long_description
            && strings_eq(&self.suggestions, &other.suggestions)
            && self.version == other.version
            && errors_eq(&self.underlying_errors, &other.underlying_errors)
    }
}

/// Compare two error lists by content.
fn errors_eq(a: &Vec<CustomError>, b: &Vec<CustomError>) -> (r: bool)
    ensures
        r == (errors_view(a@) == errors_view(b@)),
    decreases a@, 1int,
{
    proof {
        lemma_errors_view(a@);
        lemma_errors_view(b@);
    }
    if a.len() != b.len() {
        return false;
    }
    let n = a.len();
    let mut i: usize = 0;
    while i < n
        invariant
            i <= n,
            n == a@.len() && n == b@.len(),
            forall|j: int| 0 <= j < i ==> a@[j]@ == b@[j]@,
        decreases n - i,
    {
        if !a[i].error_eq(&b[i]) {
            proof {
                lemma_errors_view(a@);
                lemma_errors_view(b@);
                assert(errors_view(a@)[i as int] == a@[i as int]@);
                assert(errors_view(b@)[i as int] == b@[i as int]@);
            }
            return false;
        }
        i = i + 1;
    }
    proof {
        assert(errors_view(a@) =~= errors_view(b@));
    }
    true
}

/// The largest margin any of the first `i` contexts needs: the shared margin
/// of a merged rendering.
pub open spec fn spec_max_margin(cs: Seq<ContextV>, i: nat) -> nat
    decreases i,
{
    if i == 0 {
        0
    } else {
        crate::render::nat_max(
            spec_max_margin(cs, (i - 1) as nat),
            crate::render::spec_margin_of(cs[i - 1]),
        )
    }
}

/// Whether every context after position `i` is empty: a non-empty context
/// at `i` is then the last one that renders.
pub open spec fn no_nonempty_after(cs: Seq<ContextV>, i: nat) -> bool {
    forall|j: int| i < j < cs.len() ==> crate::context::spec_is_empty(cs[j])
}

/// The merged rendering of the contexts from `i` on: empty contexts are
/// skipped; the first rendered context draws the leading decorator and the
/// last rendered one draws the trailing decorator and a closing line feed; a
/// context that is both alone uses its own margin, the others share
/// `margin`.
#[verifier::opaque]
pub open spec fn spec_contexts_block(cs: Seq<ContextV>, i: nat, first: bool, margin: nat) -> Seq<char>
    decreases cs.len() - i,
{
    if i >= cs.len() {
        Seq::empty()
    } else {
        let c = cs[i as int];
        if crate::context::spec_is_empty(c) {
            spec_contexts_block(cs, i + 1, first, margin)
        } else {
            let trail = no_nonempty_after(cs, i);
            let used = if first && trail {
                crate::render::spec_margin_of(c)
            } else {
                margin
            };
            crate::render::spec_render_with(c, None, first, trail, used) + (if trail {
                seq!['\n']
            } else {
                Seq::<char>::empty()
            }) + spec_contexts_block(cs, i + 1, false, margin)
        }
    }
}

/// The suggestions from `i` on, joined with a comma and a space.
#[verifier::opaque]
pub open spec fn spec_join_comma(ss: Seq<Seq<char>>, i: nat) -> Seq<char>
    decreases ss.len() - i,
{
    if i >= ss.len() {
        Seq::empty()
    } else if i + 1 == ss.len() {
        ss[i as int]
    } else {
        ss[i as int] + ", "@ + spec_join_comma(ss, i + 1)
    }
}

/// The suggestion line: nothing without suggestions, a single question with
/// one, and a joined list with more.
pub open spec fn spec_suggestions_block(ss: Seq<Seq<char>>) -> Seq<char> {
    if ss.len() == 0 {
        Seq::empty()
    } else if ss.len() == 1 {
        "Did you mean: "@ + ss[0] + "?\n"@
    } else {
        "Did you mean any of: "@ + spec_join_comma(ss, 0) + "?\n"@
    }
}

/// The renderings of the underlying errors from `i` on, separated by blank
/// lines.
#[verifier::opaque]
pub open spec fn spec_underlying_list(us: Seq<ErrorV>, i: nat) -> Seq<char>
    decreases us, us.len() - i,
{
    if i >= us.len() {
        Seq::empty()
    } else {
        (if i > 0 {
            seq!['\n']
        } else {
            Seq::<char>::empty()
        }) + spec_display_error(us[i as int]) + spec_underlying_list(us, i + 1)
    }
}

/// The full text rendering of a diagnostic: the title line with the kind's
/// label, the merged contexts sharing the widest margin, the long
/// description, the suggestion line, the version line, and the underlying
/// errors rendered recursively.
pub open spec fn spec_display_error(e: ErrorV) -> Seq<char>
    decreases e, 0nat,
{
    crate::error_kind::spec_descriptor(e.kind) + ": "@ + e.short_description + seq!['\n']
        + spec_contexts_block(e.contexts, 0, true, spec_max_margin(e.contexts, e.contexts.len()))
        + e.long_description + seq!['\n'] + spec_suggestions_block(e.suggestions) + (if e.version.len()
        == 0 {
        Seq::<char>::empty()
    } else {
        "Version: "@ + e.version + "\n"@
    }) + (if e.underlying_errors.len() == 0 {
        Seq::<char>::empty()
    } else {
        (if e.underlying_errors.len() == 1 {
            "Underlying error:\n"@
        } else {
            "Underlying errors:\n"@
        }) + spec_underlying_list(e.underlying_errors, 0)
    })
}

/// The widest margin any of the contexts needs; at most 29.
fn max_margin(contexts: &Vec<Context>) -> (r: usize)
    ensures
        r as nat == spec_max_margin(contexts_view(contexts@), contexts@.len() as nat),
        r <= 29,
{
    let ghost cv = contexts_view(contexts@);
    let n = contexts.len();
    let mut m: usize = 0;
    let mut i: usize = 0;
    while i < n
        invariant
            i <= n,
            n == contexts@.len(),
            cv == contexts_view(contexts@),
            m as nat == spec_max_margin(cv, i as nat),
            m <= 29,
        decreases n - i,
    {
        proof {
            assert(cv[i as int] == contexts@[i as int]@);
        }
        let mi = contexts[i].margin();
        if mi > m {
            m = mi;
        }
        i = i + 1;
    }
    m
}

/// Write the merged rendering of the contexts, sharing `margin`.
#[verifier::rlimit(100)]
#[verifier::spinoff_prover]
fn emit_contexts_block(out: &mut Vec<char>, contexts: &Vec<Context>, margin: usize)
    requires
        margin <= 29,
    ensures
        final(out)@ == old(out)@ + spec_contexts_block(
            contexts_view(contexts@), 0, true, margin as nat,
        ),
{
    let ghost cv = contexts_view(contexts@);
    let ghost full = spec_contexts_block(cv, 0, true, margin as nat);
    let n = contexts.len();
    let mut last: usize = 0;
    let mut found: bool = false;
    let mut j: usize = 0;
    while j < n
        invariant
            j <= n,
            n == contexts@.len(),
            cv == contexts_view(contexts@),
            found ==> last < j && !crate::context::spec_is_empty(cv[last as int])
                && (forall|k: int| last < k < j ==> crate::context::spec_is_empty(cv[k])),
            !found ==> forall|k: int| 0 <= k < j ==> crate::context::spec_is_empty(cv[k]),
        decreases n - j,
    {
        proof {
            assert(cv[j as int] == contexts@[j as int]@);
        }
        if !contexts[j].is_empty() {
            last = j;
            found = true;
        }
        j = j + 1;
    }
    let mut first = true;
    let mut i: usize = 0;
    let ghost mut p: Seq<char> = Seq::empty();
    proof {
        assert(out@ =~= old(out)@ + p);
        assert(p + full =~= full);
    }
    while i < n
        invariant
            i <= n,
            n == contexts@.len(),
            cv == contexts_view(contexts@),
            margin <= 29,
            found ==> last < n && !crate::context::spec_is_empty(cv[last as int])
                && (forall|k: int| last < k < n ==> crate::context::spec_is_empty(cv[k])),
            !found ==> forall|k: int| 0 <= k < n ==> crate::context::spec_is_empty(cv[k]),
            out@ == old(out)@ + p,
            full == p + spec_contexts_block(cv, i as nat, first, margin as nat),
        decreases n - i,
    {
        let ghost cur = spec_contexts_block(cv, i as nat, first, margin as nat);
        let c = &contexts[i];
        proof {
            assert(cv[i as int] == contexts@[i as int]@);
        }
        if !c.is_empty() {
            proof {
                assert(found);
                assert(i <= last);
                if i == last {
                    assert(no_nonempty_after(cv, i as nat));
                } else {
                    assert(!crate::context::spec_is_empty(cv[last as int]));
                    assert(!no_nonempty_after(cv, i as nat));
                }
            }
            let trail = i == last;
            let merged = if first {
                if trail {
                    crate::render::Merged::No
                } else {
                    crate::render::Merged::First(margin)
                }
            } else {
                if trail {
                    crate::render::Merged::Last(margin)
                } else {
                    crate::render::Merged::Middle(margin)
                }
            };
            let piece = c.render(None, merged);
            crate::text::push_str_chars(out, piece.as_str());
            if trail {
                out.push('\n');
            }
            proof {
                reveal_with_fuel(spec_contexts_block, 1);
                assert(trail == no_nonempty_after(cv, i as nat));
                let used: nat = if first && trail {
                    crate::render::spec_margin_of(cv[i as int])
                } else {
                    margin as nat
                };
                assert(piece@ == crate::render::spec_render_with(cv[i as int], None, first, trail, used));
                let tail = if trail {
                    seq!['\n']
                } else {
                    Seq::<char>::empty()
                };
                let rest = spec_contexts_block(cv, (i + 1) as nat, false, margin as nat);
                assert(cur == crate::render::spec_render_with(cv[i as int], None, first, trail, used) + tail + rest);
                p = p + piece@ + tail;
                assert(out@ =~= old(out)@ + p);
                assert(full =~= p + rest);
            }
            first = false;
        } else {
            proof {
                reveal_with_fuel(spec_contexts_block, 1);
                assert(cur == spec_contexts_block(cv, (i + 1) as nat, first, margin as nat));
            }
        }
        i = i + 1;
    }
    proof {
        reveal_with_fuel(spec_contexts_block, 1);
        assert(full =~= p);
    }
}

/// Write the suggestions joined with a comma and a space.
fn emit_join_comma(out: &mut Vec<char>, ss: &Vec<String>)
    ensures
        final(out)@ == old(out)@ + spec_join_comma(strings_view(ss@), 0),
{
    let ghost sv = strings_view(ss@);
    let ghost full = spec_join_comma(sv, 0);
    let n = ss.len();
    let mut i: usize = 0;
    let ghost mut p: Seq<char> = Seq::empty();
    proof {
        assert(out@ =~= old(out)@ + p);
        assert(p + full =~= full);
    }
    while i < n
        invariant
            i <= n,
            n == ss@.len(),
            sv == strings_view(ss@),
            out@ == old(out)@ + p,
            full == p + spec_join_comma(sv, i as nat),
        decreases n - i,
    {
        let ghost cur = spec_join_comma(sv, i as nat);
        proof {
            assert(sv[i as int] == ss@[i as int]@);
        }
        crate::text::push_str_chars(out, ss[i].as_str());
        if i + 1 < n {
            crate::text::push_str_chars(out, ", ");
        }
        proof {
            reveal_with_fuel(spec_join_comma, 2);
            let rest = spec_join_comma(sv, (i + 1) as nat);
            if i + 1 < n {
                assert(cur == sv[i as int] + ", "@ + rest);
                p = p + sv[i as int] + ", "@;
            } else {
                assert(cur == sv[i as int]);
                assert(rest =~= Seq::<char>::empty());
                p = p + sv[i as int];
            }
            assert(out@ =~= old(out)@ + p);
            assert(full =~= p + rest);
        }
        i = i + 1;
    }
    proof {
        reveal_with_fuel(spec_join_comma, 1);
        assert(full =~= p);
    }
}

/// Write the suggestion line, if there are suggestions.
fn emit_suggestions_block(out: &mut Vec<char>, ss: &Vec<String>)
    ensures
        final(out)@ == old(out)@ + spec_suggestions_block(strings_view(ss@)),
{
    let n = ss.len();
    if n == 0 {
        proof {
            assert(out@ =~= old(out)@ + spec_suggestions_block(strings_view(ss@)));
        }
    } else if n == 1 {
        crate::text::push_str_chars(out, "Did you mean: ");
        proof {
            assert(strings_view(ss@)[0] == ss@[0]@);
        }
        crate::text::push_str_chars(out, ss[0].as_str());
        crate::text::push_str_chars(out, "?\n");
        assert(out@ =~= old(out)@ + spec_suggestions_block(strings_view(ss@)));
    } else {
        crate::text::push_str_chars(out, "Did you mean any of: ");
        emit_join_comma(out, ss);
        crate::text::push_str_chars(out, "?\n");
        assert(out@ =~= old(out)@ + spec_suggestions_block(strings_view(ss@)));
    }
}

impl CustomError {
    /// Render this error as text, as [`spec_display_error`] describes. The
    /// settings pick the colour role of the severity label; the text itself
    /// is the same under every setting, since decoration is the identity
    /// here.
    #[verifier::rlimit(100)]
    #[verifier::spinoff_prover]
    #[allow(unused_variables)]
    pub fn display(&self, settings: Option<()>) -> (r: String)
        ensures
            r@ == spec_display_error(self@),
        decreases *self,
    {
        proof {
            lemma_error_view(self);
        }
        let ghost ev = self@;
        let mut out: Vec<char> = Vec::new();
        crate::text::push_str_chars(&mut out, self.kind.descriptor());
        crate::text::push_str_chars(&mut out, ": ");
        crate::text::push_str_chars(&mut out, self.short_description.as_str());
        out.push('\n');
        let ghost title = crate::error_kind::spec_descriptor(ev.kind) + ": "@
            + ev.short_description + seq!['\n'];
        proof {
            assert(out@ =~= title);
        }
        let margin = max_margin(&self.contexts);
        emit_contexts_block(&mut out, &self.contexts, margin);
        let ghost ctxs = spec_contexts_block(
            ev.contexts, 0, true, spec_max_margin(ev.contexts, ev.contexts.len()),
        );
        proof {
            assert(out@ =~= title + ctxs);
        }
        crate::text::push_str_chars(&mut out, self.long_description.as_str());
        out.push('\n');
        emit_suggestions_block(&mut out, &self.suggestions);
        let ghost sugg = spec_suggestions_block(ev.suggestions);
        proof {
            assert(out@ =~= title + ctxs + (ev.long_description + seq!['\n']) + sugg);
        }
        if !self.version.as_str().is_empty() {
            crate::text::push_str_chars(&mut out, "Version: ");
            crate::text::push_str_chars(&mut out, self.version.as_str());
            crate::text::push_str_chars(&mut out, "\n");
        }
        let ghost verb: Seq<char> = if ev.version.len() == 0 {
            Seq::empty()
        } else {
            "Version: "@ + ev.version + "\n"@
        };
        proof {
            assert(out@ =~= title + ctxs + (ev.long_description + seq!['\n']) + sugg + verb);
        }
        let ghost head = title + ctxs + (ev.long_description + seq!['\n']) + sugg + verb;
        let un = self.underlying_errors.len();
        let ghost ub: Seq<char> = if ev.underlying_errors.len() == 0 {
            Seq::empty()
        } else {
            (if ev.underlying_errors.len() == 1 {
                "Underlying error:\n"@
            } else {
                "Underlying errors:\n"@
            }) + spec_underlying_list(ev.underlying_errors, 0)
        };
        if un > 0 {
            proof {
                lemma_errors_view(self.underlying_errors@);
            }
            if un == 1 {
                crate::text::push_str_chars(&mut out, "Underlying error:\n");
            } else {
                crate::text::push_str_chars(&mut out, "Underlying errors:\n");
            }
            let ghost uhead = out@;
            let ghost uv = ev.underlying_errors;
            let mut j: usize = 0;
            let ghost mut p: Seq<char> = Seq::empty();
            proof {
                assert(out@ =~= uhead + p);
                assert(p + spec_underlying_list(uv, 0) =~= spec_underlying_list(uv, 0));
            }
            while j < un
                invariant
                    j <= un,
                    un == self.underlying_errors@.len(),
                    uv == errors_view(self.underlying_errors@),
                    uv.len() == un,
                    forall|k: int| 0 <= k < un ==> uv[k] == self.underlying_errors@[k]@,
                    out@ == uhead + p,
                    spec_underlying_list(uv, 0) == p + spec_underlying_list(uv, j as nat),
                decreases un - j,
            {
                let ghost cur = spec_underlying_list(uv, j as nat);
                if j > 0 {
                    out.push('\n');
                }
                let sub = self.underlying_errors[j].display(settings);
                crate::text::push_str_chars(&mut out, sub.as_str());
                proof {
                    reveal_with_fuel(spec_underlying_list, 1);
                    let sep: Seq<char> = if j > 0 {
                        seq!['\n']
                    } else {
                        Seq::<char>::empty()
                    };
                    let rest = spec_underlying_list(uv, (j + 1) as nat);
                    assert(cur == sep + spec_display_error(uv[j as int]) + rest);
                    p = p + sep + sub@;
                    assert(out@ =~= uhead + p);
                    assert(spec_underlying_list(uv, 0) =~= p + rest);
                }
                j = j + 1;
            }
            proof {
                reveal_with_fuel(spec_underlying_list, 1);
                assert(spec_underlying_list(uv, (un) as nat) =~= Seq::<char>::empty());
                assert(p =~= spec_underlying_list(uv, 0));
                assert(out@ =~= head + ub);
            }
        } else {
            proof {
                assert(out@ =~= head + ub);
            }
        }
        proof {
            assert(out@ =~= spec_display_error(ev));
        }
        crate::text::chars_to_string(out)
    }

    /// The text form of this error: its full rendering without settings.
    pub fn to_string(&self) -> (r: String)
        ensures
            r@ == spec_display_error(self@),
    {
        self.display(None)
    }
}

} // verus!
