//! A boxed variant of the diagnostic record: one pointer on the stack, so
//! that the happy path of a `Result` stays small.

use vstd::prelude::*;

use crate::context::Context;
use crate::custom_error::{
    contexts_view, errors_view, spec_could_merge, spec_display_error, strings_view, CustomError,
    ErrorV,
};
use crate::error_kind::BasicKind;

verus! {

/// An error stored behind a pointer, with the same interface as
/// [`CustomError`].
pub struct BoxedError {
    pub(crate) content: Box<CustomError>,
}

impl View for BoxedError {
    type V = ErrorV;

    closed spec fn view(&self) -> ErrorV {
        self.content@
    }
}

/// The view of a boxed error is the view of its content.
pub(crate) proof fn lemma_boxed_view(b: &BoxedError)
    ensures
        b@ == b.content@,
{
}

impl BoxedError {
    /// Create a new boxed error of the given kind with a short and a long
    /// description and one context.
    pub fn new(kind: BasicKind, short_desc: &str, long_desc: &str, context: Context) -> (r: Self)
        ensures
            r@ == (ErrorV {
                kind,
                short_description: short_desc@,
                long_description: long_desc@,
                suggestions: Seq::<Seq<char>>::empty(),
                version: Seq::<char>::empty(),
                contexts: seq![context@],
                underlying_errors: Seq::<ErrorV>::empty(),
            }),
    {
        BoxedError { content: Box::new(CustomError::new(kind, short_desc, long_desc, context)) }
    }

    /// Update with a new long description.
    #[must_use]
    pub fn long_description(self, long_desc: &str) -> (r: Self)
        ensures
            r@ == (ErrorV { long_description: long_desc@, ..self@ }),
    {
        BoxedError { content: Box::new((*self.content).long_description(long_desc)) }
    }

    /// Extend the suggestions with the given ones; earlier suggestions stay.
    #[must_use]
    pub fn suggestions(self, suggestions: &Vec<String>) -> (r: Self)
        ensures
            r@ == (ErrorV {
                suggestions: self@.suggestions + strings_view(suggestions@),
                ..self@
            }),
    {
        BoxedError { content: Box::new((*self.content).suggestions(suggestions)) }
    }

    /// Set the version of the underlying format.
    #[must_use]
    pub fn version(self, version: &str) -> (r: Self)
        ensures
            r@ == (ErrorV { version: version@, ..self@ }),
    {
        BoxedError { content: Box::new((*self.content).version(version)) }
    }

    /// Replace all contexts with the given one.
    #[must_use]
    pub fn replace_context(self, context: Context) -> (r: Self)
        ensures
            r@ == (ErrorV { contexts: seq![context@], ..self@ }),
    {
        BoxedError { content: Box::new((*self.content).replace_context(context)) }
    }

    /// Add a context; meant for merging identical errors together.
    #[must_use]
    pub fn add_context(self, context: Context) -> (r: Self)
        ensures
            r@ == (ErrorV { contexts: self@.contexts.push(context@), ..self@ }),
    {
        BoxedError { content: Box::new((*self.content).add_context(context)) }
    }

    /// Add several contexts; meant for merging identical errors together.
    #[must_use]
    pub fn add_contexts(self, contexts: Vec<Context>) -> (r: Self)
        ensures
            r@ == (ErrorV { contexts: self@.contexts + contexts_view(contexts@), ..self@ }),
    {
        BoxedError { content: Box::new((*self.content).add_contexts(contexts)) }
    }

    /// Add several contexts in place; meant for merging identical errors.
    pub fn add_contexts_ref(&mut self, contexts: Vec<Context>)
        ensures
            final(self)@ == (ErrorV {
                contexts: old(self)@.contexts + contexts_view(contexts@),
                ..old(self)@
            }),
    {
        self.content.add_contexts_ref(contexts);
    }

    /// Add an underlying error, appended to the current list.
    #[must_use]
    pub fn add_underlying_error(self, underlying_error: CustomError) -> (r: Self)
        ensures
            r@ == (ErrorV {
                underlying_errors: self@.underlying_errors.push(underlying_error@),
                ..self@
            }),
    {
        BoxedError { content: Box::new((*self.content).add_underlying_error(underlying_error)) }
    }

    /// Add the given underlying errors, appended to the current list.
    #[must_use]
    pub fn add_underlying_errors(self, underlying_errors: Vec<CustomError>) -> (r: Self)
        ensures
            r@ == (ErrorV {
                underlying_errors: self@.underlying_errors + errors_view(underlying_errors@),
                ..self@
            }),
    {
        BoxedError { content: Box::new((*self.content).add_underlying_errors(underlying_errors)) }
    }

    /// Rewrite the 0-based line index of every held context.
    #[must_use]
    pub fn overwrite_line_index(self, line_index: u32) -> (r: Self)
        ensures
            r@.kind == self@.kind,
            r@.short_description == self@.short_description,
            r@.long_description == self@.long_description,
            r@.suggestions == self@.suggestions,
            r@.version == self@.version,
            r@.underlying_errors == self@.underlying_errors,
            r@.contexts.len() == self@.contexts.len(),
            forall|i: int| 0 <= i < self@.contexts.len() ==> r@.contexts[i]
                == (crate::context::ContextV {
                    line_number: crate::context::spec_line_number(line_index),
                    ..self@.contexts[i]
                }),
    {
        BoxedError { content: Box::new((*self.content).overwrite_line_index(line_index)) }
    }

    /// Turn this error into one that owns all of its text. Text is always
    /// owned here, so this returns the value unchanged.
    pub fn to_owned(self) -> (r: Self)
        ensures
            r@ == self@,
    {
        self
    }

    /// The kind of this error.
    pub fn get_kind(&self) -> (r: BasicKind)
        ensures
            r == self@.kind,
    {
        self.content.get_kind()
    }

    /// The short description or title of this error.
    pub fn get_short_description(&self) -> (r: &String)
        ensures
            r@ == self@.short_description,
    {
        self.content.get_short_description()
    }

    /// The long description of this error.
    pub fn get_long_description(&self) -> (r: &String)
        ensures
            r@ == self@.long_description,
    {
        self.content.get_long_description()
    }

    /// The suggestions.
    pub fn get_suggestions(&self) -> (r: &Vec<String>)
        ensures
            strings_view(r@) == self@.suggestions,
    {
        self.content.get_suggestions()
    }

    /// The version.
    pub fn get_version(&self) -> (r: &String)
        ensures
            r@ == self@.version,
    {
        self.content.get_version()
    }

    /// The contexts of this error.
    pub fn get_contexts(&self) -> (r: &Vec<Context>)
        ensures
            contexts_view(r@) == self@.contexts,
    {
        self.content.get_contexts()
    }

    /// The underlying errors.
    pub fn get_underlying_errors(&self) -> (r: &Vec<CustomError>)
        ensures
            errors_view(r@) == self@.underlying_errors,
    {
        self.content.get_underlying_errors()
    }

    /// Check whether `other` could be merged into this error: all fields but
    /// the contexts are equal.
    pub fn could_merge(&self, other: &BoxedError) -> (r: bool)
        ensures
            r == spec_could_merge(self@, other@),
    {
        self.content.could_merge(&other.content)
    }

    /// Render this error as text, as
    /// [`crate::custom_error::spec_display_error`] describes.
    pub fn display(&self, settings: Option<()>) -> (r: String)
        ensures
            r@ == spec_display_error(self@),
    {
        self.content.display(settings)
    }

    /// The text form of this error: its full rendering without settings.
    pub fn to_string(&self) -> (r: String)
        ensures
            r@ == spec_display_error(self@),
    {
        self.content.to_string()
    }

    /// Unwrap the boxed content.
    pub fn into_inner(self) -> (r: CustomError)
        ensures
            r@ == self@,
    {
        *self.content
    }
}

impl BoxedError {
    /// Box an owned error.
    pub fn from_error(value: CustomError) -> (r: Self)
        ensures
            r@ == value@,
    {
        BoxedError { content: Box::new(value) }
    }
}

} // verus!
