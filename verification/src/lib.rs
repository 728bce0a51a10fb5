//! Compiler-style diagnostics: located source-text contexts with highlighted
//! ranges, rendered as deterministic, width-bounded text blocks, plus a
//! structural merger that folds repeated diagnostics into one record with
//! many contexts.

/// A highlighted sub-range on one logical line of a context.
pub mod highlight;
/// Character-level helpers shared by the renderers.
pub mod text;
/// A located slice of source text with its highlights.
pub mod context;
/// The context renderer.
pub mod render;
/// Error kinds: the capability that supplies severity and merge policy.
pub mod error_kind;
/// Payload traits for application-defined error taxonomies.
pub mod error_payload;
/// The diagnostic record.
pub mod custom_error;
/// The diagnostic record behind one pointer.
pub mod boxed_error;
/// Merging identical errors.
pub mod combine;
/// The HTML renderer.
pub mod to_html;
/// Laws of rendering and merging, stated and proved.
pub mod laws;

pub use highlight::Highlight;
pub use highlight::HighlightV;
pub use context::Context;
pub use context::ContextV;
pub use context::FilePosition;
pub use render::Merged;
pub use error_kind::ErrorKind;
pub use error_kind::BasicKind;
pub use error_payload::ErrorPayload;
pub use error_payload::ErrorPayloadExt;
pub use error_payload::NoPayload;
pub use error_payload::payload_error;
pub use custom_error::CustomError;
pub use custom_error::ErrorV;
pub use boxed_error::BoxedError;
pub use combine::combine_error;
pub use combine::combine_errors;
pub use combine::CombineErrors;
pub use to_html::ToHtml;
