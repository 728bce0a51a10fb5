//! Payload traits for error taxonomies defined by an application: a payload
//! decides severity and merge policy, and can carry fixed descriptions from
//! which a diagnostic is built.

use vstd::prelude::*;

use crate::context::Context;
use crate::custom_error::{CustomError, ErrorV};
use crate::error_kind::BasicKind;

verus! {

/// Build a diagnostic from a payload's decisions: a blocking payload becomes
/// an error, any other a warning; the descriptions and the one context are
/// carried over unchanged. This is the whole of what
/// [`ErrorPayloadExt::create_error`] computes once the payload has been
/// asked.
pub fn payload_error(blocking: bool, short_desc: &str, long_desc: &str, context: Context) -> (r:
    CustomError)
    ensures
        r@ == (ErrorV {
            kind: if blocking {
                BasicKind::Error
            } else {
                BasicKind::Warning
            },
            short_description: short_desc@,
            long_description: long_desc@,
            suggestions: Seq::<Seq<char>>::empty(),
            version: Seq::<char>::empty(),
            contexts: seq![context@],
            underlying_errors: Seq::<ErrorV>::empty(),
        }),
{
    let kind = if blocking {
        BasicKind::Error
    } else {
        BasicKind::Warning
    };
    CustomError::new(kind, short_desc, long_desc, context)
}

/// A payload that decides whether a finding blocks and whether the merger
/// may ignore it. The trait carries no contracts, so that applications
/// outside the verified world can implement it; what is built from its
/// answers is verified in [`payload_error`].
pub trait ErrorPayload {
    /// The settings object that the decisions may consult.
    type Settings;

    /// Whether this payload blocks the operation from succeeding.
    fn is_error(&self, settings: Self::Settings) -> bool;

    /// Whether this payload is ignored when combining.
    fn ignored(&self, settings: Self::Settings) -> bool;
}

/// A payload that also carries fixed descriptions, from which a complete
/// diagnostic can be built.
pub trait ErrorPayloadExt: ErrorPayload {
    /// The title line of a diagnostic built from this payload.
    fn short_description(&self) -> &'static str;

    /// The long description of a diagnostic built from this payload.
    fn long_description(&self) -> &'static str;

    /// Build a diagnostic from this payload and one context: the payload is
    /// asked whether it blocks and for its descriptions, and
    /// [`payload_error`] assembles the diagnostic from the answers.
    fn create_error(&self, settings: Self::Settings, context: Context) -> CustomError {
        payload_error(
            self.is_error(settings),
            self.short_description(),
            self.long_description(),
            context,
        )
    }
}

/// The payload of a finding that carries no data beyond its severity.
pub enum NoPayload {
    Error,
    Warning,
}

impl ErrorPayload for NoPayload {
    type Settings = ();

    fn is_error(&self, settings: ()) -> bool {
        match self {
            NoPayload::Error => true,
            NoPayload::Warning => false,
        }
    }

    fn ignored(&self, settings: ()) -> bool {
        false
    }
}

} // verus!
