//! The kind capability of a diagnostic: its label, whether it blocks, and
//! whether the merger may fold new findings into it.

use vstd::prelude::*;

verus! {

/// The kind of an error. A custom taxonomy implements this; the library
/// ships [`BasicKind`]. `Settings` carries user configuration into the
/// decisions; use `()` when unused.
pub trait ErrorKind {
    /// The settings object that the decisions may consult.
    type Settings;

    /// The term describing this kind, for example "error" or "warning".
    fn descriptor(&self) -> &'static str;

    /// Whether this kind blocks the operation from succeeding.
    fn is_error(&self, settings: Self::Settings) -> bool;

    /// Whether this kind is ignored: never merged into when combining.
    fn ignored(&self, settings: Self::Settings) -> bool;
}

/// A minimal kind taxonomy: a blocking error or a non-blocking warning.
#[derive(Clone, Copy, Debug, PartialEq, Eq, Hash, Structural)]
pub enum BasicKind {
    Error,
    Warning,
}

/// The label of a basic kind.
pub open spec fn spec_descriptor(k: BasicKind) -> Seq<char> {
    match k {
        BasicKind::Error => "error"@,
        BasicKind::Warning => "warning"@,
    }
}

/// Whether a basic kind blocks.
pub open spec fn spec_is_error(k: BasicKind) -> bool {
    k is Error
}

/// Whether the merger must skip a diagnostic of this kind; never, for the
/// basic kinds.
pub open spec fn spec_ignored(k: BasicKind) -> bool {
    false
}

impl BasicKind {
    /// The term describing this kind.
    pub fn descriptor(&self) -> (r: &'static str)
        ensures
            r@ == spec_descriptor(*self),
    {
        match self {
            BasicKind::Error => "error",
            BasicKind::Warning => "warning",
        }
    }

    /// Whether this kind blocks the operation from succeeding.
    pub fn is_error(&self, settings: ()) -> (r: bool)
        ensures
            r == spec_is_error(*self),
    {
        match self {
            BasicKind::Error => true,
            BasicKind::Warning => false,
        }
    }

    /// Whether this kind is ignored when combining; basic kinds never are.
    pub fn ignored(&self, settings: ()) -> (r: bool)
        ensures
            r == spec_ignored(*self),
    {
        false
    }
}

impl ErrorKind for BasicKind {
    type Settings = ();

    fn descriptor(&self) -> &'static str {
        BasicKind::descriptor(self)
    }

    fn is_error(&self, settings: ()) -> bool {
        BasicKind::is_error(self, settings)
    }

    fn ignored(&self, settings: ()) -> bool {
        BasicKind::ignored(self, settings)
    }
}

impl Default for BasicKind {
    /// The default kind is the blocking error.
    fn default() -> (r: Self)
        ensures
            r == BasicKind::Error,
    {
        BasicKind::Error
    }
}

} // verus!
