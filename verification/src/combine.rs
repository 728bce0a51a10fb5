//! Merging identical errors: folding a new diagnostic's contexts into a
//! structurally identical existing diagnostic instead of duplicating it, so
//! that the same error found on many rows of a file collapses into one
//! record carrying many contexts.

use vstd::prelude::*;

use crate::custom_error::{
    contexts_view, errors_view, lemma_error_view, lemma_errors_view, spec_could_merge, CustomError,
    ErrorV,
};
use crate::error_kind::spec_ignored;

verus! {

broadcast use vstd::std_specs::vec::group_vec_axioms;

/// Whether a new error may be folded into an existing one: the existing one
/// is not ignored by its kind's merge policy, and the two agree on
/// everything but their contexts.
pub open spec fn spec_mergeable(existing: ErrorV, new: ErrorV) -> bool {
    !spec_ignored(existing.kind) && spec_could_merge(existing, new)
}

/// An existing error with a new error's contexts appended.
pub open spec fn spec_absorb(existing: ErrorV, new: ErrorV) -> ErrorV {
    ErrorV { contexts: existing.contexts + new.contexts, ..existing }
}

/// Combining one error into a list: the first entry it can merge into takes
/// its contexts; without one, it is appended at the end, so emission order
/// reflects first-occurrence order.
pub open spec fn spec_combine_error(s: Seq<ErrorV>, e: ErrorV) -> Seq<ErrorV>
    decreases s.len(),
{
    if s.len() == 0 {
        seq![e]
    } else if spec_mergeable(s[0], e) {
        seq![spec_absorb(s[0], e)] + s.drop_first()
    } else {
        seq![s[0]] + spec_combine_error(s.drop_first(), e)
    }
}

/// Combining a list of new errors into a list, in order.
pub open spec fn spec_combine_errors(s: Seq<ErrorV>, new: Seq<ErrorV>) -> Seq<ErrorV>
    decreases new.len(),
{
    if new.len() == 0 {
        s
    } else {
        spec_combine_errors(spec_combine_error(s, new[0]), new.drop_first())
    }
}

/// When no entry among the first `i` can merge the new error, combining
/// leaves that prefix unchanged and continues after it.
proof fn lemma_combine_skip(s: Seq<ErrorV>, e: ErrorV, i: int)
    requires
        0 <= i <= s.len(),
        forall|j: int| 0 <= j < i ==> !spec_mergeable(s[j], e),
    ensures
        spec_combine_error(s, e) == s.take(i) + spec_combine_error(s.skip(i), e),
    decreases i,
{
    if i == 0 {
        assert(s.skip(0) =~= s);
        assert(s.take(0) + spec_combine_error(s, e) =~= spec_combine_error(s, e));
    } else {
        lemma_combine_skip(s.drop_first(), e, i - 1);
        assert(s.drop_first().take(i - 1) =~= s.take(i).drop_first());
        assert(s.drop_first().skip(i - 1) =~= s.skip(i));
        assert(spec_combine_error(s, e) == seq![s[0]] + spec_combine_error(s.drop_first(), e));
        assert(seq![s[0]] + (s.drop_first().take(i - 1) + spec_combine_error(s.skip(i), e))
            =~= s.take(i) + spec_combine_error(s.skip(i), e));
    }
}

/// Combine a new error into a stack of existing errors. The first existing
/// error that is not ignored and is structurally equal to the new one
/// (contexts aside) takes over the new error's contexts; otherwise the new
/// error is appended, as [`spec_combine_error`] describes.
#[verifier::rlimit(100)]
#[verifier::loop_isolation(false)]
pub fn combine_error(errors: &mut Vec<CustomError>, error: CustomError, settings: ())
    ensures
        errors_view(final(errors)@) == spec_combine_error(errors_view(old(errors)@), error@),
{
    let ghost ev = errors_view(old(errors)@);
    let ghost e = error@;
    proof {
        lemma_errors_view(old(errors)@);
    }
    let n = errors.len();
    let mut i: usize = 0;
    while i < n
        invariant
            i <= n,
            errors@ == old(errors)@,
            n == errors@.len(),
            ev.len() == n,
            forall|j: int| 0 <= j < i ==> !spec_mergeable(ev[j], e),
        decreases n - i,
    {
        let kind = errors[i].get_kind();
        if !kind.ignored(settings) && errors[i].could_merge(&error) {
            let ghost pre = errors@;
            let existing = errors.remove(i);
            let ghost contexts_in = error.contexts@;
            proof {
                lemma_error_view(&error);
            }
            let merged = existing.add_contexts(error.contexts);
            proof {
                assert(merged@ == spec_absorb(ev[i as int], e));
            }
            let ghost mid = errors@;
            errors.insert(i, merged);
            proof {
                assert(errors@ =~= pre.update(i as int, merged));
                lemma_errors_view(errors@);
                lemma_combine_skip(ev, e, i as int);
                assert(ev.skip(i as int)[0] == ev[i as int]);
                assert(spec_combine_error(ev.skip(i as int), e) == seq![spec_absorb(ev[i as int], e)]
                    + ev.skip(i as int).drop_first());
                assert(ev.skip(i as int).drop_first() =~= ev.skip(i + 1));
                assert(errors_view(errors@) =~= ev.take(i as int) + (seq![spec_absorb(ev[i as int], e)]
                    + ev.skip(i + 1)));
            }
            return;
        }
        proof {
            assert(ev[i as int] == old(errors)@[i as int]@);
        }
        i = i + 1;
    }
    let ghost pre = errors@;
    errors.push(error);
    proof {
        lemma_errors_view(errors@);
        lemma_combine_skip(ev, e, n as int);
        assert(ev.skip(n as int).len() == 0);
        assert(spec_combine_error(ev.skip(n as int), e) == seq![e]);
        assert(ev.take(n as int) =~= ev);
        assert(errors_view(errors@) =~= ev + seq![e]);
    }
}

/// Combine a list of new errors into the list of already existing errors,
/// in order.
#[verifier::loop_isolation(false)]
pub fn combine_errors(base_errors: &mut Vec<CustomError>, new_errors: Vec<CustomError>, settings: ())
    ensures
        errors_view(final(base_errors)@) == spec_combine_errors(
            errors_view(old(base_errors)@),
            errors_view(new_errors@),
        ),
{
    let ghost full = spec_combine_errors(errors_view(old(base_errors)@), errors_view(new_errors@));
    let mut remaining = new_errors;
    while remaining.len() > 0
        invariant
            full == spec_combine_errors(errors_view(base_errors@), errors_view(remaining@)),
        decreases remaining@.len(),
    {
        let ghost rem_before = remaining@;
        let ghost rv = errors_view(remaining@);
        proof {
            lemma_errors_view(remaining@);
        }
        let e = remaining.remove(0);
        proof {
            assert(remaining@ =~= rem_before.drop_first());
        }
        let ghost base_before = errors_view(base_errors@);
        combine_error(base_errors, e, settings);
        proof {
            lemma_errors_view(remaining@);
            assert(errors_view(remaining@) =~= rv.drop_first());
            assert(full == spec_combine_errors(spec_combine_error(base_before, rv[0]), rv.drop_first()));
        }
    }
    proof {
        assert(errors_view(remaining@).len() == 0);
    }
}

/// The streaming variant of the merger: it takes `Result` values one at a
/// time, hands the successes back, and accumulates the errors on the side,
/// merged as [`spec_combine_error`] describes; they are retrieved with
/// [`CombineErrors::errors`] once the input is exhausted.
pub struct CombineErrors {
    errors: Vec<CustomError>,
    settings: (),
}

impl View for CombineErrors {
    type V = Seq<ErrorV>;

    closed spec fn view(&self) -> Seq<ErrorV> {
        errors_view(self.errors@)
    }
}

impl CombineErrors {
    /// A fresh accumulator with no errors.
    pub fn new(settings: ()) -> (r: Self)
        ensures
            r@ == Seq::<ErrorV>::empty(),
    {
        let r = CombineErrors { errors: Vec::new(), settings };
        proof {
            assert(r@ =~= Seq::<ErrorV>::empty());
        }
        r
    }

    /// Feed one result through: a success is handed back, an error is
    /// combined into the accumulated list.
    pub fn give<T>(&mut self, result: Result<T, CustomError>) -> (r: Option<T>)
        ensures
            match result {
                Ok(v) => r == Some(v) && final(self)@ == old(self)@,
                Err(e) => r is None && final(self)@ == spec_combine_error(old(self)@, e@),
            },
    {
        match result {
            Ok(v) => Some(v),
            Err(e) => {
                combine_error(&mut self.errors, e, self.settings);
                None
            },
        }
    }

    /// The combined errors accumulated so far.
    pub fn errors(&self) -> (r: &Vec<CustomError>)
        ensures
            errors_view(r@) == self@,
    {
        &self.errors
    }
}

} // verus!
