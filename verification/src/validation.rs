//! Checks that the framer cannot make itself, such as a checksum, supplied
//! by the caller as a function from a candidate span of bytes to a verdict.
//!
//! The framer may ask for a verdict on the same span more than once, and what
//! it extracts is stated in terms of the verdicts. So a validator must be
//! callable on every span, and its verdict must depend on nothing but the
//! bytes of the span.

use vstd::prelude::*;

verus! {

/// The verdicts of a validation that accepts every span.
pub open spec fn accept_any() -> spec_fn(Seq<u8>) -> bool {
    |span: Seq<u8>| true
}

/// The validator can be called on every span, and gives slices that hold the
/// same bytes the same verdict.
pub open spec fn is_validator<F: Fn(&[u8]) -> bool>(validator: &F) -> bool {
    &&& forall|span: &[u8]| call_requires(*validator, (span,))
    &&& forall|first: &[u8], second: &[u8], first_verdict: bool, second_verdict: bool|
        first@ == second@ && #[trigger] call_ensures(*validator, (first,), first_verdict)
            && #[trigger] call_ensures(*validator, (second,), second_verdict) ==> first_verdict
            == second_verdict
}

/// The validator accepts the span: it gives no slice that holds these bytes
/// the verdict `false`.
pub open spec fn accepts<F: Fn(&[u8]) -> bool>(validator: &F, span: Seq<u8>) -> bool {
    forall|slice: &[u8], verdict: bool|
        slice@ == span && #[trigger] call_ensures(*validator, (slice,), verdict) ==> verdict
}

/// The verdicts of a validator, span by span.
pub open spec fn verdicts<F: Fn(&[u8]) -> bool>(validator: &F) -> spec_fn(Seq<u8>) -> bool {
    |span: Seq<u8>| accepts(validator, span)
}

/// Asks the validator for its verdict on a span.
pub fn ask<F: Fn(&[u8]) -> bool>(validator: &F, span: &[u8]) -> (verdict: bool)
    requires
        is_validator(validator),
    ensures
        verdict == verdicts(validator)(span@),
{
    validator(span)
}

/// The validator that accepts every span.
pub fn accept_all(span: &[u8]) -> (verdict: bool)
    ensures
        verdict,
{
    true
}

/// `accept_all` is a validator, and its verdicts are those of `accept_any`.
pub proof fn lemma_accept_all()
    ensures
        is_validator(&accept_all),
        verdicts(&accept_all) == accept_any(),
{
    assert(verdicts(&accept_all) =~= accept_any());
}

} // verus!
