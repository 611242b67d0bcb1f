//! The decision rule of the cumulative-sum policy.
//!
//! This policy keeps a running 64-bit floating point sum per account: a
//! submission is added to the existing record when one is present and not
//! exactly zero, and otherwise simply stored. The floating point arithmetic
//! itself (the addition, the zero test, and the round-to-two-decimals read
//! transform) cannot be verified and is performed by the hosting layer; what
//! is verified here is the choice between adding and overwriting, which the
//! hosting layer feeds with the two facts it read off the existing record.

use vstd::prelude::*;

verus! {

/// The guard of the cumulative policy, named deliberately: an existing record
/// takes part in the running sum only when it is present and not exactly
/// zero. A record that has landed on exactly zero is treated as if the
/// account had never submitted — an anomaly preserved from the observed
/// behaviour, not corrected.
pub open spec fn cumulative_existing_counts(present: bool, is_zero: bool) -> bool {
    present && !is_zero
}

/// How a submission combines with the existing record under the
/// cumulative-sum policy.
#[derive(Clone, Copy, Debug, PartialEq, Eq, Structural)]
pub enum CumulativeCombine {
    /// The incoming value replaces whatever was stored.
    Overwrite,
    /// The incoming value is added to the existing record.
    Accumulate,
}

/// Decides how the cumulative policy combines a submission with the existing
/// record, given whether a record is present and whether it is exactly zero.
pub fn cumulative_combine_choice(existing_present: bool, existing_is_zero: bool) -> (r:
    CumulativeCombine)
    ensures
        r is Accumulate <==> cumulative_existing_counts(existing_present, existing_is_zero),
        r is Overwrite <==> !cumulative_existing_counts(existing_present, existing_is_zero),
{
    if existing_present && !existing_is_zero {
        CumulativeCombine::Accumulate
    } else {
        CumulativeCombine::Overwrite
    }
}

/// The anomaly of the cumulative policy, stated on its own: once the stored
/// sum is exactly zero, the existing record no longer counts, so the next
/// submission overwrites rather than adds — whether or not a record is
/// present.
pub proof fn lemma_zero_existing_resets(present: bool)
    ensures
        !cumulative_existing_counts(present, true),
{
}

} // verus!
