//! The fee rates that the node answers with when it is asked how urgent a
//! transaction is.

use vstd::prelude::*;

verus! {

/// The lowest fee rate that is ever answered, in satoshis per 1000 weight
/// units.
pub const MIN_FEERATE: u32 = 253;

/// What a transaction is for, as far as its fee is concerned.
#[derive(Clone, Copy, Debug, PartialEq, Eq, Structural)]
pub enum FeeTarget {
    OnChainSweep,
    MinAllowedAnchorChannelRemoteFee,
    MinAllowedNonAnchorChannelRemoteFee,
    AnchorChannelFee,
    NonAnchorChannelFee,
    ChannelCloseMinimum,
}

/// The fee rate for a target, in satoshis per 1000 weight units.
pub open spec fn spec_sat_per_1000_weight(target: FeeTarget) -> u32 {
    match target {
        FeeTarget::OnChainSweep => 5000,
        FeeTarget::NonAnchorChannelFee => 2000,
        _ => MIN_FEERATE,
    }
}

/// The fee rate for a target, in satoshis per 1000 weight units. It is never
/// below [`MIN_FEERATE`].
#[verifier::when_used_as_spec(spec_sat_per_1000_weight)]
pub fn get_est_sat_per_1000_weight(target: FeeTarget) -> (rate: u32)
    ensures
        rate == spec_sat_per_1000_weight(target),
        rate >= MIN_FEERATE,
{
    match target {
        FeeTarget::OnChainSweep => 5000,
        FeeTarget::NonAnchorChannelFee => 2000,
        _ => MIN_FEERATE,
    }
}

} // verus!
