use vstd::prelude::*;

use crate::scp::envelope::SCPEnvelopeID;

verus! {

/// A short form of an envelope id for reading logs: the microseconds of its
/// time stamp, modulo 10^9.
pub fn pretty_print_scp_env_id(env: &SCPEnvelopeID) -> (r: u128)
    ensures
        r == (*env / 1000) % 1_000_000_000,
{
    (*env / 1000) % 1_000_000_000
}

} // verus!
