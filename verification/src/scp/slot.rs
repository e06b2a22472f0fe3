use vstd::prelude::*;

use crate::scp::ballot_protocol::BallotProtocolState;
use crate::scp::nomination_protocol::{nomination_wf, NominationProtocolState};

verus! {

pub type SlotIndex = u64;

/// The longest timeout of a round, in seconds (half an hour).
pub const MAX_TIMEOUT_SECONDS: u64 = 1800;

/// The timeout of round `round_number`, in seconds.
pub open spec fn timeout_spec(round_number: u64) -> u64 {
    if round_number > MAX_TIMEOUT_SECONDS {
        MAX_TIMEOUT_SECONDS
    } else {
        round_number
    }
}

/// The protocol state of one slot.
pub struct Slot {
    pub index: u64,
    pub nomination_state: NominationProtocolState,
    pub ballot_state: BallotProtocolState,
}

impl Slot {
    /// A slot that has not started either protocol.
    pub fn new(index: u64) -> (s: Self)
        ensures
            s.index == index,
            crate::scp::nomination_protocol::nomination_state_is_default(s.nomination_state),
            crate::scp::ballot_protocol::ballot_state_is_default(s.ballot_state),
            nomination_wf(s.nomination_state),
            s.nomination_state.round_number == 0,
            s.nomination_state.votes@ == Set::<u64>::empty(),
            s.nomination_state.accepted@ == Set::<u64>::empty(),
            s.nomination_state.candidates@ == Set::<u64>::empty(),
            !s.nomination_state.nomination_started,
            s.ballot_state.current_ballot is None,
            s.ballot_state.phase == crate::scp::ballot_protocol::SCPPhase::PhasePrepare,
            s.ballot_state.latest_envelopes.wf(),
            s.ballot_state.message_level == 0,
    {
        Slot {
            index,
            nomination_state: NominationProtocolState::default(),
            ballot_state: BallotProtocolState::default(),
        }
    }

    /// The timeout of a round, in seconds: the round number, capped at
    /// `MAX_TIMEOUT_SECONDS`.
    pub fn compute_timeout(round_number: u64) -> (t: u64)
        ensures
            t == timeout_spec(round_number),
    {
        if round_number > MAX_TIMEOUT_SECONDS {
            MAX_TIMEOUT_SECONDS
        } else {
            round_number
        }
    }
}

} // verus!

verus! {

/// A round waits as many seconds as its number, up to `MAX_TIMEOUT_SECONDS`;
/// later rounds wait exactly `MAX_TIMEOUT_SECONDS`.
pub proof fn law_timeout_is_round_capped(r: u64)
    ensures
        r <= MAX_TIMEOUT_SECONDS ==> timeout_spec(r) == r,
        r > MAX_TIMEOUT_SECONDS ==> timeout_spec(r) == MAX_TIMEOUT_SECONDS,
{
}

/// The timeout of a round never exceeds `MAX_TIMEOUT_SECONDS` and never
/// shrinks as rounds go by.
pub proof fn law_timeout_bounded_and_monotone(r1: u64, r2: u64)
    requires
        r1 <= r2,
    ensures
        timeout_spec(r1) <= timeout_spec(r2),
        timeout_spec(r2) <= MAX_TIMEOUT_SECONDS,
{
}

} // verus!
