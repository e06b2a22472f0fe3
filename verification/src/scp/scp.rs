use vstd::prelude::*;

use crate::scp::envelope::SCPEnvelope;
use crate::scp::slot::SlotIndex;

verus! {

/// The id of a node of the network.
pub type NodeID = String;

/// Whether an envelope was taken into account.
#[derive(PartialEq, Eq, Structural, Debug, Clone, Copy)]
pub enum EnvelopeState {
    Valid,
    Invalid,
}

/// What a node running the protocol over many slots offers.
pub trait SCP {
    fn recv_envelope(&mut self, envelope: SCPEnvelope) -> EnvelopeState;

    fn set_state_from_envelope(&mut self, slot_index: SlotIndex, envelope: SCPEnvelope);

    fn nominate(&mut self, slot_index: SlotIndex, value: u64, prev_value: &u64) -> bool;

    fn stop_nomination(&mut self) -> bool;

    fn purge_slots(&mut self, max_slot_index: u64, slot_to_keep: u64);

    fn is_slot_fully_validated(&self, slot_index: u64) -> bool;

    fn is_validator(&self) -> bool;

    /// Whether messages were received from a v-blocking set in the slot.
    fn got_v_blocking(&self, slot_index: u64) -> bool;
}

} // verus!
