use vstd::prelude::*;

use std::sync::Arc;

use crate::scp::ballot_protocol::BallotProtocolState;
use crate::scp::local_node::LocalNodeInfo;
use crate::scp::nomination_protocol::{nomination_wf, NominationProtocolState};
use crate::scp::queue::SlotJobQueue;
use crate::scp::scp_driver::SlotDriver;
use crate::scp::slot::SlotIndex;

verus! {

/// Collects the parts of a slot: its driver and the states of its two
/// protocols; `build` checks that the slot and the local node are given and
/// defaults the rest.
pub struct SlotDriverBuilder {
    pub slot_index: Option<SlotIndex>,
    pub local_node: Option<LocalNodeInfo>,
    pub nomination_protocol_state: Option<NominationProtocolState>,
    pub ballot_protocol_state: Option<BallotProtocolState>,
    pub task_queue: Option<SlotJobQueue>,
}

impl Default for SlotDriverBuilder {
    fn default() -> (b: Self)
        ensures
            b.slot_index is None,
            b.local_node is None,
            b.nomination_protocol_state is None,
            b.ballot_protocol_state is None,
            b.task_queue is None,
    {
        SlotDriverBuilder {
            slot_index: None,
            local_node: None,
            nomination_protocol_state: None,
            ballot_protocol_state: None,
            task_queue: None,
        }
    }
}

/// The driver and states that `build` makes from a builder with a slot index
/// and a local node: a fresh slot state, the given job queue or an empty one,
/// and the given protocol states or the default ones.
pub open spec fn built_from(
    bl: SlotDriverBuilder,
    d: SlotDriver,
    n: NominationProtocolState,
    b: BallotProtocolState,
) -> bool {
    &&& d.slot_index == bl.slot_index->0
    &&& d.local_node == bl.local_node->0
    &&& d.slot_state.fully_validated
    &&& !d.slot_state.got_v_blocking
    &&& match bl.task_queue {
        Some(q) => d.task_queue == q,
        None => d.task_queue.jobs@.len() == 0,
    }
    &&& match bl.nomination_protocol_state {
        Some(s) => n == s,
        None => crate::scp::nomination_protocol::nomination_state_is_default(n),
    }
    &&& match bl.ballot_protocol_state {
        Some(s) => b == s,
        None => crate::scp::ballot_protocol::ballot_state_is_default(b),
    }
}

impl SlotDriverBuilder {
    pub fn new() -> (b: Self)
        ensures
            b.slot_index is None,
            b.local_node is None,
            b.nomination_protocol_state is None,
            b.ballot_protocol_state is None,
            b.task_queue is None,
    {
        Self::default()
    }

    pub fn slot_index(self, idx: SlotIndex) -> (b: Self)
        ensures
            b == (SlotDriverBuilder { slot_index: Some(idx), ..self }),
    {
        SlotDriverBuilder { slot_index: Some(idx), ..self }
    }

    pub fn local_node(self, local_node: LocalNodeInfo) -> (b: Self)
        ensures
            b == (SlotDriverBuilder { local_node: Some(local_node), ..self }),
    {
        SlotDriverBuilder { local_node: Some(local_node), ..self }
    }

    pub fn nomination_protocol_state(self, nomination_protocol_state: NominationProtocolState) -> (b:
        Self)
        ensures
            b == (SlotDriverBuilder {
                nomination_protocol_state: Some(nomination_protocol_state),
                ..self
            }),
    {
        SlotDriverBuilder { nomination_protocol_state: Some(nomination_protocol_state), ..self }
    }

    pub fn ballot_protocol_state(self, ballot_protocol_state: BallotProtocolState) -> (b: Self)
        ensures
            b == (SlotDriverBuilder { ballot_protocol_state: Some(ballot_protocol_state), ..self }),
    {
        SlotDriverBuilder { ballot_protocol_state: Some(ballot_protocol_state), ..self }
    }

    pub fn task_queue(self, task_queue: SlotJobQueue) -> (b: Self)
        ensures
            b == (SlotDriverBuilder { task_queue: Some(task_queue), ..self }),
    {
        SlotDriverBuilder { task_queue: Some(task_queue), ..self }
    }

    /// The driver of the slot with the states of its protocols (the default
    /// ones where none were given, and an empty job queue), or the first
    /// required part that is missing.
    pub fn build(self) -> (r: Result<(SlotDriver, NominationProtocolState, BallotProtocolState), &'static str>)
        ensures
            self.slot_index is None ==> r is Err && r->Err_0 == "Missing slot index.",
            self.slot_index is Some && self.local_node is None ==> r is Err && r->Err_0
                == "Missing local node.",
            self.slot_index is Some && self.local_node is Some ==> r is Ok && ({
                let (d, n, b) = r->Ok_0;
                built_from(self, d, n, b)
            }),
    {
        let slot_index = match self.slot_index {
            Some(i) => i,
            None => {
                return Err("Missing slot index.");
            },
        };
        let local_node = match self.local_node {
            Some(n) => n,
            None => {
                return Err("Missing local node.");
            },
        };
        let task_queue = match self.task_queue {
            Some(q) => q,
            None => SlotJobQueue::new(),
        };
        let nomination_state = match self.nomination_protocol_state {
            Some(s) => s,
            None => NominationProtocolState::default(),
        };
        let ballot_state = match self.ballot_protocol_state {
            Some(s) => s,
            None => BallotProtocolState::default(),
        };
        Ok((SlotDriver::new(slot_index, local_node, task_queue), nomination_state, ballot_state))
    }

    /// `build`, with the driver shared.
    pub fn build_handle(self) -> (r: Result<(Arc<SlotDriver>, NominationProtocolState, BallotProtocolState), &'static str>)
        ensures
            self.slot_index is None ==> r is Err && r->Err_0 == "Missing slot index.",
            self.slot_index is Some && self.local_node is None ==> r is Err && r->Err_0
                == "Missing local node.",
            self.slot_index is Some && self.local_node is Some ==> r is Ok && ({
                let (d, n, b) = r->Ok_0;
                built_from(self, *d, n, b)
            }),
    {
        match self.build() {
            Ok((d, n, b)) => Ok((Arc::new(d), n, b)),
            Err(e) => Err(e),
        }
    }
}

} // verus!
