use vstd::prelude::*;

use std::collections::{BTreeMap, VecDeque};

use crate::application::quorum_manager::QuorumManager;
use crate::scp::ballot_protocol::{
    abandon_effect, BallotProtocolState,
};
use crate::scp::envelope::SCPEnvelopeController;
use crate::scp::nomination_protocol::{nomination_wf, NominationProtocolState};
use crate::scp::scp_driver::{HerderDriver, SlotDriver};
use crate::scp::slot::SlotIndex;

verus! {

/// Retry nominating `value` (after `previous_value`) in a slot.
pub struct RetryNominateArg {
    pub slot_idx: SlotIndex,
    pub value: u64,
    pub previous_value: u64,
}

/// Abandon the current ballot of a slot in favour of counter `n` (0: the next one).
pub struct AbandonBallotArg {
    pub slot: SlotIndex,
    pub n: u32,
}

impl AbandonBallotArg {
    pub fn new(slot: SlotIndex, n: u32) -> (a: Self)
        ensures
            a.slot == slot,
            a.n == n,
    {
        AbandonBallotArg { slot, n }
    }
}

pub enum SlotTask {
    RetryNominate(RetryNominateArg),
    AbandonBallot(AbandonBallotArg),
}

/// A task for slot `id`, due at `timestamp` (nanoseconds since the UNIX epoch).
pub struct SlotJob {
    pub id: SlotIndex,
    pub timestamp: u128,
    pub task: SlotTask,
}

/// The tasks waiting to be run, first come first served.
pub struct SlotJobQueue {
    pub jobs: VecDeque<SlotJob>,
}

impl SlotJobQueue {
    pub fn new() -> (q: Self)
        ensures
            q.jobs@ == Seq::<SlotJob>::empty(),
    {
        SlotJobQueue { jobs: VecDeque::new() }
    }

    pub fn submit(&mut self, job: SlotJob)
        ensures
            final(self).jobs@ == old(self).jobs@.push(job),
    {
        self.jobs.push_back(job);
    }
}

} // verus!

verus! {

broadcast use vstd::std_specs::btree::group_btree_axioms;

impl RetryNominateArg {
    /// Nominates the value again in its slot.
    pub fn execute<H: HerderDriver>(
        self,
        slot_driver: &mut SlotDriver,
        nomination_state: &mut NominationProtocolState,
        ballot_state: &mut BallotProtocolState,
        envelope_controller: &mut SCPEnvelopeController,
        quorum_manager: &QuorumManager,
        herder_driver: &mut H,
    )
        requires
            nomination_wf(*old(nomination_state)),
            old(ballot_state).latest_envelopes.wf(),
            old(nomination_state).num_timeouts < u64::MAX,
            old(nomination_state).round_number < u64::MAX,
        ensures
            nomination_wf(*final(nomination_state)),
            final(ballot_state).latest_envelopes.wf(),
            crate::scp::ballot_protocol::driver_grows(*old(slot_driver), *final(slot_driver)),
            exists|r: Option<crate::scp::envelope::SCPEnvelopeID>|
                #[trigger] crate::scp::nomination_protocol::nominate_effect(
                    *old(slot_driver),
                    *final(slot_driver),
                    *old(nomination_state),
                    *final(nomination_state),
                    *old(ballot_state),
                    *final(ballot_state),
                    *old(envelope_controller),
                    *final(envelope_controller),
                    self.value,
                    self.previous_value,
                    r,
                ),
    {
        let r = slot_driver.nominate(
            nomination_state,
            ballot_state,
            self.value,
            &self.previous_value,
            envelope_controller,
            quorum_manager,
            herder_driver,
        );
    }
}

impl AbandonBallotArg {
    /// Abandons the current ballot of its slot for counter `n`.
    pub fn execute<H: HerderDriver>(
        self,
        slot_driver: &mut SlotDriver,
        nomination_state: &mut NominationProtocolState,
        ballot_state: &mut BallotProtocolState,
        envelope_controller: &mut SCPEnvelopeController,
        quorum_manager: &QuorumManager,
        herder_driver: &mut H,
    )
        requires
            nomination_wf(*old(nomination_state)),
            old(ballot_state).latest_envelopes.wf(),
        ensures
            nomination_wf(*final(nomination_state)),
            final(ballot_state).latest_envelopes.wf(),
            exists|r: bool|
                #[trigger] abandon_effect(
                    *old(slot_driver),
                    *final(slot_driver),
                    *old(ballot_state),
                    *final(ballot_state),
                    old(envelope_controller).envelopes.0@,
                    final(envelope_controller).envelopes.0@,
                    *old(nomination_state),
                    *final(nomination_state),
                    old(envelope_controller).envs_to_emit@,
                    final(envelope_controller).envs_to_emit@,
                    self.n,
                    r,
                ),
    {
        let r = slot_driver.abandon_ballot(
            ballot_state,
            nomination_state,
            self.n,
            &mut envelope_controller.envelopes,
            &mut envelope_controller.envs_to_emit,
            quorum_manager,
            herder_driver,
        );
        assert(abandon_effect(
            *old(slot_driver),
            *slot_driver,
            *old(ballot_state),
            *ballot_state,
            old(envelope_controller).envelopes.0@,
            envelope_controller.envelopes.0@,
            *old(nomination_state),
            *nomination_state,
            old(envelope_controller).envs_to_emit@,
            envelope_controller.envs_to_emit@,
            self.n,
            r,
        ));
    }
}

/// The states of the slots are well formed, and nominating again in any of
/// them does not overflow its counters.
pub open spec fn slot_states_ok(
    nomination_states: Map<SlotIndex, NominationProtocolState>,
    ballot_states: Map<SlotIndex, BallotProtocolState>,
) -> bool {
    &&& forall|k: SlotIndex| #[trigger]
        nomination_states.contains_key(k) ==> nomination_wf(nomination_states[k])
            && nomination_states[k].num_timeouts < u64::MAX && nomination_states[k].round_number
            < u64::MAX
    &&& forall|k: SlotIndex| #[trigger]
        ballot_states.contains_key(k) ==> ballot_states[k].latest_envelopes.wf()
}

impl SlotJobQueue {
    /// Runs the first job, if any, on the driver and states of its slot; a job
    /// for a slot without a driver is dropped.
    pub fn process_one<H: HerderDriver>(
        &mut self,
        slots: &mut BTreeMap<SlotIndex, SlotDriver>,
        nomination_states: &mut BTreeMap<SlotIndex, NominationProtocolState>,
        ballot_states: &mut BTreeMap<SlotIndex, BallotProtocolState>,
        envelope_controller: &mut SCPEnvelopeController,
        quorum_manager: &QuorumManager,
        herder_driver: &mut H,
    )
        requires
            slot_states_ok(old(nomination_states)@, old(ballot_states)@),
            old(self).jobs@.len() > 0 && old(slots)@.contains_key(old(self).jobs@[0].id)
                ==> old(nomination_states)@.contains_key(old(self).jobs@[0].id)
                && old(ballot_states)@.contains_key(old(self).jobs@[0].id),
        ensures
            old(self).jobs@.len() == 0 ==> final(self).jobs@ == old(self).jobs@ && *final(slots)
                == *old(slots) && *final(nomination_states) == *old(nomination_states)
                && *final(ballot_states) == *old(ballot_states) && *final(envelope_controller)
                == *old(envelope_controller),
            old(self).jobs@.len() > 0 ==> final(self).jobs@ == old(self).jobs@.drop_first(),
            old(self).jobs@.len() > 0 && !old(slots)@.contains_key(old(self).jobs@[0].id)
                ==> final(slots)@ == old(slots)@ && final(nomination_states)@ == old(
                nomination_states,
            )@ && final(ballot_states)@ == old(ballot_states)@ && *final(envelope_controller)
                == *old(envelope_controller),
            final(slots)@.dom() == old(slots)@.dom(),
            final(nomination_states)@.dom() == old(nomination_states)@.dom(),
            final(ballot_states)@.dom() == old(ballot_states)@.dom(),
            forall|k: SlotIndex| #[trigger]
                final(ballot_states)@.contains_key(k) ==> final(ballot_states)@[k].latest_envelopes.wf(),
            forall|k: SlotIndex| #[trigger]
                final(nomination_states)@.contains_key(k) ==> nomination_wf(
                    final(nomination_states)@[k],
                ),
            old(self).jobs@.len() > 0 ==> forall|k: SlotIndex|
                k != old(self).jobs@[0].id ==> {
                    &&& #[trigger] final(slots)@.get(k) == old(slots)@.get(k)
                    &&& final(nomination_states)@.get(k) == old(nomination_states)@.get(k)
                    &&& final(ballot_states)@.get(k) == old(ballot_states)@.get(k)
                },
            old(self).jobs@.len() > 0 && old(slots)@.contains_key(old(self).jobs@[0].id) ==> ({
                let id = old(self).jobs@[0].id;
                let ns0 = old(nomination_states)@[id];
                let ns1 = final(nomination_states)@[id];
                let bs0 = old(ballot_states)@[id];
                let bs1 = final(ballot_states)@[id];
                match old(self).jobs@[0].task {
                    SlotTask::RetryNominate(a) => exists|r: Option<crate::scp::envelope::SCPEnvelopeID>|
                        #[trigger] crate::scp::nomination_protocol::nominate_effect(
                            old(slots)@[id],
                            final(slots)@[id],
                            ns0,
                            ns1,
                            bs0,
                            bs1,
                            *old(envelope_controller),
                            *final(envelope_controller),
                            a.value,
                            a.previous_value,
                            r,
                        ),
                    SlotTask::AbandonBallot(a) => exists|r: bool|
                        #[trigger] abandon_effect(
                            old(slots)@[id],
                            final(slots)@[id],
                            bs0,
                            bs1,
                            old(envelope_controller).envelopes.0@,
                            final(envelope_controller).envelopes.0@,
                            ns0,
                            ns1,
                            old(envelope_controller).envs_to_emit@,
                            final(envelope_controller).envs_to_emit@,
                            a.n,
                            r,
                        ),
                }
            }),
    {
        let job = match self.jobs.pop_front() {
            Some(j) => j,
            None => {
                return;
            },
        };
        let id = job.id;
        let mut slot_driver = match slots.remove(&id) {
            Some(d) => d,
            None => {
                return;
            },
        };
        let mut nomination_state = match nomination_states.remove(&id) {
            Some(s) => s,
            None => {
                slots.insert(id, slot_driver);
                return;
            },
        };
        let mut ballot_state = match ballot_states.remove(&id) {
            Some(s) => s,
            None => {
                slots.insert(id, slot_driver);
                nomination_states.insert(id, nomination_state);
                return;
            },
        };
        let ghost d0 = slot_driver;
        let ghost n0 = nomination_state;
        let ghost b0 = ballot_state;
        assert(old(slots)@[id] == d0 && old(nomination_states)@[id] == n0 && old(ballot_states)@[id] == b0);
        match job.task {
            SlotTask::RetryNominate(arg) => arg.execute(
                &mut slot_driver,
                &mut nomination_state,
                &mut ballot_state,
                envelope_controller,
                quorum_manager,
                herder_driver,
            ),
            SlotTask::AbandonBallot(arg) => arg.execute(
                &mut slot_driver,
                &mut nomination_state,
                &mut ballot_state,
                envelope_controller,
                quorum_manager,
                herder_driver,
            ),
        }
        let ghost d1 = slot_driver;
        let ghost n1 = nomination_state;
        let ghost b1 = ballot_state;
        slots.insert(id, slot_driver);
        nomination_states.insert(id, nomination_state);
        ballot_states.insert(id, ballot_state);
        assert(slots@[id] == d1 && nomination_states@[id] == n1 && ballot_states@[id] == b1);
        assert(slots@.dom() =~= old(slots)@.dom());
        assert(nomination_states@.dom() =~= old(nomination_states)@.dom());
        assert(ballot_states@.dom() =~= old(ballot_states)@.dom());
    }
}

} // verus!
