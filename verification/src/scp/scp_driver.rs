use vstd::prelude::*;

use crate::application::quorum::{
    ids_of, is_v_blocking, is_v_blocking_spec, nodes_form_quorum, nodes_form_quorum_spec, opt_qset_view,
    QuorumSet, QuorumSetView,
};
use crate::application::quorum_manager::QuorumManager;
use crate::crypto::test_default_blake2;
use crate::scp::ballot_protocol::SCPBallot;
use crate::scp::envelope::{EnvMap, SCPEnvelope, SCPEnvelopeController, SCPEnvelopeID};
use crate::scp::local_node::{
    extract_nodes_from_statement_with_filter, selected_nodes, LocalNodeInfo,
};
use crate::scp::queue::SlotJobQueue;
use crate::scp::scp::NodeID;
use crate::scp::slot::SlotIndex;
use crate::scp::statement::SCPStatement;
use crate::scp::statement_filter::StatementFilter;
use crate::utils::node_map::NodeMap;
use crate::utils::value_set::ValueSet;

verus! {

broadcast use vstd::std_specs::btree::group_btree_axioms;

pub type HashValue = [u8; 64];

/// How far a value has been validated by the application.
#[derive(PartialEq, Eq, Structural, Debug, Clone, Copy)]
pub enum ValidationLevel {
    Invalid,
    MaybeValid,
    VoteToNominate,
    FullyValidated,
}

/// The services that the application (the herder) offers to the protocol.
pub trait HerderDriver {
    fn new() -> Self where Self: Sized;

    /// The herder's judgement of `value`, for nomination or for the ballot
    /// protocol.
    open spec fn validate_value_spec(&self, value: u64, nomination: bool) -> ValidationLevel {
        vstd::pervasive::arbitrary()
    }

    /// The valid value the herder offers in place of `value`, if any.
    open spec fn extract_valid_value_spec(&self, value: u64) -> Option<u64> {
        vstd::pervasive::arbitrary()
    }

    /// How far `value` is valid, for nomination or for the ballot protocol.
    fn validate_value(&self, value: &u64, nomination: bool) -> (r: ValidationLevel)
        ensures
            r == self.validate_value_spec(*value, nomination),
    ;

    /// A valid value to vote for in place of `value`, if there is one.
    fn extract_valid_value(&self, value: &u64) -> (r: Option<u64>)
        ensures
            r == self.extract_valid_value_spec(*value),
    ;

    /// Called each time the local node votes to nominate `value`.
    fn nominating_value(&self, value: &u64, slot_index: &u64);

    /// The value to run the ballot protocol on, given the candidates.
    fn combine_candidates(&self, candidates: &ValueSet) -> Option<u64>;

    /// The timeout of a round, in seconds.
    fn compute_timeout(&self, round_number: u64) -> u64;

    /// Called with each envelope the local node sends.
    fn emit_envelope(&self, envelope: &SCPEnvelope);
}

/// The two timers of a slot.
#[derive(PartialEq, Eq, Structural, Debug, Clone, Copy, Hash)]
pub enum SlotStateTimer {
    BallotProtocol,
    NominationProtocol,
}

/// A scheduled event: its due time in nanoseconds since the UNIX epoch, or
/// nothing once it has been cancelled.
pub type ClockEvent = Option<u128>;

/// Per-slot flags and timers.
pub struct SlotState {
    pub fully_validated: bool,
    pub got_v_blocking: bool,
    pub ballot_timer: Vec<(SlotStateTimer, ClockEvent)>,
}

impl SlotState {
    pub fn default() -> (s: Self)
        ensures
            s.fully_validated,
            !s.got_v_blocking,
            s.ballot_timer@ == Seq::<(SlotStateTimer, ClockEvent)>::empty(),
    {
        SlotState { fully_validated: true, got_v_blocking: false, ballot_timer: Vec::new() }
    }

    /// Cancels the events registered for `timer_type`.
    pub fn stop_timer(&mut self, timer_type: &SlotStateTimer)
        ensures
            final(self).fully_validated == old(self).fully_validated,
            final(self).got_v_blocking == old(self).got_v_blocking,
            final(self).ballot_timer@.len() == old(self).ballot_timer@.len(),
            forall|i: int|
                0 <= i < old(self).ballot_timer@.len() ==> #[trigger] final(self).ballot_timer@[i]
                    == if old(self).ballot_timer@[i].0 == *timer_type {
                    (old(self).ballot_timer@[i].0, None)
                } else {
                    old(self).ballot_timer@[i]
                },
    {
        let mut i: usize = 0;
        while i < self.ballot_timer.len()
            invariant
                i <= self.ballot_timer@.len(),
                self.fully_validated == old(self).fully_validated,
                self.got_v_blocking == old(self).got_v_blocking,
                self.ballot_timer@.len() == old(self).ballot_timer@.len(),
                forall|k: int|
                    0 <= k < self.ballot_timer@.len() ==> #[trigger] self.ballot_timer@[k] == if k
                        < i && old(self).ballot_timer@[k].0 == *timer_type {
                        (old(self).ballot_timer@[k].0, None)
                    } else {
                        old(self).ballot_timer@[k]
                    },
            decreases self.ballot_timer@.len() - i,
        {
            if self.ballot_timer[i].0 == *timer_type {
                let t = self.ballot_timer[i].0;
                self.ballot_timer.set(i, (t, None));
            }
            i = i + 1;
        }
    }

    /// Cancels the events of `timer_type` and registers `event` for it.
    pub fn restart_timer(&mut self, timer_type: SlotStateTimer, event: ClockEvent)
        requires
            event is Some,
        ensures
            final(self).fully_validated == old(self).fully_validated,
            final(self).got_v_blocking == old(self).got_v_blocking,
            exists|i: int|
                0 <= i < final(self).ballot_timer@.len() && #[trigger] final(self).ballot_timer@[i]
                    == (timer_type, event),
    {
        self.stop_timer(&timer_type);
        let mut i: usize = 0;
        while i < self.ballot_timer.len()
            invariant
                i <= self.ballot_timer@.len(),
                self.fully_validated == old(self).fully_validated,
                self.got_v_blocking == old(self).got_v_blocking,
            decreases self.ballot_timer@.len() - i,
        {
            if self.ballot_timer[i].0 == timer_type {
                self.ballot_timer.set(i, (timer_type, event));
                assert(self.ballot_timer@[i as int] == (timer_type, event));
                return;
            }
            i = i + 1;
        }
        self.ballot_timer.push((timer_type, event));
        assert(self.ballot_timer@[self.ballot_timer@.len() - 1] == (timer_type, event));
    }
}

/// Runs the protocol for one slot on behalf of the local node.
pub struct SlotDriver {
    pub slot_index: SlotIndex,
    pub local_node: LocalNodeInfo,
    pub slot_state: SlotState,
    pub task_queue: SlotJobQueue,
}

/// The quorum set used for the `j`-th node of `latest`: the local node's own,
/// else that of the node's latest statement.
pub open spec fn node_qset_spec(
    local: LocalNodeInfo,
    latest: NodeMap,
    env: Map<SCPEnvelopeID, SCPEnvelope>,
    qm: QuorumManager,
    j: int,
) -> Option<QuorumSetView> {
    if latest.keys()[j] == local.node_id@ {
        Some(local.quorum_set@)
    } else {
        qm.quorum_set_of(env[latest.vals()[j]].statement@)
    }
}

/// The quorum sets of the nodes among the first `n` of `latest` whose latest
/// statement satisfies `f`, in key order.
pub open spec fn selected_qsets(
    local: LocalNodeInfo,
    latest: NodeMap,
    env: Map<SCPEnvelopeID, SCPEnvelope>,
    qm: QuorumManager,
    f: StatementFilter,
    n: int,
) -> Seq<Option<QuorumSetView>>
    decreases n,
{
    if n <= 0 {
        Seq::empty()
    } else if crate::scp::local_node::holds_at(latest, env, f, n - 1) {
        selected_qsets(local, latest, env, qm, f, n - 1).push(node_qset_spec(local, latest, env, qm, n - 1))
    } else {
        selected_qsets(local, latest, env, qm, f, n - 1)
    }
}

/// There is one quorum set for each selected node.
pub proof fn lemma_selected_qsets_len(
    local: LocalNodeInfo,
    latest: NodeMap,
    env: Map<SCPEnvelopeID, SCPEnvelope>,
    qm: QuorumManager,
    f: StatementFilter,
    n: int,
)
    ensures
        selected_qsets(local, latest, env, qm, f, n).len() == selected_nodes(latest, env, f, n).len(),
    decreases n,
{
    if n > 0 {
        lemma_selected_qsets_len(local, latest, env, qm, f, n - 1);
    }
}

/// Federated ratification: the nodes of `latest` whose latest statement
/// satisfies `voted` form a quorum.
pub open spec fn federated_ratify_spec(
    local: LocalNodeInfo,
    latest: NodeMap,
    env: Map<SCPEnvelopeID, SCPEnvelope>,
    qm: QuorumManager,
    voted: StatementFilter,
) -> bool {
    let n = latest.keys().len() as int;
    nodes_form_quorum_spec(
        selected_qsets(local, latest, env, qm, voted, n),
        selected_nodes(latest, env, voted, n),
    )
}

/// Federated acceptance: the nodes whose latest statement votes for or
/// accepts the statement are v-blocking, or ratify it.
pub open spec fn federated_accept_spec(
    local: LocalNodeInfo,
    latest: NodeMap,
    env: Map<SCPEnvelopeID, SCPEnvelope>,
    qm: QuorumManager,
    voted: StatementFilter,
    accepted: StatementFilter,
) -> bool {
    let f = StatementFilter::Or(Box::new(accepted), Box::new(voted));
    is_v_blocking_spec(local.quorum_set@, selected_nodes(latest, env, f, latest.keys().len() as int))
        || federated_ratify_spec(local, latest, env, qm, f)
}

impl SlotDriver {
    pub fn new(slot_index: SlotIndex, local_node: LocalNodeInfo, task_queue: SlotJobQueue) -> (d:
        Self)
        ensures
            d.slot_index == slot_index,
            d.local_node == local_node,
            d.task_queue == task_queue,
            d.slot_state.fully_validated,
            !d.slot_state.got_v_blocking,
            d.slot_state.ballot_timer@.len() == 0,
    {
        SlotDriver { slot_index, local_node, slot_state: SlotState::default(), task_queue }
    }

    pub fn node_idx(&self) -> (id: NodeID)
        ensures
            id@ == self.local_node.node_id@,
    {
        self.local_node.node_id.clone()
    }

    /// Accepting a nomination value outright is not done: always false.
    pub fn try_accept_value(
        &self,
        value: &u64,
        nomination_state: &mut crate::scp::nomination_protocol::NominationProtocolState,
        envelope_controller: &SCPEnvelopeController,
    ) -> (r: bool)
        ensures
            !r,
            *final(nomination_state) == *old(nomination_state),
    {
        false
    }

    /// The quorum sets of the nodes of `envelopes` whose latest statement
    /// satisfies `filter`, in key order, as federated voting looks them up.
    fn quorum_sets_of(
        &self,
        envelopes: &NodeMap,
        filter: &StatementFilter,
        env_map: &EnvMap,
        quorum_manager: &QuorumManager,
    ) -> (r: Vec<Option<QuorumSet>>)
        requires
            envelopes.wf(),
        ensures
            r@.map_values(|q: Option<QuorumSet>| opt_qset_view(q)) == selected_qsets(
                self.local_node,
                *envelopes,
                env_map.0@,
                *quorum_manager,
                *filter,
                envelopes.keys().len() as int,
            ),
    {
        let mut r: Vec<Option<QuorumSet>> = Vec::new();
        let mut j: usize = 0;
        proof {
            envelopes.lemma_len();
        }
        while j < envelopes.len()
            invariant
                j <= envelopes.keys().len(),
                envelopes.keys().len() == envelopes.vals().len(),
                r@.map_values(|q: Option<QuorumSet>| opt_qset_view(q)) == selected_qsets(
                    self.local_node,
                    *envelopes,
                    env_map.0@,
                    *quorum_manager,
                    *filter,
                    j as int,
                ),
            decreases envelopes.keys().len() - j,
        {
            let id = envelopes.val_at(j);
            let ghost r0 = r@;
            match env_map.get(&id) {
                Some(env) => {
                    if filter.holds(&env.statement) {
                        let q = if *envelopes.key_at(j) == self.local_node.node_id {
                            Some(self.local_node.quorum_set.clone())
                        } else {
                            match quorum_manager.get_quorum_set(&env.statement) {
                                Some(q) => Some(q.clone()),
                                None => None,
                            }
                        };
                        r.push(q);
                        assert(r@.map_values(|q: Option<QuorumSet>| opt_qset_view(q)) =~= r0.map_values(
                            |q: Option<QuorumSet>| opt_qset_view(q),
                        ).push(opt_qset_view(q)));
                    }
                },
                None => {},
            }
            j = j + 1;
        }
        r
    }

    /// Whether the nodes whose latest statement satisfies `voted` form a
    /// quorum.
    pub fn federated_ratify(
        &self,
        voted: &StatementFilter,
        envelopes: &NodeMap,
        env_map: &EnvMap,
        quorum_manager: &QuorumManager,
    ) -> (r: bool)
        requires
            envelopes.wf(),
        ensures
            r == federated_ratify_spec(
                self.local_node,
                *envelopes,
                env_map.0@,
                *quorum_manager,
                *voted,
            ),
    {
        let nodes = extract_nodes_from_statement_with_filter(envelopes, env_map, voted);
        let qsets = self.quorum_sets_of(envelopes, voted, env_map, quorum_manager);
        proof {
            lemma_selected_qsets_len(
                self.local_node,
                *envelopes,
                env_map.0@,
                *quorum_manager,
                *voted,
                envelopes.keys().len() as int,
            );
            assert(ids_of(nodes@).len() == nodes@.len());
            assert(qsets@.map_values(|q: Option<QuorumSet>| opt_qset_view(q)).len() == qsets@.len());
        }
        nodes_form_quorum(&qsets, &nodes)
    }

    /// Whether the nodes whose latest statement votes for or accepts the
    /// statement are v-blocking, or form a quorum.
    pub fn federated_accept(
        &self,
        voted: StatementFilter,
        accepted: StatementFilter,
        envelopes: &NodeMap,
        env_map: &EnvMap,
        quorum_manager: &QuorumManager,
    ) -> (r: bool)
        requires
            envelopes.wf(),
        ensures
            r == federated_accept_spec(
                self.local_node,
                *envelopes,
                env_map.0@,
                *quorum_manager,
                voted,
                accepted,
            ),
    {
        let ratify_filter = StatementFilter::Or(Box::new(accepted), Box::new(voted));
        if LocalNodeInfo::is_v_blocking_with_predicate(
            &self.local_node.quorum_set,
            envelopes,
            &ratify_filter,
            env_map,
        ) {
            true
        } else {
            self.federated_ratify(&ratify_filter, envelopes, env_map, quorum_manager)
        }
    }
}

} // verus!

verus! {

/// Whether anything has been heard from node `id` in the slot.
pub open spec fn heard_from(
    ballot: crate::scp::ballot_protocol::BallotProtocolState,
    nomination: crate::scp::nomination_protocol::NominationProtocolState,
    id: Seq<char>,
) -> bool {
    ballot.latest_envelopes.contains_key(id) || nomination.latest_nominations.contains_key(id)
}

/// The ids, in order, of the first `k` of `nodes` heard from.
pub open spec fn heard_nodes(
    nodes: Seq<crate::application::quorum::QuorumNodeView>,
    ballot: crate::scp::ballot_protocol::BallotProtocolState,
    nomination: crate::scp::nomination_protocol::NominationProtocolState,
    k: int,
) -> Seq<Seq<char>>
    decreases k,
{
    if k <= 0 {
        Seq::empty()
    } else {
        let prev = heard_nodes(nodes, ballot, nomination, k - 1);
        if heard_from(ballot, nomination, nodes[k - 1].node_id) {
            prev.push(nodes[k - 1].node_id)
        } else {
            prev
        }
    }
}

impl SlotDriver {
    /// Stores an envelope of the local node for this slot with `statement`
    /// and queues it for sending; returns its id.
    pub fn create_envelope(&self, statement: SCPStatement, envelope_controller: &mut SCPEnvelopeController) -> (id:
        SCPEnvelopeID)
        ensures
            final(envelope_controller).envelopes.0@ == old(envelope_controller).envelopes.0@.insert(
                id,
                final(envelope_controller).envelopes.0@[id],
            ),
            final(envelope_controller).envelopes.0@[id]@ == (crate::scp::envelope::EnvelopeView {
                statement: statement@,
                node_id: self.local_node.node_id@,
                slot_index: self.slot_index,
                signature: crate::scp::envelope::zero_signature(),
            }),
            final(envelope_controller).envs_to_emit@ == old(envelope_controller).envs_to_emit@.push(id),
    {
        let env = SCPEnvelope::new(
            statement,
            self.local_node.node_id.clone(),
            self.slot_index,
            test_default_blake2(),
        );
        let env_id = envelope_controller.add_envelope(env);
        envelope_controller.add_env_to_emit(&env_id);
        env_id
    }

    /// The latest envelope heard from `node_id`: its ballot envelope, else its
    /// nomination.
    pub fn get_latest_message(
        node_id: &NodeID,
        ballot_state: &crate::scp::ballot_protocol::BallotProtocolState,
        nomination_state: &crate::scp::nomination_protocol::NominationProtocolState,
    ) -> (r: Option<SCPEnvelopeID>)
        requires
            ballot_state.latest_envelopes.wf(),
            nomination_state.latest_nominations.wf(),
        ensures
            r == match ballot_state.latest_envelopes.get_spec(node_id@) {
                Some(id) => Some(id),
                None => nomination_state.latest_nominations.get_spec(node_id@),
            },
    {
        match ballot_state.latest_envelopes.get(node_id) {
            Some(id) => Some(id),
            None => nomination_state.latest_nominations.get(node_id),
        }
    }

    /// Records, once it happens, that the nodes heard from are v-blocking.
    pub fn maybe_got_v_blocking(
        &mut self,
        nomination_state: &crate::scp::nomination_protocol::NominationProtocolState,
        ballot_state: &crate::scp::ballot_protocol::BallotProtocolState,
    )
        requires
            ballot_state.latest_envelopes.wf(),
            nomination_state.latest_nominations.wf(),
        ensures
            final(self).slot_state.got_v_blocking == (old(self).slot_state.got_v_blocking || is_v_blocking_spec(
                old(self).local_node.quorum_set@,
                heard_nodes(
                    crate::scp::local_node::qset_nodes_spec(old(self).local_node.quorum_set@),
                    *ballot_state,
                    *nomination_state,
                    crate::scp::local_node::qset_nodes_spec(old(self).local_node.quorum_set@).len() as int,
                ),
            )),
            final(self).slot_index == old(self).slot_index,
            final(self).local_node == old(self).local_node,
            final(self).task_queue == old(self).task_queue,
            final(self).slot_state.fully_validated == old(self).slot_state.fully_validated,
            final(self).slot_state.ballot_timer == old(self).slot_state.ballot_timer,
    {
        if self.slot_state.got_v_blocking {
            return;
        }
        let all = self.local_node.quorum_set.nodes();
        let ghost nv = all@.map_values(|n: crate::application::quorum::QuorumNode| n@);
        let mut nodes: Vec<NodeID> = Vec::new();
        let mut i: usize = 0;
        while i < all.len()
            invariant
                i <= all@.len(),
                nv == all@.map_values(|n: crate::application::quorum::QuorumNode| n@),
                ballot_state.latest_envelopes.wf(),
                nomination_state.latest_nominations.wf(),
                ids_of(nodes@) == heard_nodes(nv, *ballot_state, *nomination_state, i as int),
            decreases all@.len() - i,
        {
            let id = &all[i].node_id;
            assert(nv[i as int].node_id == id@);
            if Self::get_latest_message(id, ballot_state, nomination_state).is_some() {
                nodes.push(id.clone());
                assert(ids_of(nodes@) =~= heard_nodes(nv, *ballot_state, *nomination_state, i + 1));
            } else {
                assert(ids_of(nodes@) =~= heard_nodes(nv, *ballot_state, *nomination_state, i + 1));
            }
            i = i + 1;
        }
        if is_v_blocking(&self.local_node.quorum_set, &nodes) {
            self.slot_state.got_v_blocking = true;
        }
    }
}

} // verus!

verus! {

impl SlotDriver {
    /// Takes an envelope received from the network into account: ballot
    /// envelopes go to the ballot protocol (checked as sent by another node),
    /// NOMINATE envelopes to the nomination protocol.
    pub fn recv_scp_envelvope<H: HerderDriver>(
        &mut self,
        nomination_state: &mut crate::scp::nomination_protocol::NominationProtocolState,
        ballot_state: &mut crate::scp::ballot_protocol::BallotProtocolState,
        env_id: &SCPEnvelopeID,
        envelope_controller: &mut SCPEnvelopeController,
        quorum_manager: &QuorumManager,
        herder_driver: &mut H,
    ) -> (r: crate::scp::scp::EnvelopeState)
        requires
            crate::scp::nomination_protocol::nomination_wf(*old(nomination_state)),
            old(ballot_state).latest_envelopes.wf(),
            old(envelope_controller).envelopes.0@.contains_key(*env_id),
            crate::scp::statement::is_ballot_statement(
                old(envelope_controller).envelopes.0@[*env_id].statement@,
            ) ==> old(envelope_controller).envelopes.0@[*env_id].slot_index == old(self).slot_index,
        ensures
            crate::scp::nomination_protocol::nomination_grows(
                *old(nomination_state),
                *final(nomination_state),
            ),
            crate::scp::ballot_protocol::ballot_frame(
                *old(ballot_state),
                *final(ballot_state),
                old(envelope_controller).envelopes.0@,
                final(envelope_controller).envelopes.0@,
            ),
            crate::scp::ballot_protocol::driver_frame(*old(self), *final(self)),
            ({
                let env = old(envelope_controller).envelopes.0@[*env_id];
                &&& crate::scp::statement::is_ballot_statement(env.statement@) ==> (!(
                quorum_manager.quorum_set_of(env.statement@) is Some
                    && crate::scp::statement::statement_sane_spec(env.statement@, false))
                    ==> r == crate::scp::scp::EnvelopeState::Invalid)
                &&& !crate::scp::statement::is_ballot_statement(env.statement@) ==> ((r
                    == crate::scp::scp::EnvelopeState::Invalid)
                    == crate::scp::nomination_protocol::processed_newer_spec(
                    *old(nomination_state),
                    old(envelope_controller).envelopes.0@,
                    env.node_id@,
                    crate::scp::nomination_protocol::stored_nomination(
                        old(envelope_controller).envelopes.0@,
                        *env_id,
                    )->0,
                ))
                &&& !crate::scp::statement::is_ballot_statement(env.statement@) && r
                    == crate::scp::scp::EnvelopeState::Valid
                    ==> final(nomination_state).latest_nominations.contains_key(env.node_id@)
                &&& (crate::scp::statement::is_ballot_statement(env.statement@)
                    && quorum_manager.quorum_set_of(env.statement@) is Some
                    && crate::scp::statement::statement_sane_spec(env.statement@, false) && !(
                old(ballot_state).latest_envelopes.get_spec(env.node_id@) matches Some(id)
                    && old(envelope_controller).envelopes.0@.contains_key(id)
                    && crate::scp::statement::statement_newer_spec(
                    old(envelope_controller).envelopes.0@[id].statement@,
                    env.statement@,
                ))) ==> final(ballot_state).latest_envelopes.contains_key(env.node_id@)
            }),
            crate::scp::statement::is_ballot_statement(
                old(envelope_controller).envelopes.0@[*env_id].statement@,
            ) ==> crate::scp::ballot_protocol::ballot_envelope_effect(
                *old(self),
                *final(self),
                *old(ballot_state),
                *final(ballot_state),
                *old(nomination_state),
                *final(nomination_state),
                old(envelope_controller).envelopes,
                final(envelope_controller).envelopes,
                old(envelope_controller).envs_to_emit@,
                final(envelope_controller).envs_to_emit@,
                *quorum_manager,
                *env_id,
                false,
                r,
            ),
            !crate::scp::statement::is_ballot_statement(
                old(envelope_controller).envelopes.0@[*env_id].statement@,
            ) ==> crate::scp::nomination_protocol::nomination_envelope_effect(
                *old(self),
                *final(self),
                *old(nomination_state),
                *final(nomination_state),
                *old(ballot_state),
                *final(ballot_state),
                *old(envelope_controller),
                *final(envelope_controller),
                *quorum_manager,
                *env_id,
                r,
            ),
    {
        let is_ballot = match envelope_controller.get_envelope(env_id) {
            Some(env) => match &env.statement {
                SCPStatement::Nominate(_) => false,
                _ => true,
            },
            None => false,
        };
        if is_ballot {
            self.process_ballot_envelope(
                ballot_state,
                nomination_state,
                env_id,
                false,
                &mut envelope_controller.envelopes,
                &mut envelope_controller.envs_to_emit,
                quorum_manager,
                herder_driver,
            )
        } else {
            self.process_nomination_envelope(
                nomination_state,
                ballot_state,
                env_id,
                envelope_controller,
                quorum_manager,
                herder_driver,
            )
        }
    }
}

} // verus!

verus! {

/// The hooks through which a slot tells what happens in it, and signs and
/// sends its envelopes.
pub trait SCPDriver {
    /// How far `value` is valid in slot `slot_index`.
    fn validate_value(slot_index: u64, value: &u64, nomination: bool) -> ValidationLevel;

    /// Called each time the local node nominates a new value.
    fn nominating_value(&self, value: &u64);

    /// Called at most once per slot, when the slot externalizes `value`.
    fn value_externalized(&self, slot_index: u64, value: &u64);

    /// Called each time a ballot is accepted as prepared.
    fn accepted_ballot_prepared(&self, slot_index: &u64, ballot: &SCPBallot);

    /// Called each time commit of a ballot is accepted.
    fn accepted_commit(&self, slot_index: &u64, ballot: &SCPBallot);

    /// Called each time a ballot is confirmed prepared.
    fn confirm_ballot_prepared(&self, slot_index: &u64, ballot: &SCPBallot) {
    }

    /// Sends an envelope.
    fn emit_envelope(envelope: &SCPEnvelope);

    /// Signs an envelope.
    fn sign_envelope(envelope: &mut SCPEnvelope);
}

impl SCPDriver for SlotDriver {
    /// Every value is taken as fully validated.
    fn validate_value(slot_index: u64, value: &u64, nomination: bool) -> (r: ValidationLevel)
        ensures
            r == ValidationLevel::FullyValidated,
    {
        ValidationLevel::FullyValidated
    }

    fn nominating_value(&self, value: &u64) {
    }

    fn value_externalized(&self, slot_index: u64, value: &u64) {
    }

    fn accepted_ballot_prepared(&self, slot_index: &u64, ballot: &SCPBallot) {
    }

    fn accepted_commit(&self, slot_index: &u64, ballot: &SCPBallot) {
    }

    fn confirm_ballot_prepared(&self, slot_index: &u64, ballot: &SCPBallot) {
    }

    /// Sending is left to the network layer: nothing is done here.
    fn emit_envelope(envelope: &SCPEnvelope) {
    }

    /// Envelopes are not really signed yet: the signature is set to the
    /// placeholder digest.
    fn sign_envelope(envelope: &mut SCPEnvelope)
        ensures
            final(envelope).signature@ == crate::scp::envelope::zero_signature(),
            final(envelope).statement == old(envelope).statement,
            final(envelope).node_id == old(envelope).node_id,
            final(envelope).slot_index == old(envelope).slot_index,
    {
        envelope.signature = test_default_blake2();
    }
}

} // verus!
