use scp::application::quorum::{QuorumNode, QuorumSet, QuorumSlice};
use scp::application::quorum_manager::QuorumManager;
use scp::scp::ballot_protocol::{BallotProtocolState, SCPBallot, SCPPhase};
use scp::scp::envelope::{SCPEnvelope, SCPEnvelopeController};
use scp::scp::local_node::LocalNodeInfo;
use scp::scp::nomination_protocol::NominationProtocolState;
use scp::scp::queue::{AbandonBallotArg, RetryNominateArg, SlotJobQueue, SlotTask};
use scp::scp::scp::EnvelopeState;
use scp::scp::scp_driver::{HerderDriver, SlotDriver, ValidationLevel};
use scp::scp::slot::Slot;
use scp::scp::statement::{SCPStatement, SCPStatementNominate};
use scp::scp::statement_filter::StatementFilter;
use scp::utils::node_map::NodeMap;
use scp::utils::value_set::ValueSet;
use scp::scp::scp_driver::SCPDriver;
use scp::scp::scp_driver_builder::SlotDriverBuilder;
use std::collections::BTreeMap;

struct MockHerder {
    nominated: std::cell::RefCell<Vec<u64>>,
    sent: usize,
}

impl HerderDriver for MockHerder {
    fn new() -> Self {
        MockHerder { nominated: std::cell::RefCell::new(Vec::new()), sent: 0 }
    }

    fn validate_value(&self, _value: &u64, _nomination: bool) -> ValidationLevel {
        ValidationLevel::FullyValidated
    }

    fn extract_valid_value(&self, value: &u64) -> Option<u64> {
        Some(*value)
    }

    fn nominating_value(&self, value: &u64, _slot_index: &u64) {
        self.nominated.borrow_mut().push(*value);
    }

    fn combine_candidates(&self, candidates: &ValueSet) -> Option<u64> {
        candidates.to_vec().last().copied()
    }

    fn compute_timeout(&self, round_number: u64) -> u64 {
        Slot::compute_timeout(round_number)
    }

    fn emit_envelope(&self, _envelope: &SCPEnvelope) {}
}

fn node(id: &str) -> QuorumNode {
    QuorumNode { node_id: id.to_string(), ip_addr: None }
}

fn qset(slices: &[&[&str]]) -> QuorumSet {
    QuorumSet {
        slices: slices
            .iter()
            .map(|s| QuorumSlice { data: s.iter().map(|id| node(id)).collect() })
            .collect(),
        threshold: 0,
    }
}

fn nomination_envelope(
    ctrl: &mut SCPEnvelopeController,
    id: &str,
    q: &QuorumSet,
    votes: Vec<u64>,
    accepted: Vec<u64>,
) -> u128 {
    let st = SCPStatementNominate::new(q, votes, accepted);
    let env = SCPEnvelope::new(SCPStatement::Nominate(st), id.to_string(), 0, [0u8; 64]);
    ctrl.add_envelope(env)
}

#[test]
fn mock_scp_envelope_to_blake2() {
    let env1 = SCPEnvelope::test_make_scp_envelope("1".into());
    let env2 = SCPEnvelope::test_make_scp_envelope("2".into());
    let hash_1 = env1.to_blake2();
    let hash_2 = env2.to_blake2();
    assert_ne!(hash_1, hash_2);
    assert_eq!(hash_1, env1.to_blake2());
}

#[test]
fn test_federated_accept() {
    // node1 needs node2 or node3 besides itself: {node1} and {node2, node3}
    // are v-blocking, {node2} is not.
    let local_q = qset(&[&["node1", "node2"], &["node1", "node3"]]);
    let other_q = qset(&[&["node1", "node2", "node3"]]);
    let driver = SlotDriver::new(
        0,
        LocalNodeInfo::new(true, local_q.clone(), "node1".to_string()),
        SlotJobQueue::new(),
    );
    let qm = QuorumManager::new();

    // Only node2 votes for 7: not v-blocking, and node2 alone is no quorum.
    let mut ctrl = SCPEnvelopeController::new();
    let mut latest = NodeMap::new();
    latest.insert("node1".to_string(), nomination_envelope(&mut ctrl, "node1", &local_q, vec![8], vec![]));
    latest.insert("node2".to_string(), nomination_envelope(&mut ctrl, "node2", &other_q, vec![7], vec![]));
    latest.insert("node3".to_string(), nomination_envelope(&mut ctrl, "node3", &other_q, vec![8], vec![]));
    assert!(!driver.federated_accept(
        StatementFilter::VotedNomination(7),
        StatementFilter::AcceptedNomination(7),
        &latest,
        &ctrl.envelopes,
        &qm,
    ));

    // node2 and node3 accept 7: v-blocking, so 7 is accepted.
    let mut ctrl = SCPEnvelopeController::new();
    let mut latest = NodeMap::new();
    latest.insert("node1".to_string(), nomination_envelope(&mut ctrl, "node1", &local_q, vec![8], vec![]));
    latest.insert("node2".to_string(), nomination_envelope(&mut ctrl, "node2", &other_q, vec![7], vec![7]));
    latest.insert("node3".to_string(), nomination_envelope(&mut ctrl, "node3", &other_q, vec![7], vec![7]));
    assert!(driver.federated_accept(
        StatementFilter::VotedNomination(7),
        StatementFilter::AcceptedNomination(7),
        &latest,
        &ctrl.envelopes,
        &qm,
    ));

    // Everyone votes for 9: the three nodes form a quorum.
    let mut ctrl = SCPEnvelopeController::new();
    let mut latest = NodeMap::new();
    latest.insert("node1".to_string(), nomination_envelope(&mut ctrl, "node1", &local_q, vec![9], vec![]));
    latest.insert("node2".to_string(), nomination_envelope(&mut ctrl, "node2", &other_q, vec![9], vec![]));
    latest.insert("node3".to_string(), nomination_envelope(&mut ctrl, "node3", &other_q, vec![9], vec![]));
    assert!(driver.federated_accept(
        StatementFilter::VotedNomination(9),
        StatementFilter::AcceptedNomination(9),
        &latest,
        &ctrl.envelopes,
        &qm,
    ));
    assert!(driver.federated_ratify(&StatementFilter::VotedNomination(9), &latest, &ctrl.envelopes, &qm));
    assert!(!driver.federated_ratify(&StatementFilter::AcceptedNomination(9), &latest, &ctrl.envelopes, &qm));
}

#[test]
fn federated_ratify_needs_each_member_satisfied() {
    // node1 and node2 vote for 5, but node2 needs node3 too.
    let q1 = qset(&[&["node1", "node2"]]);
    let q2 = qset(&[&["node2", "node3"]]);
    let driver = SlotDriver::new(0, LocalNodeInfo::new(true, q1.clone(), "node1".to_string()), SlotJobQueue::new());
    let qm = QuorumManager::new();
    let mut ctrl = SCPEnvelopeController::new();
    let mut latest = NodeMap::new();
    latest.insert("node1".to_string(), nomination_envelope(&mut ctrl, "node1", &q1, vec![5], vec![]));
    latest.insert("node2".to_string(), nomination_envelope(&mut ctrl, "node2", &q2, vec![5], vec![]));
    assert!(!driver.federated_ratify(&StatementFilter::VotedNomination(5), &latest, &ctrl.envelopes, &qm));
    latest.insert("node3".to_string(), nomination_envelope(&mut ctrl, "node3", &q2, vec![5], vec![]));
    assert!(driver.federated_ratify(&StatementFilter::VotedNomination(5), &latest, &ctrl.envelopes, &qm));
}

#[test]
fn create_envelope_queues_it() {
    let q = qset(&[&["node1"]]);
    let driver = SlotDriver::new(4, LocalNodeInfo::new(true, q.clone(), "node1".to_string()), SlotJobQueue::new());
    let mut ctrl = SCPEnvelopeController::new();
    let st = SCPStatement::Nominate(SCPStatementNominate::new(&q, vec![1], vec![]));
    let id = driver.create_envelope(st, &mut ctrl);
    let env = ctrl.get_envelope(&id).unwrap();
    assert_eq!(env.node_id, "node1");
    assert_eq!(env.slot_index, 4);
    assert_eq!(env.signature, [0u8; 64]);
    assert_eq!(ctrl.pop_next_env_to_emit(), Some(id));
    assert_eq!(ctrl.pop_next_env_to_emit(), None);
}

#[test]
fn latest_message_prefers_ballot_envelopes() {
    let mut ballot = BallotProtocolState::default();
    let mut nomination = NominationProtocolState::default();
    nomination.latest_nominations.insert("a".to_string(), 10);
    nomination.latest_nominations.insert("b".to_string(), 11);
    ballot.latest_envelopes.insert("b".to_string(), 20);
    assert_eq!(SlotDriver::get_latest_message(&"a".to_string(), &ballot, &nomination), Some(10));
    assert_eq!(SlotDriver::get_latest_message(&"b".to_string(), &ballot, &nomination), Some(20));
    assert_eq!(SlotDriver::get_latest_message(&"c".to_string(), &ballot, &nomination), None);
}

#[test]
fn maybe_got_v_blocking_after_hearing_from_a_blocking_set() {
    let q = qset(&[&["node1", "node2"], &["node1", "node3"]]);
    let mut driver = SlotDriver::new(0, LocalNodeInfo::new(true, q, "node9".to_string()), SlotJobQueue::new());
    let mut ballot = BallotProtocolState::default();
    let mut nomination = NominationProtocolState::default();
    nomination.latest_nominations.insert("node2".to_string(), 1);
    driver.maybe_got_v_blocking(&nomination, &ballot);
    assert!(!driver.slot_state.got_v_blocking);
    ballot.latest_envelopes.insert("node3".to_string(), 2);
    driver.maybe_got_v_blocking(&nomination, &ballot);
    assert!(driver.slot_state.got_v_blocking);
}

#[test]
fn single_node_nominates_and_externalizes() {
    let q = qset(&[&["node1"]]);
    let mut driver = SlotDriver::new(0, LocalNodeInfo::new(true, q, "node1".to_string()), SlotJobQueue::new());
    let mut nomination = NominationProtocolState::new("node1".to_string());
    let mut ballot = BallotProtocolState::default();
    let mut ctrl = SCPEnvelopeController::new();
    let mut qm = QuorumManager::new();
    qm.add_quorum_set(qset(&[&["node1"]]));
    let mut herder = MockHerder::new();

    let _ = driver.nominate(&mut nomination, &mut ballot, 42, &0, &mut ctrl, &qm, &mut herder);

    assert_eq!(nomination.round_number, 1);
    assert!(nomination.votes.contains(42));
    assert!(nomination.accepted.contains(42));
    assert!(nomination.candidates.contains(42));
    assert_eq!(nomination.latest_composite_candidate, Some(42));
    assert_eq!(*herder.nominated.borrow(), vec![42]);
    // The retry of the nomination is queued first.
    match &driver.task_queue.jobs[0].task {
        SlotTask::RetryNominate(arg) => {
            assert_eq!(arg.value, 42);
            assert_eq!(arg.previous_value, 0);
        }
        _ => panic!("expected a nomination retry"),
    }
    // With itself as its only quorum, the node confirms its own value.
    assert_eq!(ballot.phase, SCPPhase::PhaseExternalize);
    assert_eq!(ballot.commit.map(|c| c.value), Some(42));
    assert!(!nomination.nomination_started);
}

#[test]
fn nominate_skips_when_a_candidate_exists() {
    let q = qset(&[&["node1"]]);
    let mut driver = SlotDriver::new(0, LocalNodeInfo::new(true, q, "node1".to_string()), SlotJobQueue::new());
    let mut nomination = NominationProtocolState::new("node1".to_string());
    let _ = nomination.candidates.insert(3);
    let mut ballot = BallotProtocolState::default();
    let mut ctrl = SCPEnvelopeController::new();
    let qm = QuorumManager::new();
    let mut herder = MockHerder::new();
    assert_eq!(driver.nominate(&mut nomination, &mut ballot, 42, &0, &mut ctrl, &qm, &mut herder), None);
    assert_eq!(nomination.round_number, 0);
    assert!(driver.task_queue.jobs.is_empty());
}

#[test]
fn nominate_after_timeout_before_start_only_counts_it() {
    let q = qset(&[&["node1"]]);
    let mut driver = SlotDriver::new(0, LocalNodeInfo::new(true, q, "node1".to_string()), SlotJobQueue::new());
    let mut nomination = NominationProtocolState::new("node1".to_string());
    nomination.timed_out = true;
    let mut ballot = BallotProtocolState::default();
    let mut ctrl = SCPEnvelopeController::new();
    let qm = QuorumManager::new();
    let mut herder = MockHerder::new();
    assert_eq!(driver.nominate(&mut nomination, &mut ballot, 42, &0, &mut ctrl, &qm, &mut herder), None);
    assert_eq!(nomination.num_timeouts, 1);
    assert_eq!(nomination.round_number, 0);
}

#[test]
fn process_nomination_envelope_refuses_older_one() {
    let q = qset(&[&["node1", "node2"]]);
    let mut driver = SlotDriver::new(0, LocalNodeInfo::new(true, q.clone(), "node1".to_string()), SlotJobQueue::new());
    let mut nomination = NominationProtocolState::default();
    let mut ballot = BallotProtocolState::default();
    let mut ctrl = SCPEnvelopeController::new();
    let qm = QuorumManager::new();
    let mut herder = MockHerder::new();
    let newer = nomination_envelope(&mut ctrl, "node2", &q, vec![1, 2], vec![]);
    let older = nomination_envelope(&mut ctrl, "node2", &q, vec![1], vec![]);
    assert_eq!(
        driver.process_nomination_envelope(&mut nomination, &mut ballot, &newer, &mut ctrl, &qm, &mut herder),
        EnvelopeState::Valid
    );
    assert_eq!(nomination.latest_nominations.get(&"node2".to_string()), Some(newer));
    assert_eq!(
        driver.process_nomination_envelope(&mut nomination, &mut ballot, &older, &mut ctrl, &qm, &mut herder),
        EnvelopeState::Invalid
    );
    assert_eq!(nomination.latest_nominations.get(&"node2".to_string()), Some(newer));
}

#[test]
fn recv_ballot_envelope_without_known_quorum_set_is_invalid() {
    let q = qset(&[&["node1"]]);
    let mut driver = SlotDriver::new(0, LocalNodeInfo::new(true, q, "node1".to_string()), SlotJobQueue::new());
    let mut nomination = NominationProtocolState::default();
    let mut ballot = BallotProtocolState::default();
    let mut ctrl = SCPEnvelopeController::new();
    let qm = QuorumManager::new();
    let mut herder = MockHerder::new();
    let id = ctrl.add_envelope(SCPEnvelope::test_make_scp_envelope("node2".to_string()));
    assert_eq!(
        driver.recv_scp_envelvope(&mut nomination, &mut ballot, &id, &mut ctrl, &qm, &mut herder),
        EnvelopeState::Invalid
    );
    assert!(ballot.latest_envelopes.get(&"node2".to_string()).is_none());
}

#[test]
fn sign_envelope_sets_the_placeholder_signature() {
    let mut env = SCPEnvelope::test_make_scp_envelope("n".to_string());
    env.signature = [7u8; 64];
    <SlotDriver as SCPDriver>::sign_envelope(&mut env);
    assert_eq!(env.signature, [0u8; 64]);
    assert_eq!(
        <SlotDriver as SCPDriver>::validate_value(0, &3, true),
        ValidationLevel::FullyValidated
    );
}

#[test]
fn abandon_ballot_without_candidate_does_nothing() {
    let q = qset(&[&["node1"]]);
    let mut driver = SlotDriver::new(0, LocalNodeInfo::new(true, q, "node1".to_string()), SlotJobQueue::new());
    let mut nomination = NominationProtocolState::default();
    let mut ballot = BallotProtocolState::default();
    let mut ctrl = SCPEnvelopeController::new();
    let qm = QuorumManager::new();
    let mut herder = MockHerder::new();
    assert!(!driver.abandon_ballot(&mut ballot, &mut nomination, 0, &mut ctrl.envelopes, &mut ctrl.envs_to_emit, &qm, &mut herder));
    assert!(ballot.current_ballot.is_none());
}

#[test]
fn bump_state_moves_to_the_first_ballot() {
    let q = qset(&[&["node1", "node2"]]);
    let mut driver = SlotDriver::new(0, LocalNodeInfo::new(true, q.clone(), "node1".to_string()), SlotJobQueue::new());
    let mut nomination = NominationProtocolState::default();
    let mut ballot = BallotProtocolState::default();
    let mut ctrl = SCPEnvelopeController::new();
    let mut qm = QuorumManager::new();
    qm.add_quorum_set(q);
    let mut herder = MockHerder::new();
    assert!(!driver.bump_state(&mut ballot, &mut nomination, &5, false, &mut ctrl.envelopes, &mut ctrl.envs_to_emit, &qm, &mut herder));
    assert!(driver.bump_state(&mut ballot, &mut nomination, &5, true, &mut ctrl.envelopes, &mut ctrl.envs_to_emit, &qm, &mut herder));
    assert_eq!(ballot.current_ballot, Some(SCPBallot::new(1, 5)));
    assert_eq!(ballot.phase, SCPPhase::PhasePrepare);
    // The node took its own PREPARE into account and queued it for sending.
    assert!(ballot.latest_envelopes.get(&"node1".to_string()).is_some());
    assert!(!ctrl.envs_to_emit.is_empty());
}

#[test]
fn slot_driver_builder_reports_missing_parts() {
    let local = LocalNodeInfo::new(true, qset(&[&["node1"]]), "node1".to_string());
    assert_eq!(SlotDriverBuilder::new().build().err(), Some("Missing slot index."));
    assert_eq!(SlotDriverBuilder::new().slot_index(3).build().err(), Some("Missing local node."));
    let (driver, nomination, ballot) = SlotDriverBuilder::new().slot_index(3).local_node(local).build().ok().unwrap();
    assert_eq!(driver.slot_index, 3);
    assert_eq!(driver.local_node.node_id, "node1");
    assert!(driver.slot_state.fully_validated);
    assert_eq!(nomination.round_number, 0);
    assert!(ballot.current_ballot.is_none());
    assert!(SlotDriverBuilder::new().build_handle().is_err());
}

#[test]
fn process_one_runs_the_first_job() {
    let q = qset(&[&["node1"]]);
    let mut slots = BTreeMap::new();
    slots.insert(0u64, SlotDriver::new(0, LocalNodeInfo::new(true, q.clone(), "node1".to_string()), SlotJobQueue::new()));
    let mut nominations = BTreeMap::new();
    nominations.insert(0u64, NominationProtocolState::new("node1".to_string()));
    let mut ballots = BTreeMap::new();
    ballots.insert(0u64, BallotProtocolState::default());
    let mut ctrl = SCPEnvelopeController::new();
    let mut qm = QuorumManager::new();
    qm.add_quorum_set(q);
    let mut herder = MockHerder::new();

    let mut queue = SlotJobQueue::new();
    // nothing to do
    queue.process_one(&mut slots, &mut nominations, &mut ballots, &mut ctrl, &qm, &mut herder);
    assert!(nominations[&0].votes.is_empty());

    queue.submit(scp::scp::queue::SlotJob {
        id: 0,
        timestamp: 0,
        task: SlotTask::RetryNominate(scp::scp::queue::RetryNominateArg { slot_idx: 0, value: 8, previous_value: 1 }),
    });
    queue.submit(scp::scp::queue::SlotJob {
        id: 5,
        timestamp: 0,
        task: SlotTask::AbandonBallot(scp::scp::queue::AbandonBallotArg::new(5, 0)),
    });
    queue.process_one(&mut slots, &mut nominations, &mut ballots, &mut ctrl, &qm, &mut herder);
    assert_eq!(queue.jobs.len(), 1);
    assert!(nominations[&0].votes.contains(8));
    assert_eq!(nominations[&0].previous_value, 1);
    // a job for a slot without a driver is dropped
    queue.process_one(&mut slots, &mut nominations, &mut ballots, &mut ctrl, &qm, &mut herder);
    assert!(queue.jobs.is_empty());
    assert_eq!(slots.len(), 1);
}

#[test]
fn values_are_never_accepted_outright() {
    let driver = SlotDriver::new(0, LocalNodeInfo::new(true, qset(&[&["node1"]]), "node1".to_string()), SlotJobQueue::new());
    let mut nomination = NominationProtocolState::default();
    let ctrl = SCPEnvelopeController::new();
    assert!(!driver.try_accept_value(&1, &mut nomination, &ctrl));
    assert_eq!(driver.node_idx(), "node1");
}

#[test]
fn retry_nominate_starts_the_next_round_and_queues_a_retry() {
    let q = qset(&[&["node1", "node2"]]);
    let mut driver = SlotDriver::new(0, LocalNodeInfo::new(true, q.clone(), "node1".to_string()), SlotJobQueue::new());
    let mut nomination = NominationProtocolState::new("node1".to_string());
    let mut ballot = BallotProtocolState::default();
    let mut ctrl = SCPEnvelopeController::new();
    let mut qm = QuorumManager::new();
    qm.add_quorum_set(q);
    let mut herder = MockHerder::new();
    let arg = RetryNominateArg { slot_idx: 0, value: 9, previous_value: 4 };
    arg.execute(&mut driver, &mut nomination, &mut ballot, &mut ctrl, &qm, &mut herder);
    assert_eq!(nomination.round_number, 1);
    assert_eq!(nomination.previous_value, 4);
    match &driver.task_queue.jobs[0].task {
        SlotTask::RetryNominate(a) => {
            assert_eq!(a.value, 9);
            assert_eq!(a.previous_value, 4);
        }
        _ => panic!("expected a nomination retry"),
    }
}

#[test]
fn abandon_ballot_task_moves_to_the_composite_candidate() {
    let q = qset(&[&["node1", "node2"]]);
    let mut driver = SlotDriver::new(0, LocalNodeInfo::new(true, q.clone(), "node1".to_string()), SlotJobQueue::new());
    let mut nomination = NominationProtocolState::default();
    nomination.latest_composite_candidate = Some(5);
    let mut ballot = BallotProtocolState::default();
    let mut ctrl = SCPEnvelopeController::new();
    let mut qm = QuorumManager::new();
    qm.add_quorum_set(q);
    let mut herder = MockHerder::new();
    AbandonBallotArg::new(0, 3).execute(&mut driver, &mut nomination, &mut ballot, &mut ctrl, &qm, &mut herder);
    assert_eq!(ballot.current_ballot, Some(SCPBallot::new(3, 5)));
}

#[test]
fn ratification_counts_every_node_that_voted() {
    let pair = qset(&[&["node2", "node3"]]);
    let driver = SlotDriver::new(
        0,
        LocalNodeInfo::new(true, qset(&[&["node1", "node2"]]), "node1".to_string()),
        SlotJobQueue::new(),
    );
    let qm = QuorumManager::new();
    let mut ctrl = SCPEnvelopeController::new();
    let mut latest = NodeMap::new();
    // node1 comes first in key order and votes for something else.
    latest.insert("node1".to_string(), nomination_envelope(&mut ctrl, "node1", &pair, vec![8], vec![]));
    latest.insert("node2".to_string(), nomination_envelope(&mut ctrl, "node2", &pair, vec![9], vec![]));
    latest.insert("node3".to_string(), nomination_envelope(&mut ctrl, "node3", &pair, vec![9], vec![]));
    assert!(driver.federated_ratify(&StatementFilter::VotedNomination(9), &latest, &ctrl.envelopes, &qm));
    assert!(!driver.federated_ratify(&StatementFilter::VotedNomination(8), &latest, &ctrl.envelopes, &qm));
}
