use scp::application::quorum::{QuorumNode, QuorumSet, QuorumSlice};
use scp::scp::envelope::{SCPEnvelope, SCPEnvelopeController};
use scp::scp::nomination_protocol::{
    acceptance_choice, nomination_choice, pick_nomination_value, NominationProtocolState,
};
use scp::scp::scp_driver::ValidationLevel;
use scp::scp::scp_state_builder::NominationProtocolStateBuilder;
use scp::scp::statement::{SCPStatement, SCPStatementNominate};
use scp::utils::value_set::ValueSet;

fn q() -> QuorumSet {
    QuorumSet {
        slices: vec![QuorumSlice { data: vec![QuorumNode { node_id: "a".to_string(), ip_addr: None }] }],
        threshold: 0,
    }
}

#[test]
fn choices_follow_the_validation_level() {
    assert_eq!(nomination_choice(4, ValidationLevel::FullyValidated, None), Some(4));
    assert_eq!(nomination_choice(4, ValidationLevel::VoteToNominate, None), Some(4));
    assert_eq!(nomination_choice(4, ValidationLevel::MaybeValid, Some(9)), Some(9));
    assert_eq!(nomination_choice(4, ValidationLevel::Invalid, None), None);
    assert_eq!(acceptance_choice(4, ValidationLevel::FullyValidated, Some(9)), Some(4));
    assert_eq!(acceptance_choice(4, ValidationLevel::VoteToNominate, Some(9)), Some(9));
    assert_eq!(acceptance_choice(4, ValidationLevel::MaybeValid, None), None);
}

#[test]
fn pick_takes_the_highest_hash_not_voted_yet() {
    let mut votes = ValueSet::new();
    votes.insert(2);
    // value 2 has the highest hash but is voted already; 3 and 4 tie, first wins
    let answers = vec![Some((1, 10)), Some((2, 99)), None, Some((3, 20)), Some((4, 20))];
    assert_eq!(pick_nomination_value(&votes, &answers), Some(3));
    // a hash of 0 never wins
    assert_eq!(pick_nomination_value(&votes, &vec![Some((5, 0))]), None);
    assert_eq!(pick_nomination_value(&votes, &vec![]), None);
}

#[test]
fn state_from_envelope_takes_its_votes() {
    let mut ctrl = SCPEnvelopeController::new();
    let st = SCPStatementNominate::new(&q(), vec![3, 1], vec![1]);
    let id = ctrl.add_envelope(SCPEnvelope::new(SCPStatement::Nominate(st), "b".to_string(), 0, [0u8; 64]));
    let mut s = NominationProtocolState::default();
    s.set_state_from_envelope(&id, &ctrl);
    assert_eq!(s.votes.to_vec(), vec![1, 3]);
    assert_eq!(s.accepted.to_vec(), vec![1]);
    assert_eq!(s.latest_envelope, Some(id));
    assert_eq!(s.latest_nominations.get(&"b".to_string()), Some(id));
    assert_eq!(s.get_current_votes(), vec![1, 3, 1]);
    let stmt = SCPStatementNominate::new(&q(), vec![7], vec![8]);
    assert_eq!(s.get_statement_values(&stmt), vec![7, 8]);
    // the stored statement is not newer than itself being older
    let older = SCPStatementNominate::new(&q(), vec![1], vec![]);
    assert!(s.processed_newer_statement(&"b".to_string(), &older, &ctrl));
    assert!(!s.is_newer_statement_for_node(&"b".to_string(), &older, &ctrl));
    assert!(s.is_newer_statement_for_node(&"c".to_string(), &older, &ctrl));
}

#[test]
fn new_state_has_the_leader() {
    let s = NominationProtocolState::new("lead".to_string());
    assert!(s.round_leaders.contains(&"lead".to_string()));
    assert_eq!(s.round_leaders.len(), 1);
    assert!(!s.nomination_started);
}

#[test]
fn builder_defaults_what_is_not_given() {
    let mut votes = ValueSet::new();
    votes.insert(4);
    let s = NominationProtocolStateBuilder::new()
        .round_number(Some(3))
        .votes(votes)
        .timed_out(true)
        .latest_composite_candidate(Some(4))
        .build();
    assert_eq!(s.round_number, 3);
    assert_eq!(s.votes.to_vec(), vec![4]);
    assert!(s.accepted.is_empty());
    assert!(s.timed_out);
    assert_eq!(s.latest_composite_candidate, Some(4));
    assert_eq!(s.num_timeouts, 0);
    assert_eq!(s.latest_envelope, None);
    let d = NominationProtocolStateBuilder::new().build();
    assert_eq!(d.round_number, 0);
    assert!(!d.nomination_started);
}
