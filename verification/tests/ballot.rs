use scp::scp::ballot_protocol::{validation_outcome, opt_ballot_less, BallotProtocolState, SCPBallot, SCPPhase, ToBallot};
use scp::scp::statement::{SCPStatement, SCPStatementConfirm, SCPStatementPrepare};
use scp::scp::statement_filter::{commit_predicate, has_prepared_ballot};
use scp::scp::scp_driver::ValidationLevel;

fn b(counter: u32, value: u64) -> SCPBallot {
    SCPBallot::new(counter, value)
}

#[test]
fn ballots_order_by_counter_then_value() {
    assert!(b(1, 9).lt(&b(2, 0)));
    assert!(b(2, 1).lt(&b(2, 3)));
    assert!(!b(2, 3).lt(&b(2, 3)));
    assert!(b(2, 3).le(&b(2, 3)));
    assert!(opt_ballot_less(&None, &Some(b(0, 0))));
    assert!(!opt_ballot_less(&Some(b(0, 0)), &None));
    assert!(!opt_ballot_less(&None, &None));
}

#[test]
fn compatible_and_less_relations() {
    assert!(b(1, 5).compatible(&b(9, 5)));
    assert!(!b(1, 5).compatible(&b(1, 6)));
    assert!(b(1, 5).less_and_compatible(&b(2, 5)));
    assert!(b(2, 5).less_and_compatible(&b(2, 5)));
    assert!(!b(3, 5).less_and_compatible(&b(2, 5)));
    assert!(b(1, 5).less_and_incompatible(&b(2, 6)));
    assert!(!b(1, 5).less_and_incompatible(&b(2, 5)));
    assert_eq!(SCPBallot::make_ballot(&b(4, 4)), b(4, 4));
    assert_eq!(SCPBallot::default(), b(0, 0));
}

#[test]
fn set_prepared_raises_p_and_keeps_p_prime_incompatible() {
    let mut s = BallotProtocolState::default();
    assert!(s.set_prepared(&b(1, 5)));
    assert_eq!(s.prepared, Some(b(1, 5)));
    assert_eq!(s.prepared_prime, None);
    // a higher incompatible ballot moves p to p'
    assert!(s.set_prepared(&b(2, 7)));
    assert_eq!(s.prepared, Some(b(2, 7)));
    assert_eq!(s.prepared_prime, Some(b(1, 5)));
    // a ballot between p' and p, incompatible with p, replaces p'
    assert!(s.set_prepared(&b(2, 6)));
    assert_eq!(s.prepared_prime, Some(b(2, 6)));
    // nothing to do for p itself
    assert!(!s.set_prepared(&b(2, 7)));
    assert!(s.invariants_hold());
    s.check_invariants();
}

#[test]
fn bump_to_ballot_drops_incompatible_high_and_commit() {
    let mut s = BallotProtocolState::default();
    s.current_ballot = Some(b(2, 5));
    s.high_ballot = Some(b(2, 5));
    s.commit = Some(b(1, 5));
    s.heard_from_quorum = true;
    s.bump_to_ballot(true, &b(3, 6));
    assert_eq!(s.current_ballot, Some(b(3, 6)));
    assert_eq!(s.high_ballot, None);
    assert_eq!(s.commit, None);
    assert!(!s.heard_from_quorum);
}

#[test]
fn update_current_if_needed_only_raises() {
    let mut s = BallotProtocolState::default();
    s.current_ballot = Some(b(3, 5));
    assert!(s.update_current_if_needed(&b(2, 5)));
    assert_eq!(s.current_ballot, Some(b(3, 5)));
    assert!(!s.update_current_if_needed(&b(4, 5)));
    assert_eq!(s.current_ballot, Some(b(4, 5)));
}

#[test]
fn set_commit_raises_high_when_needed() {
    let mut s = BallotProtocolState::default();
    s.high_ballot = Some(b(5, 1));
    s.set_commit(&b(3, 1));
    assert_eq!(s.commit, Some(b(3, 1)));
    assert_eq!(s.high_ballot, Some(b(5, 1)));
    s.set_commit(&b(6, 1));
    assert_eq!(s.high_ballot, Some(b(6, 1)));
}

#[test]
fn check_invariants_catches_high_above_current() {
    let mut s = BallotProtocolState::default();
    assert!(s.invariants_hold());
    s.current_ballot = Some(b(1, 5));
    s.high_ballot = Some(b(2, 5));
    assert!(!s.invariants_hold());
    s.current_ballot = Some(b(0, 5));
    s.high_ballot = None;
    assert!(!s.invariants_hold());
}

#[test]
fn create_statement_reflects_the_phase() {
    let mut s = BallotProtocolState::default();
    s.current_ballot = Some(b(3, 5));
    s.prepared = Some(b(2, 5));
    s.commit = Some(b(1, 5));
    s.high_ballot = Some(b(2, 5));
    match s.create_statement([1u8; 64]) {
        SCPStatement::Prepare(st) => {
            assert_eq!(st.ballot, b(3, 5));
            assert_eq!(st.prepared, Some(b(2, 5)));
            assert_eq!(st.num_commit, 1);
            assert_eq!(st.num_high, 2);
            assert_eq!(st.quorum_set_hash, [1u8; 64]);
        }
        _ => panic!("expected PREPARE"),
    }
    s.phase = SCPPhase::PhaseConfirm;
    match s.create_statement([1u8; 64]) {
        SCPStatement::Confirm(st) => {
            assert_eq!(st.num_prepared, 2);
            assert_eq!(st.num_commit, 1);
            assert_eq!(st.num_high, 2);
        }
        _ => panic!("expected CONFIRM"),
    }
    s.phase = SCPPhase::PhaseExternalize;
    match s.create_statement([1u8; 64]) {
        SCPStatement::Externalize(st) => {
            assert_eq!(st.commit, b(1, 5));
            assert_eq!(st.num_high, 2);
        }
        _ => panic!("expected EXTERNALIZE"),
    }
}

fn prepare(ballot: SCPBallot, prepared: Option<SCPBallot>, num_commit: u32, num_high: u32) -> SCPStatementPrepare {
    SCPStatementPrepare {
        quorum_set_hash: [0u8; 64],
        ballot,
        prepared,
        prepared_prime: None,
        num_commit,
        num_high,
        quorum_set: None,
    }
}

#[test]
fn statements_give_their_ballot_and_predicates() {
    let p = prepare(b(4, 9), Some(b(3, 9)), 1, 2);
    assert_eq!(p.to_ballot(), b(2, 9));
    let c = SCPStatementConfirm {
        quorum_set_hash: [0u8; 64],
        ballot: b(5, 9),
        num_prepared: 4,
        num_commit: 2,
        num_high: 3,
        quorum_set: None,
    };
    assert_eq!(c.to_ballot(), b(3, 9));
    let st = SCPStatement::Prepare(p);
    assert!(has_prepared_ballot(&b(3, 9), &st));
    assert!(has_prepared_ballot(&b(1, 9), &st));
    assert!(!has_prepared_ballot(&b(4, 9), &st));
    assert!(!has_prepared_ballot(&b(1, 8), &st));
    let cst = SCPStatement::Confirm(c);
    assert!(has_prepared_ballot(&b(4, 9), &cst));
    assert!(commit_predicate(&b(1, 9), &(3, 3), &cst));
    assert!(!commit_predicate(&b(1, 9), &(2, 3), &cst));
    assert!(!commit_predicate(&b(1, 8), &(3, 3), &cst));
    assert!(!commit_predicate(&b(1, 9), &(0, 0), &st));
}

#[test]
fn default_ballot_state() {
    let s = BallotProtocolState::default();
    assert_eq!(s.phase, SCPPhase::PhasePrepare);
    assert_eq!(s.message_level, 0);
    assert!(s.current_ballot.is_none());
    assert_eq!(s.latest_envelopes.len(), 0);
}

#[test]
fn validation_outcome_takes_the_worst_answer() {
    assert_eq!(validation_outcome(&vec![]), ValidationLevel::FullyValidated);
    assert_eq!(
        validation_outcome(&vec![ValidationLevel::FullyValidated, ValidationLevel::MaybeValid]),
        ValidationLevel::MaybeValid
    );
    assert_eq!(
        validation_outcome(&vec![ValidationLevel::MaybeValid, ValidationLevel::Invalid]),
        ValidationLevel::Invalid
    );
}

#[test]
fn accepting_commit_records_commit_and_high_and_confirms() {
    let mut s = BallotProtocolState::default();
    s.current_ballot = Some(b(2, 5));
    s.prepared = Some(b(2, 5));
    s.prepared_prime = Some(b(1, 4));
    assert!(s.accept_commit(&b(1, 5), &b(2, 5)));
    assert_eq!(s.commit, Some(b(1, 5)));
    assert_eq!(s.high_ballot, Some(b(2, 5)));
    assert_eq!(s.phase, SCPPhase::PhaseConfirm);
    assert_eq!(s.prepared_prime, None);
    assert_eq!(s.value_override, Some(5));
    // the same interval again is no work
    assert!(!s.accept_commit(&b(1, 5), &b(2, 5)));
}

#[test]
fn accepting_and_confirming_prepared_move_p_and_h() {
    let mut s = BallotProtocolState::default();
    s.current_ballot = Some(b(1, 5));
    assert!(s.accept_prepared(&b(1, 5)));
    assert_eq!(s.prepared, Some(b(1, 5)));
    assert!(!s.accept_prepared(&b(1, 5)));
    // confirming h = <2, 5> with commit <1, 5>: without an h yet, only the
    // commit is set, and h with it
    assert!(s.confirm_prepared(&b(1, 5), &b(2, 5)));
    assert_eq!(s.commit, Some(b(1, 5)));
    assert_eq!(s.high_ballot, Some(b(1, 5)));
    assert_eq!(s.value_override, Some(5));
    // with h set, h moves to the new one
    assert!(s.confirm_prepared(&b(0, 0), &b(2, 5)));
    assert_eq!(s.high_ballot, Some(b(2, 5)));
}
