use scp::application::quorum::{is_quorum_slice, is_v_blocking, QuorumNode, QuorumSet, QuorumSlice};
use scp::scp::ballot_protocol::{BallotProtocolState, SCPBallot, SCPPhase};
use scp::scp::envelope::SCPEnvelope;
use scp::scp::local_node::LocalNodeInfo;
use scp::scp::queue::SlotJobQueue;
use scp::scp::scp_driver::SlotDriver;
use scp::scp::statement::{SCPStatement, SCPStatementPrepare};

fn b(counter: u32, value: u64) -> SCPBallot {
    SCPBallot::new(counter, value)
}

fn qs(slices: &[&[&str]]) -> QuorumSet {
    QuorumSet {
        slices: slices
            .iter()
            .map(|s| QuorumSlice {
                data: s.iter().map(|id| QuorumNode { node_id: id.to_string(), ip_addr: None }).collect(),
            })
            .collect(),
        threshold: 0,
    }
}

fn ids(v: &[&str]) -> Vec<String> {
    v.iter().map(|s| s.to_string()).collect()
}

#[test]
fn growing_a_set_keeps_it_blocking_and_a_slice() {
    let q = qs(&[&["a", "b"], &["a", "c"]]);
    assert!(is_v_blocking(&q, &ids(&["b", "c"])));
    assert!(is_v_blocking(&q, &ids(&["b", "c", "d"])));
    assert!(is_quorum_slice(&q, &ids(&["a", "c"])));
    assert!(is_quorum_slice(&q, &ids(&["a", "c", "x"])));
    let single = qs(&[&["a", "b"]]);
    assert!(is_quorum_slice(&single, &ids(&["a", "b"])));
    assert!(is_v_blocking(&single, &ids(&["a", "b"])));
}

#[test]
fn below_incompatible_stays_below_upward() {
    assert!(b(1, 5).less_and_incompatible(&b(2, 6)));
    assert!(b(2, 6).less_and_compatible(&b(3, 6)));
    assert!(b(1, 5).less_and_incompatible(&b(3, 6)));
}

#[test]
fn ballot_order_is_total_and_transitive() {
    let x = b(1, 9);
    let y = b(2, 1);
    let z = b(2, 4);
    assert!(x.lt(&y) && !y.lt(&x));
    assert!(y.lt(&z) && x.lt(&z));
    assert!(!z.lt(&z));
}

#[test]
fn a_prepare_statement_is_not_newer_than_itself() {
    let st = SCPStatement::Prepare(SCPStatementPrepare {
        quorum_set_hash: [0u8; 64],
        ballot: b(3, 1),
        prepared: Some(b(2, 1)),
        prepared_prime: Some(b(1, 0)),
        num_commit: 1,
        num_high: 2,
        quorum_set: None,
    });
    assert!(!st.is_newer_than(&st));
}

#[test]
fn raising_the_ballot_keeps_the_invariants() {
    let mut s = BallotProtocolState::default();
    s.current_ballot = Some(b(2, 5));
    s.prepared = Some(b(2, 5));
    s.high_ballot = Some(b(2, 5));
    s.commit = Some(b(1, 5));
    assert!(s.invariants_hold());
    assert!(!s.update_current_if_needed(&b(3, 5)));
    assert!(s.invariants_hold());
    s.bump_to_ballot(true, &b(4, 6));
    assert!(s.invariants_hold());
    assert_eq!(s.commit, None);

    let driver = SlotDriver::new(0, LocalNodeInfo::new(true, qs(&[&["a"]]), "a".to_string()), SlotJobQueue::new());
    let mut t = BallotProtocolState::default();
    t.phase = SCPPhase::PhaseConfirm;
    t.current_ballot = Some(b(2, 5));
    t.prepared = Some(b(2, 5));
    t.high_ballot = Some(b(2, 5));
    t.commit = Some(b(1, 5));
    assert!(t.invariants_hold());
    // an incompatible ballot is refused while a commit is held
    assert!(!driver.update_current_value(&mut t, &b(9, 6)));
    assert!(driver.update_current_value(&mut t, &b(9, 5)));
    assert!(t.invariants_hold());
    assert_eq!(t.current_ballot, Some(b(9, 5)));
}

#[test]
fn equal_envelopes_have_equal_digests() {
    let a = SCPEnvelope::test_make_scp_envelope("n".to_string());
    let c = SCPEnvelope::test_make_scp_envelope("n".to_string());
    assert_eq!(a.to_blake2(), c.to_blake2());
}
