use scp::scp::statement_filter::StatementFilter;
use scp::application::quorum::{QuorumNode, QuorumSet, QuorumSlice};
use scp::scp::ballot_protocol::SCPBallot;
use scp::scp::statement::{
    SCPStatement, SCPStatementConfirm, SCPStatementExternalize, SCPStatementNominate,
    SCPStatementPrepare, SCPStatementType,
};

fn b(counter: u32, value: u64) -> SCPBallot {
    SCPBallot::new(counter, value)
}

fn q() -> QuorumSet {
    QuorumSet {
        slices: vec![QuorumSlice { data: vec![QuorumNode { node_id: "n".to_string(), ip_addr: None }] }],
        threshold: 0,
    }
}

fn prepare(ballot: SCPBallot, prepared: Option<SCPBallot>, num_high: u32) -> SCPStatementPrepare {
    SCPStatementPrepare {
        quorum_set_hash: [0u8; 64],
        ballot,
        prepared,
        prepared_prime: None,
        num_commit: 0,
        num_high,
        quorum_set: None,
    }
}

fn confirm(ballot: SCPBallot, num_prepared: u32, num_high: u32) -> SCPStatementConfirm {
    SCPStatementConfirm {
        quorum_set_hash: [0u8; 64],
        ballot,
        num_prepared,
        num_commit: 1,
        num_high,
        quorum_set: None,
    }
}

#[test]
fn statement_kinds_are_ordered() {
    assert_eq!(SCPStatementType::Nominate.value(), 0);
    assert_eq!(SCPStatementType::Externalize.value(), 3);
    assert!(SCPStatementType::Prepare < SCPStatementType::Confirm);
    assert!(SCPStatementType::Externalize > SCPStatementType::Nominate);
    let st = SCPStatement::Confirm(confirm(b(1, 1), 1, 1));
    assert_eq!(st.statement_type(), SCPStatementType::Confirm);
}

#[test]
fn prepare_newer_by_ballot_then_prepared_then_high() {
    assert!(prepare(b(2, 1), None, 0).is_newer_than(&prepare(b(1, 1), None, 0)));
    assert!(prepare(b(1, 1), Some(b(1, 1)), 0).is_newer_than(&prepare(b(1, 1), None, 0)));
    assert!(prepare(b(1, 1), None, 3).is_newer_than(&prepare(b(1, 1), None, 2)));
    assert!(!prepare(b(1, 1), None, 2).is_newer_than(&prepare(b(1, 1), None, 2)));
    // p, p' and h only count between equal ballots
    assert!(!prepare(b(1, 1), Some(b(1, 1)), 0).is_newer_than(&prepare(b(2, 1), None, 0)));
    assert!(!prepare(b(1, 1), None, 9).is_newer_than(&prepare(b(2, 1), None, 0)));
}

#[test]
fn confirm_newer_by_ballot_then_prepared_then_high() {
    assert!(confirm(b(2, 1), 0, 0).is_newer_than(&confirm(b(1, 1), 5, 5)));
    assert!(confirm(b(1, 1), 2, 0).is_newer_than(&confirm(b(1, 1), 1, 9)));
    assert!(confirm(b(1, 1), 1, 3).is_newer_than(&confirm(b(1, 1), 1, 2)));
    assert!(!confirm(b(1, 1), 1, 2).is_newer_than(&confirm(b(1, 1), 1, 2)));
    assert!(!confirm(b(1, 1), 9, 9).is_newer_than(&confirm(b(2, 1), 0, 0)));
}

#[test]
fn later_kinds_are_newer_and_externalize_never_is() {
    let p = SCPStatement::Prepare(prepare(b(9, 1), None, 0));
    let c = SCPStatement::Confirm(confirm(b(1, 1), 1, 1));
    let e = SCPStatement::Externalize(SCPStatementExternalize {
        commit_quorum_set_hash: [0u8; 64],
        commit: b(1, 1),
        num_high: 1,
        commit_quorum_set: None,
    });
    assert!(c.is_newer_than(&p));
    assert!(!p.is_newer_than(&c));
    assert!(e.is_newer_than(&c));
    assert!(!e.is_newer_than(&e));
}

#[test]
fn nominations_grow_older_by_inclusion() {
    let a = SCPStatementNominate::new(&q(), vec![1], vec![]);
    let bb = SCPStatementNominate::new(&q(), vec![1, 2], vec![]);
    let c = SCPStatementNominate::new(&q(), vec![1, 2], vec![2]);
    let d = SCPStatementNominate::new(&q(), vec![3], vec![]);
    assert!(a.is_older_than(&bb));
    assert!(bb.is_older_than(&c));
    assert!(a.is_older_than(&c));
    assert!(!bb.is_older_than(&a));
    assert!(!a.is_older_than(&a));
    assert!(!a.is_older_than(&d));
    assert_eq!(SCPStatementNominate::is_subset(&vec![1], &vec![1, 2]), (true, true));
    assert_eq!(SCPStatementNominate::is_subset(&vec![2, 1], &vec![1, 2]), (true, false));
    assert_eq!(SCPStatementNominate::is_subset(&vec![3], &vec![1, 2]), (false, true));
}

#[test]
fn nominate_statement_carries_its_quorum_set() {
    let st = SCPStatementNominate::new(&q(), vec![4, 5], vec![5]);
    assert_eq!(st.quorum_set_hash, q().hash_value());
    assert_eq!(st.votes, vec![4, 5]);
    assert_eq!(st.accepted, vec![5]);
    assert_eq!(st.node_id, "");
    let s = SCPStatement::Nominate(st);
    assert_eq!(s.get_votes(), vec![4, 5]);
    assert_eq!(s.get_accepted(), vec![5]);
    assert_eq!(s.quorum_set_hash_value(), q().hash_value());
    assert!(s.quorum_set().is_some());
    // nomination values are those of ballot statements only
    assert!(s.get_nomination_values().is_empty());
}

#[test]
fn ballot_statements_give_their_working_ballot_and_values() {
    let p = SCPStatement::Prepare(prepare(b(3, 7), Some(b(2, 6)), 0));
    assert_eq!(p.working_ballot(), b(3, 7));
    assert_eq!(p.get_nomination_values().to_vec(), vec![6, 7]);
    let c = SCPStatement::Confirm(confirm(b(4, 8), 3, 3));
    assert_eq!(c.working_ballot(), b(1, 8));
    assert_eq!(c.ballot_counter(), 4);
    let zero = SCPStatement::Prepare(prepare(b(0, 7), None, 0));
    assert!(zero.get_nomination_values().is_empty());
}

#[test]
fn sanity_of_ballot_statements() {
    let ok = SCPStatement::Prepare(prepare(b(1, 7), None, 0));
    assert!(ok.is_statement_sane(false));
    let zero = SCPStatement::Prepare(prepare(b(0, 7), None, 0));
    assert!(!zero.is_statement_sane(false));
    assert!(zero.is_statement_sane(true));
    let e = SCPStatement::Externalize(SCPStatementExternalize {
        commit_quorum_set_hash: [0u8; 64],
        commit: b(2, 1),
        num_high: 1,
        commit_quorum_set: None,
    });
    assert!(!e.is_statement_sane(false));
}

#[test]
fn nominations_are_ordered_by_votes_before_accepted_values() {
    // more votes make a nomination newer, whatever its accepted values
    let a = SCPStatementNominate::new(&q(), vec![1], vec![2]);
    let bb = SCPStatementNominate::new(&q(), vec![1, 3], vec![]);
    assert!(a.is_older_than(&bb));
    assert!(!bb.is_older_than(&a));
    // with the same votes, more accepted values make it newer
    let c = SCPStatementNominate::new(&q(), vec![1], vec![2, 4]);
    assert!(a.is_older_than(&c));
    assert!(!c.is_older_than(&a));
}

#[test]
fn externalize_counts_as_the_highest_ballot_counter() {
    let e = SCPStatement::Externalize(SCPStatementExternalize {
        commit_quorum_set_hash: [0u8; 64],
        commit: b(2, 1),
        num_high: 2,
        commit_quorum_set: None,
    });
    assert_eq!(e.ballot_counter(), u32::MAX);
    assert!(StatementFilter::CounterAbove(7).holds(&e));
    assert!(!StatementFilter::CounterAbove(u32::MAX).holds(&e));
    let p = SCPStatement::Prepare(prepare(b(3, 1), None, 0));
    assert!(!StatementFilter::CounterAbove(3).holds(&p));
    assert!(StatementFilter::CounterAbove(2).holds(&p));
}
