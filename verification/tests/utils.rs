use scp::scp::envelope::{EnvMap, SCPEnvelope, SCPEnvelopeController};
use scp::scp::slot::{Slot, MAX_TIMEOUT_SECONDS};
use scp::utils::hash::to_hash_value;
use scp::utils::node_map::{NodeMap, NodeSet};
use scp::utils::test::pretty_print_scp_env_id;
use scp::utils::value_set::ValueSet;

#[test]
fn value_set_keeps_values_sorted_and_unique() {
    let mut s = ValueSet::new();
    assert!(s.is_empty());
    assert!(s.insert(5));
    assert!(s.insert(1));
    assert!(!s.insert(5));
    assert!(s.insert(3));
    assert_eq!(s.to_vec(), vec![1, 3, 5]);
    assert_eq!(s.len(), 3);
    assert_eq!(s.at(1), 3);
    assert!(s.contains(3));
    assert!(!s.contains(4));
}

#[test]
fn node_map_reads_back_what_was_written() {
    let mut m = NodeMap::new();
    m.insert("b".to_string(), 2);
    m.insert("a".to_string(), 1);
    m.insert("b".to_string(), 3);
    assert_eq!(m.len(), 2);
    assert_eq!(m.get(&"a".to_string()), Some(1));
    assert_eq!(m.get(&"b".to_string()), Some(3));
    assert_eq!(m.get(&"c".to_string()), None);
    assert_eq!(m.key_at(0), "a");
    assert_eq!(m.val_at(1), 3);
    let mut s = NodeSet::new();
    s.insert("z".to_string());
    s.insert("y".to_string());
    s.insert("z".to_string());
    assert_eq!(s.len(), 2);
    assert_eq!(s.at(0), "y");
    assert!(s.contains(&"z".to_string()));
}

#[test]
fn timeouts_are_capped_at_half_an_hour() {
    assert_eq!(Slot::compute_timeout(0), 0);
    assert_eq!(Slot::compute_timeout(5), 5);
    assert_eq!(Slot::compute_timeout(1800), 1800);
    assert_eq!(Slot::compute_timeout(1801), MAX_TIMEOUT_SECONDS);
    assert_eq!(Slot::compute_timeout(u64::MAX), 1800);
}

#[test]
fn pretty_envelope_ids_are_microseconds_modulo_a_billion() {
    assert_eq!(pretty_print_scp_env_id(&1_234_567_890_123_456), 567_890_123);
    assert_eq!(pretty_print_scp_env_id(&999), 0);
    assert_eq!(pretty_print_scp_env_id(&1_000), 1);
}

#[test]
fn hash_of_nothing_is_constant() {
    assert_eq!(to_hash_value(1u8), to_hash_value("x"));
}

#[test]
fn envelope_controller_stores_and_queues() {
    let mut c = SCPEnvelopeController::new();
    let id = c.add_envelope(SCPEnvelope::test_make_scp_envelope("n".to_string()));
    assert_eq!(c.get_envelope(&id).unwrap().node_id, "n");
    assert_eq!(c.pop_next_env_to_emit(), None);
    c.add_env_to_emit(&id);
    c.add_env_to_emit(&7);
    assert_eq!(c.pop_next_env_to_emit(), Some(id));
    assert_eq!(c.pop_next_env_to_emit(), Some(7));
    let mut m = EnvMap::default();
    let id2 = m.add_envelope(SCPEnvelope::test_make_scp_envelope("m".to_string()));
    assert_eq!(m.get(&id2).unwrap().node_id, "m");
    assert!(m.get(&(id2 + 1)).is_none());
}

#[test]
fn new_slot_has_fresh_states() {
    let s = Slot::new(9);
    assert_eq!(s.index, 9);
    assert_eq!(s.nomination_state.round_number, 0);
    assert!(s.ballot_state.current_ballot.is_none());
}
