use scp::application::quorum::{is_v_blocking, nodes_form_quorum, QuorumNode, QuorumSet, QuorumSlice};
use scp::application::quorum_manager::QuorumManager;
use scp::scp::envelope::{SCPEnvelope, SCPEnvelopeController};
use scp::scp::local_node::{extract_nodes_from_statement_with_filter, LocalNodeInfo, LocalNodeInfoBuilderFromFile, LocalNodeInfoToml};
use scp::scp::local_node_builder::LocalNodeBuilder;
use scp::scp::statement_filter::StatementFilter;
use scp::utils::node_map::NodeMap;

fn create_test_node(index: u16) -> (String, QuorumNode) {
    let node_id = "node".to_string() + &index.to_string();
    let node = QuorumNode { node_id: node_id.clone(), ip_addr: Some((0x7f00_0001, 8080 + index)) };
    (node_id, node)
}

fn quorum_sets_of(nodes: &Vec<String>, envelopes: &NodeMap, ctrl: &SCPEnvelopeController, qm: &QuorumManager) -> Vec<Option<QuorumSet>> {
    nodes
        .iter()
        .map(|id| {
            let env_id = envelopes.get(id).unwrap();
            let env = ctrl.get_envelope(&env_id).unwrap();
            qm.get_quorum_set(env.get_statement()).cloned()
        })
        .collect()
}

#[test]
fn quorum_test_1() {
    // node1's slice {1, 2, 3} is not a quorum without node4, which the
    // slices {2, 3, 4} of the others need.
    let mut env_controller = SCPEnvelopeController::new();
    let (node_id1, node1) = create_test_node(1);
    let (node_id2, node2) = create_test_node(2);
    let (node_id3, node3) = create_test_node(3);
    let (node_id4, node4) = create_test_node(4);
    let quorum_slice1 = QuorumSlice { data: vec![node1.clone(), node2.clone(), node3.clone()] };
    let quorum_slice2 = QuorumSlice { data: vec![node2.clone(), node3.clone(), node4.clone()] };
    let quorum1 = QuorumSet { slices: vec![quorum_slice1], threshold: 0 };
    let quorum2 = QuorumSet { slices: vec![quorum_slice2], threshold: 0 };

    let mut envelopes = NodeMap::new();
    let env1 = SCPEnvelope::test_make_scp_envelope_from_quorum(node_id1.clone(), &quorum1, &mut env_controller);
    let env2 = SCPEnvelope::test_make_scp_envelope_from_quorum(node_id2.clone(), &quorum2, &mut env_controller);
    let env3 = SCPEnvelope::test_make_scp_envelope_from_quorum(node_id3.clone(), &quorum2, &mut env_controller);
    let env4 = SCPEnvelope::test_make_scp_envelope_from_quorum(node_id4.clone(), &quorum2, &mut env_controller);
    envelopes.insert(node_id1.clone(), env1);
    envelopes.insert(node_id2.clone(), env2);
    envelopes.insert(node_id3.clone(), env3);
    envelopes.insert(node_id4.clone(), env4);

    let mut qm = QuorumManager::new();
    qm.add_quorum_set(quorum1.clone());
    qm.add_quorum_set(quorum2.clone());

    let nodes = extract_nodes_from_statement_with_filter(&envelopes, &env_controller.envelopes, &StatementFilter::Any);
    assert_eq!(nodes.len(), 4);
    let qsets = quorum_sets_of(&nodes, &envelopes, &env_controller, &qm);
    assert_eq!(nodes_form_quorum(&qsets, &nodes), true);

    let mut only_first = NodeMap::new();
    only_first.insert(node_id1.clone(), env1);
    let nodes = extract_nodes_from_statement_with_filter(&only_first, &env_controller.envelopes, &StatementFilter::Any);
    let qsets = quorum_sets_of(&nodes, &only_first, &env_controller, &qm);
    assert_eq!(nodes_form_quorum(&qsets, &nodes), false);
}

#[test]
fn extract_keeps_every_node_passing_the_filter() {
    let mut ctrl = SCPEnvelopeController::new();
    let q = QuorumSet { slices: vec![], threshold: 0 };
    let mut envelopes = NodeMap::new();
    envelopes.insert("a".to_string(), SCPEnvelope::test_make_scp_envelope_from_quorum("a".to_string(), &q, &mut ctrl));
    envelopes.insert("b".to_string(), 12345);
    envelopes.insert("c".to_string(), SCPEnvelope::test_make_scp_envelope_from_quorum("c".to_string(), &q, &mut ctrl));
    let nodes = extract_nodes_from_statement_with_filter(&envelopes, &ctrl.envelopes, &StatementFilter::Any);
    assert_eq!(nodes, vec!["a".to_string(), "c".to_string()]);
    let v_blocking = LocalNodeInfo::is_v_blocking_with_predicate(
        &QuorumSet { slices: vec![QuorumSlice { data: vec![QuorumNode { node_id: "c".to_string(), ip_addr: None }] }], threshold: 0 },
        &envelopes,
        &StatementFilter::Any,
        &ctrl.envelopes,
    );
    assert!(v_blocking);
}

#[test]
fn v_blocking_needs_every_slice_met() {
    let n = |id: &str| QuorumNode { node_id: id.to_string(), ip_addr: None };
    let q = QuorumSet {
        slices: vec![QuorumSlice { data: vec![n("a"), n("b")] }, QuorumSlice { data: vec![n("a"), n("c")] }],
        threshold: 0,
    };
    assert!(is_v_blocking(&q, &vec!["a".to_string()]));
    assert!(is_v_blocking(&q, &vec!["b".to_string(), "c".to_string()]));
    assert!(!is_v_blocking(&q, &vec!["b".to_string()]));
    assert!(!is_v_blocking(&QuorumSet { slices: vec![], threshold: 0 }, &vec!["a".to_string()]));
}

#[test]
fn for_all_nodes_stops_at_first_refusal() {
    let n = |id: &str| QuorumNode { node_id: id.to_string(), ip_addr: None };
    let q = QuorumSet { slices: vec![QuorumSlice { data: vec![n("a"), n("b")] }], threshold: 0 };
    assert!(LocalNodeInfo::for_all_nodes(&q, &|id: &String| id.len() == 1));
    assert!(!LocalNodeInfo::for_all_nodes(&q, &|id: &String| id == "a"));
}

#[test]
fn local_node_builder_reports_missing_parts() {
    let q = QuorumSet { slices: vec![], threshold: 0 };
    assert_eq!(LocalNodeBuilder::new().build().err(), Some("Missing is_validator."));
    assert_eq!(LocalNodeBuilder::new().is_validator(true).build().err(), Some("Missing quorum set."));
    assert_eq!(
        LocalNodeBuilder::new().is_validator(true).quorum_set(q.clone()).build().err(),
        Some("Missing node id.")
    );
    let info = LocalNodeBuilder::new().is_validator(true).quorum_set(q).node_id("x".to_string()).build().unwrap();
    assert!(info.is_validator);
    assert_eq!(info.node_id, "x");
}

#[test]
fn local_node_from_its_description() {
    let toml = LocalNodeInfoToml {
        is_validator: true,
        quorum_set: vec![vec!["a".to_string(), "b".to_string()], vec!["a".to_string(), "c".to_string()]],
        node_id: "a".to_string(),
    };
    let mut builder = LocalNodeInfoBuilderFromFile::new("quorum");
    assert_eq!(builder.quorum_dir, "quorum");
    let info = builder.build_local_info_from_toml(toml).unwrap();
    assert!(info.is_validator);
    assert_eq!(info.node_id, "a");
    assert_eq!(info.quorum_set.threshold, 0);
    assert_eq!(info.quorum_set.slices.len(), 2);
    assert_eq!(info.quorum_set.slices[1].data[1].node_id, "c");
    assert_eq!(info.quorum_set.slices[1].data[1].ip_addr, None);
    // Each node is made once.
    assert_eq!(builder.nodes.len(), 3);
    let back = LocalNodeInfoToml::from(info);
    assert_eq!(back.quorum_set, vec![vec!["a".to_string(), "b".to_string()], vec!["a".to_string(), "c".to_string()]]);
    assert_eq!(back.node_id, "a");
}

#[test]
fn default_local_node_has_no_slices() {
    let info = LocalNodeInfo::default();
    assert!(!info.is_validator);
    assert!(info.quorum_set.slices.is_empty());
    assert_eq!(info.node_id, "");
}
