use vstd::prelude::*;

use crate::application::quorum::{
    ids_of, is_v_blocking, is_v_blocking_spec, QuorumNode, QuorumNodeView, QuorumSet,
    QuorumSetView,
};
use crate::scp::envelope::{EnvMap, SCPEnvelope, SCPEnvelopeID};
use crate::scp::scp::NodeID;
use crate::scp::statement_filter::{filter_holds, StatementFilter};
use crate::utils::node_map::NodeMap;

verus! {

broadcast use vstd::std_specs::btree::group_btree_axioms;

/// What a node knows of itself: whether it validates, its quorum set and its id.
pub struct LocalNodeInfo {
    pub is_validator: bool,
    pub quorum_set: QuorumSet,
    pub node_id: NodeID,
}

/// The contents of a node's description file: whether it validates, its
/// quorum slices as lists of node ids, and its id.
pub struct LocalNodeInfoToml {
    pub is_validator: bool,
    pub quorum_set: Vec<Vec<NodeID>>,
    pub node_id: NodeID,
}

/// The nodes of all slices of `q`, slice after slice.
pub open spec fn qset_nodes_spec(q: QuorumSetView) -> Seq<QuorumNodeView> {
    q.slices.flatten_alt()
}

impl QuorumSet {
    /// The nodes of all slices, slice after slice.
    pub fn nodes(&self) -> (r: Vec<QuorumNode>)
        ensures
            r@.map_values(|n: QuorumNode| n@) == qset_nodes_spec(self@),
    {
        let mut r: Vec<QuorumNode> = Vec::new();
        let mut i: usize = 0;
        while i < self.slices.len()
            invariant
                i <= self.slices@.len(),
                r@.map_values(|n: QuorumNode| n@) == self@.slices.subrange(0, i as int).flatten_alt(),
            decreases self.slices@.len() - i,
        {
            let ghost before = r@.map_values(|n: QuorumNode| n@);
            let mut j: usize = 0;
            while j < self.slices[i].data.len()
                invariant
                    i < self.slices@.len(),
                    j <= self.slices@[i as int].data@.len(),
                    r@.map_values(|n: QuorumNode| n@) == before + self@.slices[i as int].subrange(
                        0,
                        j as int,
                    ),
                decreases self.slices@[i as int].data@.len() - j,
            {
                let c = self.slices[i].data[j].clone();
                let ghost r0 = r@;
                r.push(c);
                proof {
                    assert(r@ == r0.push(c));
                    assert(self@.slices[i as int] == self.slices@[i as int]@);
                    assert(self.slices@[i as int]@[j as int] == self.slices@[i as int].data@[j as int]@);
                    assert(r@.map_values(|n: QuorumNode| n@) =~= r0.map_values(|n: QuorumNode| n@).push(c@));
                }
                j = j + 1;
                assert(r@.map_values(|n: QuorumNode| n@) =~= before + self@.slices[i as int].subrange(
                    0,
                    j as int,
                ));
            }
            assert(self@.slices[i as int].subrange(0, j as int) =~= self@.slices[i as int]);
            assert(self@.slices.subrange(0, i + 1).drop_last() =~= self@.slices.subrange(0, i as int));
            i = i + 1;
        }
        assert(self@.slices.subrange(0, i as int) =~= self@.slices);
        r
    }
}

/// The latest statement of the `i`-th node of `m` is stored and satisfies `f`.
pub open spec fn holds_at(
    m: NodeMap,
    env: Map<SCPEnvelopeID, SCPEnvelope>,
    f: StatementFilter,
    i: int,
) -> bool {
    env.contains_key(m.vals()[i]) && filter_holds(f, env[m.vals()[i]].statement@)
}

/// The nodes among the first `n` of `m` whose latest statement satisfies `f`.
pub open spec fn selected_nodes(
    m: NodeMap,
    env: Map<SCPEnvelopeID, SCPEnvelope>,
    f: StatementFilter,
    n: int,
) -> Seq<Seq<char>>
    decreases n,
{
    if n <= 0 {
        Seq::empty()
    } else if holds_at(m, env, f, n - 1) {
        selected_nodes(m, env, f, n - 1).push(m.keys()[n - 1])
    } else {
        selected_nodes(m, env, f, n - 1)
    }
}

/// `predicate` may return `b` for a node whose id is `id`.
pub open spec fn returned_for<F: Fn(&NodeID) -> bool>(predicate: F, id: Seq<char>, b: bool) -> bool {
    exists|s: NodeID| s@ == id && #[trigger] predicate.ensures((&s,), b)
}

impl LocalNodeInfo {
    pub fn new(is_validator: bool, quorum_set: QuorumSet, node_id: NodeID) -> (r: Self)
        ensures
            r.is_validator == is_validator,
            r.quorum_set == quorum_set,
            r.node_id == node_id,
    {
        LocalNodeInfo { is_validator, quorum_set, node_id }
    }

    pub fn from_toml_info(toml_info: LocalNodeInfoToml, quorum_set: QuorumSet) -> (r: Self)
        ensures
            r.is_validator == toml_info.is_validator,
            r.quorum_set == quorum_set,
            r.node_id == toml_info.node_id,
    {
        LocalNodeInfo { is_validator: toml_info.is_validator, quorum_set, node_id: toml_info.node_id }
    }

    pub fn default() -> (r: Self)
        ensures
            !r.is_validator,
            r.quorum_set@.slices.len() == 0,
            r.quorum_set.threshold == 0,
            r.node_id@ == Seq::<char>::empty(),
    {
        let q = QuorumSet { slices: Vec::new(), threshold: 0 };
        assert(q@.slices =~= Seq::<Seq<QuorumNodeView>>::empty());
        LocalNodeInfo { is_validator: false, quorum_set: q, node_id: String::new() }
    }

    /// Applies `predicate` to the id of each node of the quorum set in turn and
    /// stops at the first for which it returns false; returns whether none did.
    pub fn for_all_nodes<F: Fn(&NodeID) -> bool>(quorum_set: &QuorumSet, predicate: &F) -> (r: bool)
        requires
            forall|s: NodeID| #[trigger] predicate.requires((&s,)),
        ensures
            r ==> forall|i: int|
                0 <= i < qset_nodes_spec(quorum_set@).len() ==> returned_for(
                    *predicate,
                    #[trigger] qset_nodes_spec(quorum_set@)[i].node_id,
                    true,
                ),
            !r ==> exists|i: int|
                0 <= i < qset_nodes_spec(quorum_set@).len() && returned_for(
                    *predicate,
                    #[trigger] qset_nodes_spec(quorum_set@)[i].node_id,
                    false,
                ),
    {
        let nodes = quorum_set.nodes();
        let ghost nv = nodes@.map_values(|n: QuorumNode| n@);
        let mut i: usize = 0;
        while i < nodes.len()
            invariant
                i <= nodes@.len(),
                nv == nodes@.map_values(|n: QuorumNode| n@),
                nv == qset_nodes_spec(quorum_set@),
                forall|s: NodeID| #[trigger] predicate.requires((&s,)),
                forall|k: int| 0 <= k < i ==> returned_for(*predicate, #[trigger] nv[k].node_id, true),
            decreases nodes@.len() - i,
        {
            let ok = predicate(&nodes[i].node_id);
            assert(nv[i as int].node_id == nodes@[i as int].node_id@);
            if !ok {
                assert(returned_for(*predicate, nv[i as int].node_id, false));
                return false;
            }
            assert(returned_for(*predicate, nv[i as int].node_id, true));
            i = i + 1;
        }
        assert forall|k: int| 0 <= k < qset_nodes_spec(quorum_set@).len() implies returned_for(
            *predicate,
            #[trigger] qset_nodes_spec(quorum_set@)[k].node_id,
            true,
        ) by {
            assert(nv[k].node_id == qset_nodes_spec(quorum_set@)[k].node_id);
        }
        true
    }

    /// Whether the nodes of `envelope_map` whose latest statement, looked up
    /// in `env_map`, satisfies `filter` are v-blocking for `quorum_set`.
    pub fn is_v_blocking_with_predicate(
        quorum_set: &QuorumSet,
        envelope_map: &NodeMap,
        filter: &StatementFilter,
        env_map: &EnvMap,
    ) -> (r: bool)
        ensures
            r == is_v_blocking_spec(
                quorum_set@,
                selected_nodes(*envelope_map, env_map.0@, *filter, envelope_map.keys().len() as int),
            ),
    {
        let nodes = select_nodes(envelope_map, env_map, filter);
        is_v_blocking(quorum_set, &nodes)
    }
}

/// The ids of the nodes of `envelopes` whose latest statement satisfies `filter`.
pub fn select_nodes(envelopes: &NodeMap, env_map: &EnvMap, filter: &StatementFilter) -> (r: Vec<
    NodeID,
>)
    ensures
        ids_of(r@) == selected_nodes(*envelopes, env_map.0@, *filter, envelopes.keys().len() as int),
{
    let mut nodes: Vec<NodeID> = Vec::new();
    let mut i: usize = 0;
    proof {
        envelopes.lemma_len();
    }
    while i < envelopes.len()
        invariant
            i <= envelopes.keys().len(),
            envelopes.keys().len() == envelopes.vals().len(),
            ids_of(nodes@) == selected_nodes(*envelopes, env_map.0@, *filter, i as int),
        decreases envelopes.keys().len() - i,
    {
        let id = envelopes.val_at(i);
        let keep = match env_map.get(&id) {
            Some(env) => filter.holds(&env.statement),
            None => false,
        };
        if keep {
            let k = envelopes.key_at(i).clone();
            nodes.push(k);
            assert(ids_of(nodes@) =~= selected_nodes(*envelopes, env_map.0@, *filter, i as int).push(
                envelopes.keys()[i as int],
            ));
        }
        i = i + 1;
    }
    nodes
}

/// The ids of the nodes of `envelopes`, in key order, whose latest statement
/// satisfies `node_filter`.
pub fn extract_nodes_from_statement_with_filter(
    envelopes: &NodeMap,
    env_map: &EnvMap,
    node_filter: &StatementFilter,
) -> (r: Vec<NodeID>)
    ensures
        ids_of(r@) == selected_nodes(*envelopes, env_map.0@, *node_filter, envelopes.keys().len() as int),
{
    select_nodes(envelopes, env_map, node_filter)
}

} // verus!

verus! {

/// The node ids of each slice of `q`, slice by slice.
pub open spec fn slice_id_lists(q: QuorumSetView) -> Seq<Seq<Seq<char>>> {
    q.slices.map_values(|s: Seq<QuorumNodeView>| s.map_values(|n: QuorumNodeView| n.node_id))
}

/// The node a description file names by `id`: known by its id alone.
pub open spec fn node_of_id(id: Seq<char>) -> QuorumNodeView {
    QuorumNodeView { node_id: id, ip_addr: None }
}

impl LocalNodeInfoToml {
    /// The description of a local node: its quorum slices as lists of node
    /// ids.
    pub fn from(local_node_info: LocalNodeInfo) -> (r: Self)
        ensures
            r.is_validator == local_node_info.is_validator,
            r.node_id == local_node_info.node_id,
            r.quorum_set@.map_values(|s: Vec<NodeID>| s@.map_values(|n: NodeID| n@))
                == slice_id_lists(local_node_info.quorum_set@),
    {
        let mut quorum_set: Vec<Vec<NodeID>> = Vec::new();
        let mut i: usize = 0;
        while i < local_node_info.quorum_set.slices.len()
            invariant
                i <= local_node_info.quorum_set.slices@.len(),
                quorum_set@.len() == i,
                forall|k: int|
                    0 <= k < i ==> (#[trigger] quorum_set@[k])@.map_values(|n: NodeID| n@)
                        == slice_id_lists(local_node_info.quorum_set@)[k],
            decreases local_node_info.quorum_set.slices@.len() - i,
        {
            let slice = &local_node_info.quorum_set.slices[i];
            let mut ids: Vec<NodeID> = Vec::new();
            let mut j: usize = 0;
            while j < slice.data.len()
                invariant
                    j <= slice.data@.len(),
                    ids@.len() == j,
                    forall|k: int| 0 <= k < j ==> (#[trigger] ids@[k])@ == slice.data@[k].node_id@,
                decreases slice.data@.len() - j,
            {
                ids.push(slice.data[j].node_id.clone());
                j = j + 1;
            }
            assert(ids@.map_values(|n: NodeID| n@) =~= slice_id_lists(local_node_info.quorum_set@)[i as int]);
            quorum_set.push(ids);
            i = i + 1;
        }
        assert(quorum_set@.map_values(|s: Vec<NodeID>| s@.map_values(|n: NodeID| n@))
            =~= slice_id_lists(local_node_info.quorum_set@));
        LocalNodeInfoToml {
            is_validator: local_node_info.is_validator,
            quorum_set,
            node_id: local_node_info.node_id,
        }
    }
}

impl QuorumNode {
    /// The node a description file names by `node_id`: one known by its id
    /// alone, with no address.
    pub fn from_toml(node_id: &NodeID) -> (r: Option<QuorumNode>)
        ensures
            r matches Some(n) && n@ == node_of_id(node_id@),
    {
        Some(QuorumNode { node_id: node_id.clone(), ip_addr: None })
    }
}

/// Builds local nodes from their description files, sharing one node for
/// each id named.
pub struct LocalNodeInfoBuilderFromFile {
    pub nodes: Vec<QuorumNode>,
    /// The directory of the description files, below the node-info
    /// directory of the test data.
    pub quorum_dir: String,
}

impl LocalNodeInfoBuilderFromFile {
    /// Every node known is the one its id names.
    pub open spec fn wf(&self) -> bool {
        forall|i: int| 0 <= i < self.nodes@.len() ==> (#[trigger] self.nodes@[i])@ == node_of_id(
            self.nodes@[i].node_id@,
        )
    }

    pub fn new(quorum_dir_path: &str) -> (r: Self)
        ensures
            r.wf(),
            r.nodes@.len() == 0,
            r.quorum_dir@ == quorum_dir_path@,
    {
        LocalNodeInfoBuilderFromFile { nodes: Vec::new(), quorum_dir: quorum_dir_path.to_owned() }
    }

    /// The known node with id `id`.
    fn known_node(&self, id: &NodeID) -> (r: Option<QuorumNode>)
        requires
            self.wf(),
        ensures
            r matches Some(n) ==> n@ == node_of_id(id@),
            r is None ==> forall|i: int| 0 <= i < self.nodes@.len() ==> self.nodes@[i].node_id@ != id@,
    {
        let mut i: usize = 0;
        while i < self.nodes.len()
            invariant
                i <= self.nodes@.len(),
                self.wf(),
                forall|k: int| 0 <= k < i ==> self.nodes@[k].node_id@ != id@,
            decreases self.nodes@.len() - i,
        {
            if self.nodes[i].node_id == *id {
                return Some(self.nodes[i].clone());
            }
            i = i + 1;
        }
        None
    }

    /// The node named `id`, made and remembered the first time.
    fn node_for(&mut self, id: &NodeID) -> (r: Option<QuorumNode>)
        requires
            old(self).wf(),
        ensures
            final(self).wf(),
            final(self).quorum_dir == old(self).quorum_dir,
            r matches Some(n) && n@ == node_of_id(id@),
    {
        match self.known_node(id) {
            Some(n) => Some(n),
            None => match QuorumNode::from_toml(id) {
                Some(n) => {
                    self.nodes.push(n.clone());
                    Some(n)
                },
                None => None,
            },
        }
    }

    /// The local node a description names: its quorum set has a slice of the
    /// named nodes for each list of ids, and threshold 0.
    pub fn build_local_info_from_toml(&mut self, toml_info: LocalNodeInfoToml) -> (r: Option<LocalNodeInfo>)
        requires
            old(self).wf(),
        ensures
            final(self).wf(),
            final(self).quorum_dir == old(self).quorum_dir,
            r matches Some(info) && info.is_validator == toml_info.is_validator && info.node_id
                == toml_info.node_id && info.quorum_set.threshold == 0
                && slice_id_lists(info.quorum_set@) == toml_info.quorum_set@.map_values(
                |s: Vec<NodeID>| s@.map_values(|n: NodeID| n@),
            ) && forall|k: int, j: int|
                0 <= k < info.quorum_set@.slices.len() && 0 <= j < info.quorum_set@.slices[k].len()
                    ==> #[trigger] info.quorum_set@.slices[k][j] == node_of_id(
                    info.quorum_set@.slices[k][j].node_id,
                ),
    {
        let mut slices: Vec<crate::application::quorum::QuorumSlice> = Vec::new();
        let mut i: usize = 0;
        while i < toml_info.quorum_set.len()
            invariant
                i <= toml_info.quorum_set@.len(),
                self.wf(),
                self.quorum_dir == old(self).quorum_dir,
                slices@.len() == i,
                forall|k: int|
                    0 <= k < i ==> (#[trigger] slices@[k])@ == toml_info.quorum_set@[k]@.map_values(
                        |n: NodeID| node_of_id(n@),
                    ),
            decreases toml_info.quorum_set@.len() - i,
        {
            let mut data: Vec<QuorumNode> = Vec::new();
            let mut j: usize = 0;
            while j < toml_info.quorum_set[i].len()
                invariant
                    i < toml_info.quorum_set@.len(),
                    j <= toml_info.quorum_set@[i as int]@.len(),
                    self.wf(),
                    self.quorum_dir == old(self).quorum_dir,
                    data@.len() == j,
                    forall|k: int|
                        0 <= k < j ==> (#[trigger] data@[k])@ == node_of_id(
                            toml_info.quorum_set@[i as int]@[k]@,
                        ),
                decreases toml_info.quorum_set@[i as int]@.len() - j,
            {
                match self.node_for(&toml_info.quorum_set[i][j]) {
                    Some(n) => {
                        data.push(n);
                    },
                    None => {
                        return None;
                    },
                }
                j = j + 1;
            }
            let slice = crate::application::quorum::QuorumSlice { data };
            assert(slice@ =~= toml_info.quorum_set@[i as int]@.map_values(|n: NodeID| node_of_id(n@)));
            slices.push(slice);
            i = i + 1;
        }
        match self.node_for(&toml_info.node_id) {
            Some(_) => {},
            None => {
                return None;
            },
        }
        let quorum_set = QuorumSet { slices, threshold: 0 };
        proof {
            assert(slice_id_lists(quorum_set@) =~= toml_info.quorum_set@.map_values(
                |s: Vec<NodeID>| s@.map_values(|n: NodeID| n@),
            )) by {
                assert forall|k: int| 0 <= k < quorum_set@.slices.len() implies #[trigger] slice_id_lists(quorum_set@)[k]
                    =~= toml_info.quorum_set@.map_values(
                    |s: Vec<NodeID>| s@.map_values(|n: NodeID| n@),
                )[k] by {
                    assert(quorum_set@.slices[k] == slices@[k]@);
                }
            }
        }
        Some(LocalNodeInfo::from_toml_info(toml_info, quorum_set))
    }
}

} // verus!
