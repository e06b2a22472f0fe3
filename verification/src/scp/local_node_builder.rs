use vstd::prelude::*;

use crate::application::quorum::QuorumSet;
use crate::scp::local_node::LocalNodeInfo;
use crate::scp::scp::NodeID;

verus! {

/// Collects the parts of a `LocalNodeInfo`; `build` checks that all are there.
pub struct LocalNodeBuilder {
    pub is_validator: Option<bool>,
    pub quorum_set: Option<QuorumSet>,
    pub node_id: Option<NodeID>,
}

impl Default for LocalNodeBuilder {
    fn default() -> (b: Self)
        ensures
            b.is_validator is None,
            b.quorum_set is None,
            b.node_id is None,
    {
        LocalNodeBuilder { is_validator: None, quorum_set: None, node_id: None }
    }
}

impl LocalNodeBuilder {
    pub fn new() -> (b: Self)
        ensures
            b.is_validator is None,
            b.quorum_set is None,
            b.node_id is None,
    {
        Self::default()
    }

    pub fn is_validator(self, is_validator: bool) -> (b: Self)
        ensures
            b.is_validator == Some(is_validator),
            b.quorum_set == self.quorum_set,
            b.node_id == self.node_id,
    {
        LocalNodeBuilder { is_validator: Some(is_validator), ..self }
    }

    pub fn quorum_set(self, quorum_set: QuorumSet) -> (b: Self)
        ensures
            b.is_validator == self.is_validator,
            b.quorum_set == Some(quorum_set),
            b.node_id == self.node_id,
    {
        LocalNodeBuilder { quorum_set: Some(quorum_set), ..self }
    }

    pub fn node_id(self, node_id: NodeID) -> (b: Self)
        ensures
            b.is_validator == self.is_validator,
            b.quorum_set == self.quorum_set,
            b.node_id == Some(node_id),
    {
        LocalNodeBuilder { node_id: Some(node_id), ..self }
    }

    /// The local node, or the first part that is missing.
    pub fn build(self) -> (r: Result<LocalNodeInfo, &'static str>)
        ensures
            self.is_validator is None ==> r == Err::<LocalNodeInfo, &'static str>(
                "Missing is_validator.",
            ),
            self.is_validator is Some && self.quorum_set is None ==> r == Err::<
                LocalNodeInfo,
                &'static str,
            >("Missing quorum set."),
            self.is_validator is Some && self.quorum_set is Some && self.node_id is None ==> r
                == Err::<LocalNodeInfo, &'static str>("Missing node id."),
            self.is_validator is Some && self.quorum_set is Some && self.node_id is Some ==> r
                == Ok::<LocalNodeInfo, &'static str>(
                LocalNodeInfo {
                    is_validator: self.is_validator->0,
                    quorum_set: self.quorum_set->0,
                    node_id: self.node_id->0,
                },
            ),
    {
        match (self.is_validator, self.quorum_set, self.node_id) {
            (None, _, _) => Err("Missing is_validator."),
            (Some(_), None, _) => Err("Missing quorum set."),
            (Some(_), Some(_), None) => Err("Missing node id."),
            (Some(v), Some(q), Some(id)) => Ok(LocalNodeInfo::new(v, q, id)),
        }
    }
}

} // verus!
