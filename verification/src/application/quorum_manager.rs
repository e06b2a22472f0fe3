use vstd::prelude::*;

use crate::application::quorum::{QuorumSet, QuorumSetView};
use crate::scp::scp_driver::HashValue;
use crate::scp::statement::{hash_eq, quorum_set_hash_spec, quorum_set_spec, SCPStatement, StatementView};

verus! {

/// The quorum sets a node has learnt, each with its hash.
pub struct QuorumManager {
    pub quorum_sets: Vec<(HashValue, QuorumSet)>,
}

pub open spec fn entry_view(e: (HashValue, QuorumSet)) -> (Seq<u8>, QuorumSetView) {
    (e.0@, e.1@)
}

/// The first quorum set of `entries`, from index `i` on, recorded under hash `h`.
pub open spec fn find_by_hash(entries: Seq<(Seq<u8>, QuorumSetView)>, h: Seq<u8>, i: int) -> Option<
    QuorumSetView,
>
    decreases entries.len() - i,
{
    if i < 0 || i >= entries.len() {
        None
    } else if entries[i].0 == h {
        Some(entries[i].1)
    } else {
        find_by_hash(entries, h, i + 1)
    }
}

impl QuorumManager {
    pub open spec fn entries(&self) -> Seq<(Seq<u8>, QuorumSetView)> {
        self.quorum_sets@.map_values(|e: (HashValue, QuorumSet)| entry_view(e))
    }

    /// The quorum set of the node that made statement `s`: the one the
    /// statement carries, else the first learnt one under the statement's hash.
    pub open spec fn quorum_set_of(&self, s: StatementView) -> Option<QuorumSetView> {
        match quorum_set_spec(s) {
            Some(q) => Some(q),
            None => find_by_hash(self.entries(), quorum_set_hash_spec(s), 0),
        }
    }

    pub fn new() -> (m: Self)
        ensures
            m.entries() == Seq::<(Seq<u8>, QuorumSetView)>::empty(),
    {
        let m = QuorumManager { quorum_sets: Vec::new() };
        assert(m.entries() =~= Seq::<(Seq<u8>, QuorumSetView)>::empty());
        m
    }

    /// Learns a quorum set under its hash.
    pub fn add_quorum_set(&mut self, quorum_set: QuorumSet)
        ensures
            final(self).entries() == old(self).entries().push(
                (crate::crypto::blake2b_digest(crate::crypto::enc_qset(quorum_set@)), quorum_set@),
            ),
    {
        let h = quorum_set.hash_value();
        self.quorum_sets.push((h, quorum_set));
        assert(self.entries() =~= old(self).entries().push(
            (crate::crypto::blake2b_digest(crate::crypto::enc_qset(quorum_set@)), quorum_set@),
        ));
    }

    /// The quorum set of the node that made `st`.
    pub fn get_quorum_set<'a>(&'a self, st: &'a SCPStatement) -> (r: Option<&'a QuorumSet>)
        ensures
            match r {
                Some(q) => self.quorum_set_of(st@) == Some(q@),
                None => self.quorum_set_of(st@) is None,
            },
    {
        match st.quorum_set() {
            Some(q) => {
                return Some(q);
            },
            None => {
                assert(quorum_set_spec(st@) is None);
            },
        }
        let h = st.quorum_set_hash_value();
        let mut i: usize = 0;
        while i < self.quorum_sets.len()
            invariant
                i <= self.quorum_sets@.len(),
                h@ == quorum_set_hash_spec(st@),
                quorum_set_spec(st@) is None,
                find_by_hash(self.entries(), h@, 0) == find_by_hash(self.entries(), h@, i as int),
            decreases self.quorum_sets@.len() - i,
        {
            assert(self.entries()[i as int] == entry_view(self.quorum_sets@[i as int]));
            if hash_eq(&self.quorum_sets[i].0, &h) {
                assert(find_by_hash(self.entries(), h@, i as int) == Some(
                    self.quorum_sets@[i as int].1@,
                ));
                return Some(&self.quorum_sets[i].1);
            }
            i = i + 1;
        }
        None
    }
}

} // verus!
