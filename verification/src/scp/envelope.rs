use vstd::prelude::*;

use std::collections::{BTreeMap, VecDeque};

use crate::application::quorum::{QuorumSet, QuorumSetView};
use crate::crypto::{blake2b_512, blake2b_digest, enc_str, enc_statement, enc_u64, put_hash,
    put_statement, put_str, put_u64, test_default_blake2};
use crate::scp::ballot_protocol::SCPBallot;
use crate::scp::scp::NodeID;
use crate::scp::scp_driver::HashValue;
use crate::scp::statement::{
    quorum_set_spec, SCPStatement, SCPStatementPrepare, StatementView,
};

verus! {

broadcast use vstd::std_specs::btree::group_btree_axioms;

/// Envelopes are identified by the time, in nanoseconds since the UNIX epoch,
/// at which they were stored.
pub type SCPEnvelopeID = u128;

/// A statement signed by the node that made it, for a slot.
pub struct SCPEnvelope {
    pub statement: SCPStatement,
    pub node_id: NodeID,
    pub slot_index: u64,
    pub signature: HashValue,
}

pub struct EnvelopeView {
    pub statement: StatementView,
    pub node_id: Seq<char>,
    pub slot_index: u64,
    pub signature: Seq<u8>,
}

impl View for SCPEnvelope {
    type V = EnvelopeView;

    open spec fn view(&self) -> EnvelopeView {
        EnvelopeView {
            statement: self.statement@,
            node_id: self.node_id@,
            slot_index: self.slot_index,
            signature: self.signature@,
        }
    }
}

pub open spec fn enc_envelope(e: EnvelopeView) -> Seq<u8> {
    enc_statement(e.statement) + enc_str(e.node_id) + enc_u64(e.slot_index) + e.signature
}

/// The zero signature of envelopes that are not signed.
pub open spec fn zero_signature() -> Seq<u8> {
    Seq::new(64, |i: int| 0u8)
}

impl Clone for SCPEnvelope {
    fn clone(&self) -> (r: Self)
        ensures
            r@ == self@,
    {
        SCPEnvelope {
            statement: self.statement.clone(),
            node_id: self.node_id.clone(),
            slot_index: self.slot_index,
            signature: self.signature,
        }
    }
}

impl SCPEnvelope {
    pub fn new(statement: SCPStatement, node_id: NodeID, slot_index: u64, signature: HashValue) -> (e:
        Self)
        ensures
            e.statement == statement,
            e.node_id == node_id,
            e.slot_index == slot_index,
            e.signature == signature,
    {
        SCPEnvelope { statement, node_id, slot_index, signature }
    }

    pub fn get_statement(&self) -> (s: &SCPStatement)
        ensures
            *s == self.statement,
    {
        &self.statement
    }

    pub fn get_quorum_set(&self) -> (q: Option<&QuorumSet>)
        ensures
            match q {
                Some(q) => quorum_set_spec(self.statement@) == Some(q@),
                None => quorum_set_spec(self.statement@) is None,
            },
    {
        self.statement.quorum_set()
    }

    /// The BLAKE2b digest of the envelope's encoding.
    pub fn to_blake2(&self) -> (h: HashValue)
        ensures
            h@ == blake2b_digest(enc_envelope(self@)),
    {
        let mut out: Vec<u8> = Vec::new();
        put_statement(&mut out, &self.statement);
        put_str(&mut out, &self.node_id);
        put_u64(&mut out, self.slot_index);
        put_hash(&mut out, &self.signature);
        assert(out@ =~= enc_envelope(self@));
        blake2b_512(&out)
    }

    pub fn eq_envelope(&self, other: &Self) -> (r: bool)
        ensures
            r == (self@ == other@),
    {
        self.statement.eq_statement(&other.statement) && self.node_id == other.node_id
            && self.slot_index == other.slot_index && crate::scp::statement::hash_eq(
            &self.signature,
            &other.signature,
        )
    }

    /// A PREPARE envelope of `node_id` for slot 0 with default ballots, used in tests.
    pub fn test_make_scp_envelope(node_id: NodeID) -> (e: Self)
        ensures
            e.node_id == node_id,
            e.slot_index == 0,
            e.signature@ == zero_signature(),
            (e.statement matches SCPStatement::Prepare(st) && st.ballot
                == SCPBallot::default_spec() && st.prepared == Some(SCPBallot::default_spec())
                && st.prepared_prime == Some(SCPBallot::default_spec()) && st.num_commit == 0
                && st.num_high == 0 && st.quorum_set is None && st.quorum_set_hash@
                == zero_signature()),
    {
        SCPEnvelope {
            statement: SCPStatement::Prepare(
                SCPStatementPrepare {
                    quorum_set_hash: [0u8; 64],
                    ballot: SCPBallot::default(),
                    prepared: Some(SCPBallot::default()),
                    prepared_prime: Some(SCPBallot::default()),
                    num_commit: 0,
                    num_high: 0,
                    quorum_set: None,
                },
            ),
            node_id: node_id,
            slot_index: 0,
            signature: test_default_blake2(),
        }
    }

    /// Stores, in `envelope_controller`, a PREPARE envelope of `node_id` for slot
    /// 0 that names the hash of `quorum_set`; used in tests.
    pub fn test_make_scp_envelope_from_quorum(
        node_id: NodeID,
        quorum_set: &QuorumSet,
        envelope_controller: &mut SCPEnvelopeController,
    ) -> (id: SCPEnvelopeID)
        ensures
            final(envelope_controller).envs_to_emit@ == old(envelope_controller).envs_to_emit@,
            final(envelope_controller).envelopes.0@.contains_key(id),
            final(envelope_controller).envelopes.0@ == old(envelope_controller).envelopes.0@.insert(
                id,
                final(envelope_controller).envelopes.0@[id],
            ),
            ({
                let e = final(envelope_controller).envelopes.0@[id]@;
                &&& e.node_id == node_id@
                &&& e.slot_index == 0
                &&& e.signature == zero_signature()
                &&& (e.statement matches StatementView::Prepare(st) && st.quorum_set_hash
                    == blake2b_digest(crate::crypto::enc_qset(quorum_set@)) && st.ballot
                    == SCPBallot::default_spec() && st.prepared == Some(SCPBallot::default_spec())
                    && st.prepared_prime == Some(SCPBallot::default_spec()) && st.num_commit == 0
                    && st.num_high == 0 && st.quorum_set is None)
            }),
    {
        let env = SCPEnvelope {
            statement: SCPStatement::Prepare(
                SCPStatementPrepare {
                    quorum_set_hash: quorum_set.hash_value(),
                    ballot: SCPBallot::default(),
                    prepared: Some(SCPBallot::default()),
                    prepared_prime: Some(SCPBallot::default()),
                    num_commit: 0,
                    num_high: 0,
                    quorum_set: None,
                },
            ),
            node_id: node_id,
            slot_index: 0,
            signature: test_default_blake2(),
        };
        envelope_controller.add_envelope(env)
    }
}

/// Reads the system clock (`SystemTime::now`) and returns the nanoseconds
/// since the UNIX epoch, or 0 for a clock set before it. Nothing is promised of
/// the value: it is the time.
#[verifier::external_body]
pub(crate) fn current_time_nanos() -> u128 {
    match std::time::SystemTime::now().duration_since(std::time::UNIX_EPOCH) {
        Ok(d) => d.as_nanos(),
        Err(_) => 0,
    }
}

/// All envelopes a node has stored, by id.
pub struct EnvMap(pub BTreeMap<SCPEnvelopeID, SCPEnvelope>);

impl EnvMap {
    pub fn default() -> (m: Self)
        ensures
            m.0@ == Map::<SCPEnvelopeID, SCPEnvelope>::empty(),
    {
        EnvMap(BTreeMap::new())
    }

    /// Stores a copy of `envelope` under the current time, which is returned.
    pub fn add_envelope(&mut self, envelope: SCPEnvelope) -> (id: SCPEnvelopeID)
        ensures
            final(self).0@.contains_key(id),
            final(self).0@[id]@ == envelope@,
            final(self).0@ == old(self).0@.insert(id, final(self).0@[id]),
    {
        let timestamp = current_time_nanos();
        self.0.insert(timestamp, envelope.clone());
        timestamp
    }

    pub fn get(&self, id: &SCPEnvelopeID) -> (r: Option<&SCPEnvelope>)
        ensures
            match r {
                Some(e) => self.0@.contains_key(*id) && self.0@[*id] == *e,
                None => !self.0@.contains_key(*id),
            },
    {
        self.0.get(id)
    }
}

/// The envelopes of a node and the queue of those it has to send.
pub struct SCPEnvelopeController {
    pub envs_to_emit: VecDeque<SCPEnvelopeID>,
    pub envelopes: EnvMap,
}

impl SCPEnvelopeController {
    pub fn new() -> (c: Self)
        ensures
            c.envs_to_emit@ == Seq::<SCPEnvelopeID>::empty(),
            c.envelopes.0@ == Map::<SCPEnvelopeID, SCPEnvelope>::empty(),
    {
        SCPEnvelopeController { envs_to_emit: VecDeque::new(), envelopes: EnvMap::default() }
    }

    pub fn pop_next_env_to_emit(&mut self) -> (r: Option<SCPEnvelopeID>)
        ensures
            final(self).envelopes == old(self).envelopes,
            old(self).envs_to_emit@.len() == 0 ==> r is None && final(self).envs_to_emit@
                == old(self).envs_to_emit@,
            old(self).envs_to_emit@.len() > 0 ==> r == Some(old(self).envs_to_emit@[0])
                && final(self).envs_to_emit@ == old(self).envs_to_emit@.drop_first(),
    {
        self.envs_to_emit.pop_front()
    }

    pub fn add_env_to_emit(&mut self, env_id: &SCPEnvelopeID)
        ensures
            final(self).envelopes == old(self).envelopes,
            final(self).envs_to_emit@ == old(self).envs_to_emit@.push(*env_id),
    {
        self.envs_to_emit.push_back(*env_id);
    }

    /// Stores a copy of `envelope` under the current time, which is returned.
    pub fn add_envelope(&mut self, envelope: SCPEnvelope) -> (id: SCPEnvelopeID)
        ensures
            final(self).envs_to_emit == old(self).envs_to_emit,
            final(self).envelopes.0@.contains_key(id),
            final(self).envelopes.0@[id]@ == envelope@,
            final(self).envelopes.0@ == old(self).envelopes.0@.insert(
                id,
                final(self).envelopes.0@[id],
            ),
    {
        self.envelopes.add_envelope(envelope)
    }

    pub fn get_envelope(&self, env_id: &SCPEnvelopeID) -> (r: Option<&SCPEnvelope>)
        ensures
            match r {
                Some(e) => self.envelopes.0@.contains_key(*env_id) && self.envelopes.0@[*env_id]
                    == *e,
                None => !self.envelopes.0@.contains_key(*env_id),
            },
    {
        self.envelopes.get(env_id)
    }
}

} // verus!

verus! {

/// Storing an envelope and reading it back gives it, and every other stored
/// envelope stays as it was.
pub proof fn law_env_map_read_after_write(
    before: Map<SCPEnvelopeID, SCPEnvelope>,
    after: Map<SCPEnvelopeID, SCPEnvelope>,
    id: SCPEnvelopeID,
    e: SCPEnvelope,
    other: SCPEnvelopeID,
)
    requires
        after == before.insert(id, e),
    ensures
        after.contains_key(id) && after[id] == e,
        other != id ==> (after.contains_key(other) == before.contains_key(other)),
        other != id && before.contains_key(other) ==> after[other] == before[other],
{
}

} // verus!

verus! {

/// Made by whoever knows how to wrap a vote in an envelope for a slot.
pub trait MakeEnvelope {
    fn new_nomination_envelope(&self, slot_index: usize, vote: u64) -> SCPEnvelope;
}

} // verus!

verus! {

/// Envelopes that carry the same statement from different senders are
/// encoded differently, so their digests are taken of different bytes.
pub proof fn law_envelope_encoding_distinguishes_senders(a: EnvelopeView, b: EnvelopeView)
    requires
        a.statement == b.statement,
        a.node_id != b.node_id,
        vstd::utf8::encode_utf8(a.node_id).len() <= u64::MAX,
        vstd::utf8::encode_utf8(b.node_id).len() <= u64::MAX,
    ensures
        enc_envelope(a) != enc_envelope(b),
{
    let s = enc_statement(a.statement);
    let ra = enc_u64(a.slot_index) + a.signature;
    let rb = enc_u64(b.slot_index) + b.signature;
    crate::crypto::law_string_encoding_prefix_free(a.node_id, b.node_id, ra, rb);
    let ea = enc_envelope(a);
    let eb = enc_envelope(b);
    if ea == eb {
        assert(ea.subrange(s.len() as int, ea.len() as int) =~= enc_str(a.node_id) + ra);
        assert(eb.subrange(s.len() as int, eb.len() as int) =~= enc_str(b.node_id) + rb);
        assert(false);
    }
}

} // verus!
