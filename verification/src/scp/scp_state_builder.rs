use vstd::prelude::*;

use crate::scp::envelope::SCPEnvelopeID;
use crate::scp::nomination_protocol::{nomination_wf, NominationProtocolState};
use crate::utils::node_map::{NodeMap, NodeSet};
use crate::utils::value_set::ValueSet;

verus! {

/// Collects the fields of a `NominationProtocolState`; `build` defaults the
/// ones not given.
pub struct NominationProtocolStateBuilder {
    pub round_number: Option<u64>,
    pub votes: Option<ValueSet>,
    pub accepted: Option<ValueSet>,
    pub candidates: Option<ValueSet>,
    pub latest_nominations: Option<NodeMap>,
    pub latest_envelope: Option<SCPEnvelopeID>,
    pub round_leaders: Option<NodeSet>,
    pub nomination_started: Option<bool>,
    pub latest_composite_candidate: Option<Option<u64>>,
    pub previous_value: Option<u64>,
    pub num_timeouts: Option<u64>,
    pub timed_out: Option<bool>,
}

pub open spec fn builder_empty(b: NominationProtocolStateBuilder) -> bool {
    &&& b.round_number is None
    &&& b.votes is None
    &&& b.accepted is None
    &&& b.candidates is None
    &&& b.latest_nominations is None
    &&& b.latest_envelope is None
    &&& b.round_leaders is None
    &&& b.nomination_started is None
    &&& b.latest_composite_candidate is None
    &&& b.previous_value is None
    &&& b.num_timeouts is None
    &&& b.timed_out is None
}

impl Default for NominationProtocolStateBuilder {
    fn default() -> (b: Self)
        ensures
            builder_empty(b),
    {
        NominationProtocolStateBuilder {
            round_number: None,
            votes: None,
            accepted: None,
            candidates: None,
            latest_nominations: None,
            latest_envelope: None,
            round_leaders: None,
            nomination_started: None,
            latest_composite_candidate: None,
            previous_value: None,
            num_timeouts: None,
            timed_out: None,
        }
    }
}

impl NominationProtocolStateBuilder {
    pub fn new() -> (b: Self)
        ensures
            builder_empty(b),
    {
        Self::default()
    }

    pub fn round_number(self, round_number: Option<u64>) -> (b: Self)
        ensures
            b == (NominationProtocolStateBuilder { round_number, ..self }),
    {
        NominationProtocolStateBuilder { round_number, ..self }
    }

    pub fn votes(self, votes: ValueSet) -> (b: Self)
        ensures
            b == (NominationProtocolStateBuilder { votes: Some(votes), ..self }),
    {
        NominationProtocolStateBuilder { votes: Some(votes), ..self }
    }

    pub fn accepted(self, accepted: ValueSet) -> (b: Self)
        ensures
            b == (NominationProtocolStateBuilder { accepted: Some(accepted), ..self }),
    {
        NominationProtocolStateBuilder { accepted: Some(accepted), ..self }
    }

    pub fn candidates(self, candidates: ValueSet) -> (b: Self)
        ensures
            b == (NominationProtocolStateBuilder { candidates: Some(candidates), ..self }),
    {
        NominationProtocolStateBuilder { candidates: Some(candidates), ..self }
    }

    pub fn latest_nominations(self, latest_nomination: NodeMap) -> (b: Self)
        ensures
            b == (NominationProtocolStateBuilder {
                latest_nominations: Some(latest_nomination),
                ..self
            }),
    {
        NominationProtocolStateBuilder { latest_nominations: Some(latest_nomination), ..self }
    }

    pub fn latest_envelope(self, latest_envelope: SCPEnvelopeID) -> (b: Self)
        ensures
            b == (NominationProtocolStateBuilder { latest_envelope: Some(latest_envelope), ..self }),
    {
        NominationProtocolStateBuilder { latest_envelope: Some(latest_envelope), ..self }
    }

    pub fn round_leaders(self, round_leaders: NodeSet) -> (b: Self)
        ensures
            b == (NominationProtocolStateBuilder { round_leaders: Some(round_leaders), ..self }),
    {
        NominationProtocolStateBuilder { round_leaders: Some(round_leaders), ..self }
    }

    pub fn nomination_started(self, nomination_started: bool) -> (b: Self)
        ensures
            b == (NominationProtocolStateBuilder {
                nomination_started: Some(nomination_started),
                ..self
            }),
    {
        NominationProtocolStateBuilder { nomination_started: Some(nomination_started), ..self }
    }

    pub fn latest_composite_candidate(self, latest_composite_candidate: Option<u64>) -> (b: Self)
        ensures
            b == (NominationProtocolStateBuilder {
                latest_composite_candidate: Some(latest_composite_candidate),
                ..self
            }),
    {
        NominationProtocolStateBuilder {
            latest_composite_candidate: Some(latest_composite_candidate),
            ..self
        }
    }

    pub fn previous_value(self, previous_value: u64) -> (b: Self)
        ensures
            b == (NominationProtocolStateBuilder { previous_value: Some(previous_value), ..self }),
    {
        NominationProtocolStateBuilder { previous_value: Some(previous_value), ..self }
    }

    pub fn num_timeouts(self, num_timeouts: u64) -> (b: Self)
        ensures
            b == (NominationProtocolStateBuilder { num_timeouts: Some(num_timeouts), ..self }),
    {
        NominationProtocolStateBuilder { num_timeouts: Some(num_timeouts), ..self }
    }

    pub fn timed_out(self, timed_out: bool) -> (b: Self)
        ensures
            b == (NominationProtocolStateBuilder { timed_out: Some(timed_out), ..self }),
    {
        NominationProtocolStateBuilder { timed_out: Some(timed_out), ..self }
    }

    /// The state with the given fields, and the default for the others: 0,
    /// empty collections, `false`, no envelope and no candidate.
    pub fn build(self) -> (s: NominationProtocolState)
        requires
            self.votes matches Some(v) ==> v.wf(),
            self.accepted matches Some(v) ==> v.wf(),
            self.candidates matches Some(v) ==> v.wf(),
            self.latest_nominations matches Some(m) ==> m.wf(),
            self.round_leaders matches Some(m) ==> m.wf(),
        ensures
            nomination_wf(s),
            s.round_number == match self.round_number {
                Some(n) => n,
                None => 0,
            },
            match self.votes {
                Some(v) => s.votes == v,
                None => s.votes@ == Set::<u64>::empty(),
            },
            match self.accepted {
                Some(v) => s.accepted == v,
                None => s.accepted@ == Set::<u64>::empty(),
            },
            match self.candidates {
                Some(v) => s.candidates == v,
                None => s.candidates@ == Set::<u64>::empty(),
            },
            match self.latest_nominations {
                Some(m) => s.latest_nominations == m,
                None => s.latest_nominations.keys().len() == 0,
            },
            s.latest_envelope == self.latest_envelope,
            match self.round_leaders {
                Some(m) => s.round_leaders == m,
                None => s.round_leaders.keys().len() == 0,
            },
            s.nomination_started == match self.nomination_started {
                Some(b) => b,
                None => false,
            },
            s.latest_composite_candidate == match self.latest_composite_candidate {
                Some(c) => c,
                None => None,
            },
            s.previous_value == match self.previous_value {
                Some(v) => v,
                None => 0,
            },
            s.num_timeouts == match self.num_timeouts {
                Some(n) => n,
                None => 0,
            },
            s.timed_out == match self.timed_out {
                Some(b) => b,
                None => false,
            },
    {
        NominationProtocolState {
            round_number: match self.round_number {
                Some(n) => n,
                None => 0,
            },
            votes: match self.votes {
                Some(v) => v,
                None => ValueSet::new(),
            },
            accepted: match self.accepted {
                Some(v) => v,
                None => ValueSet::new(),
            },
            candidates: match self.candidates {
                Some(v) => v,
                None => ValueSet::new(),
            },
            latest_nominations: match self.latest_nominations {
                Some(m) => m,
                None => NodeMap::new(),
            },
            latest_envelope: self.latest_envelope,
            round_leaders: match self.round_leaders {
                Some(m) => m,
                None => NodeSet::new(),
            },
            nomination_started: match self.nomination_started {
                Some(b) => b,
                None => false,
            },
            latest_composite_candidate: match self.latest_composite_candidate {
                Some(c) => c,
                None => None,
            },
            previous_value: match self.previous_value {
                Some(v) => v,
                None => 0,
            },
            num_timeouts: match self.num_timeouts {
                Some(n) => n,
                None => 0,
            },
            timed_out: match self.timed_out {
                Some(b) => b,
                None => false,
            },
        }
    }
}

} // verus!
