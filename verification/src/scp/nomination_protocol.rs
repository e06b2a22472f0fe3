use vstd::prelude::*;

use crate::scp::envelope::{SCPEnvelope, SCPEnvelopeController, SCPEnvelopeID};
use crate::scp::scp::NodeID;
use crate::scp::statement::{nominate_older_spec, NominateView, SCPStatement, SCPStatementNominate, StatementView};
use crate::utils::node_map::{NodeMap, NodeSet};
use crate::utils::value_set::ValueSet;
use crate::application::quorum_manager::QuorumManager;
use crate::scp::scp_driver::{federated_accept_spec, HerderDriver, SlotDriver, ValidationLevel};
use crate::scp::statement_filter::StatementFilter;
use crate::scp::ballot_protocol::{ballot_frame, bump_effect, driver_frame, BallotProtocolState, SCPBallot};
use crate::scp::scp::EnvelopeState;
use crate::scp::scp_driver::SlotStateTimer;
use crate::scp::queue::{RetryNominateArg, SlotJob, SlotTask};

verus! {

broadcast use vstd::std_specs::btree::group_btree_axioms;

/// What can be nominated. The protocol here runs on `u64` values.
pub trait NominationValue {
}

impl NominationValue for u64 {
}

/// A nomination value that carries nothing.
#[derive(Clone, Copy, PartialEq, Eq, Structural, Debug)]
pub struct SCPNominationValue {}

impl NominationValue for SCPNominationValue {
}

/// The nomination protocol state of a slot.
pub struct NominationProtocolState {
    pub round_number: u64,
    pub votes: ValueSet,
    pub accepted: ValueSet,
    /// The values confirmed nominated.
    pub candidates: ValueSet,
    /// The id of the latest NOMINATE envelope of each node.
    pub latest_nominations: NodeMap,
    pub latest_envelope: Option<SCPEnvelopeID>,
    pub round_leaders: NodeSet,
    pub nomination_started: bool,
    pub latest_composite_candidate: Option<u64>,
    pub previous_value: u64,
    pub num_timeouts: u64,
    pub timed_out: bool,
}

/// The well-formedness of the collections of the state.
pub open spec fn nomination_wf(s: NominationProtocolState) -> bool {
    &&& s.votes.wf()
    &&& s.accepted.wf()
    &&& s.candidates.wf()
    &&& s.latest_nominations.wf()
    &&& s.round_leaders.wf()
}

/// The NOMINATE statement stored under `id`, if that is what is stored there.
pub open spec fn stored_nomination(env: Map<SCPEnvelopeID, SCPEnvelope>, id: SCPEnvelopeID) -> Option<
    NominateView,
> {
    if env.contains_key(id) {
        match env[id].statement@ {
            StatementView::Nominate(st) => Some(st),
            _ => None,
        }
    } else {
        None
    }
}

/// The state of a slot's nomination protocol before anything happened.
pub open spec fn nomination_state_is_default(s: NominationProtocolState) -> bool {
    &&& nomination_wf(s)
    &&& s.round_number == 0
    &&& s.votes@ == Set::<u64>::empty()
    &&& s.accepted@ == Set::<u64>::empty()
    &&& s.candidates@ == Set::<u64>::empty()
    &&& s.latest_nominations.keys().len() == 0
    &&& s.latest_envelope is None
    &&& s.round_leaders.keys().len() == 0
    &&& !s.nomination_started
    &&& s.latest_composite_candidate is None
    &&& s.previous_value == 0
    &&& s.num_timeouts == 0
    &&& !s.timed_out
}

impl NominationProtocolState {
    pub fn default() -> (s: Self)
        ensures
            nomination_state_is_default(s),
            nomination_wf(s),
            s.round_number == 0,
            s.votes@ == Set::<u64>::empty(),
            s.accepted@ == Set::<u64>::empty(),
            s.candidates@ == Set::<u64>::empty(),
            s.latest_nominations.keys().len() == 0,
            s.latest_envelope is None,
            s.round_leaders.keys().len() == 0,
            !s.nomination_started,
            s.latest_composite_candidate is None,
            s.previous_value == 0,
            s.num_timeouts == 0,
            !s.timed_out,
    {
        NominationProtocolState {
            round_number: 0,
            votes: ValueSet::new(),
            accepted: ValueSet::new(),
            candidates: ValueSet::new(),
            latest_nominations: NodeMap::new(),
            latest_envelope: None,
            round_leaders: NodeSet::new(),
            nomination_started: false,
            latest_composite_candidate: None,
            previous_value: 0,
            num_timeouts: 0,
            timed_out: false,
        }
    }

    /// The default state with `leader_id` as the only round leader.
    pub fn new(leader_id: NodeID) -> (s: Self)
        ensures
            nomination_wf(s),
            forall|q: Seq<char>| #[trigger] s.round_leaders.contains_spec(q) <==> q == leader_id@,
            s.round_number == 0,
            s.votes@ == Set::<u64>::empty(),
            s.accepted@ == Set::<u64>::empty(),
            s.candidates@ == Set::<u64>::empty(),
            s.latest_nominations.keys().len() == 0,
            s.latest_envelope is None,
            !s.nomination_started,
            s.latest_composite_candidate is None,
            !s.timed_out,
    {
        let mut state = Self::default();
        state.round_leaders.insert(leader_id);
        state
    }

    /// The values of a nomination statement: its votes, then its accepted values.
    pub fn get_statement_values(&self, statement: &SCPStatementNominate) -> (r: Vec<u64>)
        ensures
            r@ == statement.votes@ + statement.accepted@,
    {
        let mut ret = crate::scp::statement::clone_values(&statement.votes);
        let mut i: usize = 0;
        let ghost start = ret@;
        while i < statement.accepted.len()
            invariant
                i <= statement.accepted@.len(),
                ret@ == start + statement.accepted@.subrange(0, i as int),
            decreases statement.accepted@.len() - i,
        {
            ret.push(statement.accepted[i]);
            i = i + 1;
            assert(ret@ =~= start + statement.accepted@.subrange(0, i as int));
        }
        assert(statement.accepted@.subrange(0, i as int) =~= statement.accepted@);
        ret
    }

    /// Whether `statement` is newer than the latest stored nomination of
    /// `node_id`; with nothing usable stored, it is.
    pub fn is_newer_statement_for_node(
        &self,
        node_id: &NodeID,
        statement: &SCPStatementNominate,
        envelope_controller: &SCPEnvelopeController,
    ) -> (r: bool)
        requires
            self.latest_nominations.wf(),
        ensures
            r == match self.latest_nominations.get_spec(node_id@) {
                Some(id) => match stored_nomination(envelope_controller.envelopes.0@, id) {
                    Some(last) => nominate_older_spec(last, statement@),
                    None => true,
                },
                None => true,
            },
    {
        match self.latest_nominations.get(node_id) {
            Some(id) => match envelope_controller.get_envelope(&id) {
                Some(env) => match &env.statement {
                    SCPStatement::Nominate(last) => last.is_older_than(statement),
                    _ => true,
                },
                None => true,
            },
            None => true,
        }
    }

    /// Whether a nomination newer than `statement` was already processed
    /// for `node_id`.
    pub fn processed_newer_statement(
        &self,
        node_id: &NodeID,
        statement: &SCPStatementNominate,
        envelope_controller: &SCPEnvelopeController,
    ) -> (r: bool)
        requires
            self.latest_nominations.wf(),
        ensures
            r == match self.latest_nominations.get_spec(node_id@) {
                Some(id) => match stored_nomination(envelope_controller.envelopes.0@, id) {
                    Some(last) => nominate_older_spec(statement@, last),
                    None => false,
                },
                None => false,
            },
    {
        match self.latest_nominations.get(node_id) {
            Some(id) => match envelope_controller.get_envelope(&id) {
                Some(env) => match &env.statement {
                    SCPStatement::Nominate(last) => statement.is_older_than(last),
                    _ => false,
                },
                None => false,
            },
            None => false,
        }
    }

    /// Records `env_id` as the latest nomination of the node that sent it.
    pub fn record_envelope(&mut self, env_id: &SCPEnvelopeID, envelope_controller: &SCPEnvelopeController)
        requires
            nomination_wf(*old(self)),
            envelope_controller.envelopes.0@.contains_key(*env_id),
        ensures
            nomination_wf(*final(self)),
            ({
                let n = envelope_controller.envelopes.0@[*env_id].node_id@;
                &&& final(self).latest_nominations.get_spec(n) == Some(*env_id)
                &&& forall|q: Seq<char>|
                    q != n ==> #[trigger] final(self).latest_nominations.get_spec(q) == old(self).latest_nominations.get_spec(q)
                &&& forall|q: Seq<char>|
                    #[trigger] final(self).latest_nominations.contains_key(q) <==> (q == n || old(self).latest_nominations.contains_key(q))
            }),
            final(self).votes == old(self).votes,
            final(self).accepted == old(self).accepted,
            final(self).candidates == old(self).candidates,
            final(self).round_leaders == old(self).round_leaders,
            final(self).latest_envelope == old(self).latest_envelope,
            final(self).nomination_started == old(self).nomination_started,
            final(self).latest_composite_candidate == old(self).latest_composite_candidate,
            final(self).round_number == old(self).round_number,
            final(self).timed_out == old(self).timed_out,
            final(self).num_timeouts == old(self).num_timeouts,
            final(self).previous_value == old(self).previous_value,
    {
        let env = envelope_controller.get_envelope(env_id).unwrap();
        self.latest_nominations.insert(env.node_id.clone(), *env_id);
    }

    /// Adopts the state of a NOMINATE envelope before nomination starts.
    pub fn set_state_from_envelope(
        &mut self,
        env_id: &SCPEnvelopeID,
        envelope_controller: &SCPEnvelopeController,
    )
        requires
            nomination_wf(*old(self)),
            !old(self).nomination_started,
            stored_nomination(envelope_controller.envelopes.0@, *env_id) is Some,
        ensures
            nomination_wf(*final(self)),
            ({
                let st = stored_nomination(envelope_controller.envelopes.0@, *env_id)->0;
                &&& final(self).accepted@ == old(self).accepted@ + st.accepted.to_set()
                &&& final(self).votes@ == old(self).votes@ + st.votes.to_set()
                &&& final(self).latest_nominations.get_spec(
                    envelope_controller.envelopes.0@[*env_id].node_id@,
                ) == Some(*env_id)
            }),
            final(self).latest_envelope == Some(*env_id),
            final(self).candidates == old(self).candidates,
            final(self).round_leaders == old(self).round_leaders,
            final(self).nomination_started == old(self).nomination_started,
    {
        self.record_envelope(env_id, envelope_controller);
        let env = envelope_controller.get_envelope(env_id).unwrap();
        let statement = env.get_statement();
        let accepted = statement.get_accepted();
        crate::utils::value_set::insert_all(&mut self.accepted, &accepted);
        let votes = statement.get_votes();
        crate::utils::value_set::insert_all(&mut self.votes, &votes);
        self.latest_envelope = Some(*env_id);
    }

    /// The current votes followed by the accepted values, each in increasing order.
    pub fn get_current_votes(&self) -> (r: Vec<u64>)
        ensures
            r@ == self.votes.seq() + self.accepted.seq(),
    {
        let mut votes = self.votes.to_vec();
        let mut acc = self.accepted.to_vec();
        votes.append(&mut acc);
        votes
    }
}

} // verus!

verus! {

impl crate::scp::scp_driver::SlotDriver {
    /// Stops nominating; nothing else changes.
    pub fn stop_nomination(&self, state: &mut NominationProtocolState)
        ensures
            !final(state).nomination_started,
            final(state).round_number == old(state).round_number,
            final(state).votes == old(state).votes,
            final(state).accepted == old(state).accepted,
            final(state).candidates == old(state).candidates,
            final(state).latest_nominations == old(state).latest_nominations,
            final(state).latest_envelope == old(state).latest_envelope,
            final(state).round_leaders == old(state).round_leaders,
            final(state).latest_composite_candidate == old(state).latest_composite_candidate,
            final(state).previous_value == old(state).previous_value,
            final(state).num_timeouts == old(state).num_timeouts,
            final(state).timed_out == old(state).timed_out,
    {
        state.nomination_started = false;
    }
}

} // verus!

verus! {

/// What `DefaultHasher` gives for a value (within one build of std).
pub uninterp spec fn default_hash(value: u64) -> u64;

/// The value to vote for in place of `value`, given how the herder judged it
/// and what it extracted from it: `value` itself when it may be voted for or
/// is fully validated, else the extracted value.
pub open spec fn nomination_choice_spec(value: u64, level: ValidationLevel, extracted: Option<
    u64,
>) -> Option<u64> {
    match level {
        ValidationLevel::VoteToNominate => Some(value),
        ValidationLevel::FullyValidated => Some(value),
        _ => extracted,
    }
}

/// The value to accept in place of `value`, given how the herder judged it
/// and what it extracted from it: `value` itself when fully validated, else
/// the extracted value.
pub open spec fn acceptance_choice_spec(value: u64, level: ValidationLevel, extracted: Option<
    u64,
>) -> Option<u64> {
    match level {
        ValidationLevel::FullyValidated => Some(value),
        _ => extracted,
    }
}

/// One step of picking a new vote: a candidate `(value, hash)` replaces the
/// current pick when it is not voted for yet and its hash is higher.
pub open spec fn pick_step(votes: Set<u64>, cur: (u64, Option<u64>), answer: Option<(u64, u64)>) -> (
    u64,
    Option<u64>,
) {
    match answer {
        Some((v, h)) => if !votes.contains(v) && h > cur.0 {
            (h, Some(v))
        } else {
            cur
        },
        None => cur,
    }
}

/// The pick after the first `n` candidates, from hash 0 and no value.
pub open spec fn pick_fold(votes: Set<u64>, answers: Seq<Option<(u64, u64)>>, n: int) -> (
    u64,
    Option<u64>,
)
    decreases n,
{
    if n <= 0 {
        (0, None)
    } else {
        pick_step(votes, pick_fold(votes, answers, n - 1), answers[n - 1])
    }
}

/// The herder's answer for `value` when looking for a new vote: the value to
/// vote for in its place (by `nomination_choice_spec`), with its hash.
pub open spec fn judge_spec<H: HerderDriver>(h: H, value: u64) -> Option<(u64, u64)> {
    let level = h.validate_value_spec(value, true);
    let extracted = match level {
        ValidationLevel::VoteToNominate => None,
        ValidationLevel::FullyValidated => None,
        _ => h.extract_valid_value_spec(value),
    };
    match nomination_choice_spec(value, level, extracted) {
        Some(v) => Some((v, default_hash(v))),
        None => None,
    }
}

/// The herder's answers for `s[i..]`, up to and including the first that
/// has (`stop_on_some`) or has not a value.
pub open spec fn judge_until<H: HerderDriver>(h: H, s: Seq<u64>, stop_on_some: bool, i: int) -> Seq<
    Option<(u64, u64)>,
>
    decreases s.len() - i,
{
    if i < 0 || i >= s.len() {
        Seq::empty()
    } else {
        let a = judge_spec(h, s[i]);
        if (a is Some) == stop_on_some {
            seq![a]
        } else {
            seq![a] + judge_until(h, s, stop_on_some, i + 1)
        }
    }
}

/// The answers a new vote is picked from for a nomination: those for its
/// accepted values up to the first the herder answers for; when there is
/// none, also those for its votes up to the first the herder has no answer
/// for.
pub open spec fn new_value_answers<H: HerderDriver>(h: H, st: NominateView) -> Seq<Option<(u64, u64)>> {
    let a1 = judge_until(h, st.accepted, true, 0);
    if a1.len() > 0 && a1.last() is Some {
        a1
    } else {
        a1 + judge_until(h, st.votes, false, 0)
    }
}

/// The new vote taken from the nomination `st` when `votes` are already
/// voted for.
pub open spec fn new_value_spec<H: HerderDriver>(h: H, votes: Set<u64>, st: NominateView) -> Option<u64> {
    let a = new_value_answers(h, st);
    pick_fold(votes, a, a.len() as int).1
}

/// `nomination_choice_spec`.
pub fn nomination_choice(value: u64, level: ValidationLevel, extracted: Option<u64>) -> (r: Option<
    u64,
>)
    ensures
        r == nomination_choice_spec(value, level, extracted),
{
    match level {
        ValidationLevel::VoteToNominate => Some(value),
        ValidationLevel::FullyValidated => Some(value),
        _ => extracted,
    }
}

/// `acceptance_choice_spec`.
pub fn acceptance_choice(value: u64, level: ValidationLevel, extracted: Option<u64>) -> (r: Option<
    u64,
>)
    ensures
        r == acceptance_choice_spec(value, level, extracted),
{
    match level {
        ValidationLevel::FullyValidated => Some(value),
        _ => extracted,
    }
}

/// The new value to vote for among the candidates `(value, hash)`, in order:
/// the one not voted for yet with the highest hash above 0, the first on ties.
pub fn pick_nomination_value(votes: &ValueSet, answers: &Vec<Option<(u64, u64)>>) -> (r: Option<
    u64,
>)
    requires
        votes.wf(),
    ensures
        r == pick_fold(votes@, answers@, answers@.len() as int).1,
{
    let mut cur: (u64, Option<u64>) = (0, None);
    let mut i: usize = 0;
    while i < answers.len()
        invariant
            i <= answers@.len(),
            votes.wf(),
            cur == pick_fold(votes@, answers@, i as int),
        decreases answers@.len() - i,
    {
        match answers[i] {
            Some((v, h)) => {
                if !votes.contains(v) && h > cur.0 {
                    cur = (h, Some(v));
                }
            },
            None => {},
        }
        i = i + 1;
    }
    cur.1
}

impl NominationProtocolState {
    /// Hashes `value` with the `DefaultHasher` of std made by `new` (whose
    /// keys are fixed, so a value always gets the same hash within a build).
    /// std does not promise that these hashes stay the same across platforms
    /// or releases; the contract only names the result.
    #[verifier::external_body]
    fn hash_value(value: &u64) -> (h: u64)
        ensures
            h == default_hash(*value),
    {
        let mut hasher = std::collections::hash_map::DefaultHasher::new();
        std::hash::Hash::hash(value, &mut hasher);
        std::hash::Hasher::finish(&hasher)
    }

    /// The herder's answer for `value`, with its hash.
    fn judge_value<H: HerderDriver>(value: u64, herder_driver: &H) -> (r: Option<(u64, u64)>)
        ensures
            r == judge_spec(*herder_driver, value),
            r matches Some((v, h)) ==> h == default_hash(v),
    {
        let level = herder_driver.validate_value(&value, true);
        let extracted = match level {
            ValidationLevel::VoteToNominate => None,
            ValidationLevel::FullyValidated => None,
            _ => herder_driver.extract_valid_value(&value),
        };
        match nomination_choice(value, level, extracted) {
            Some(v) => Some((v, Self::hash_value(&v))),
            None => None,
        }
    }

    /// A value of the statement, or one the herder extracts from it, that this
    /// node does not vote for yet: among the accepted values only the first
    /// the herder answers for counts; when there is none, the votes up to the
    /// first the herder has no answer for; the highest hash wins.
    pub fn get_new_value_form_nomination<H: HerderDriver>(
        &self,
        statement: &SCPStatementNominate,
        herder_driver: &H,
    ) -> (r: Option<u64>)
        requires
            self.votes.wf(),
        ensures
            r == new_value_spec(*herder_driver, self.votes@, statement@),
            r matches Some(v) ==> !self.votes@.contains(v) && default_hash(v) > 0,
            statement.accepted@.len() == 0 && statement.votes@.len() == 0 ==> r is None,
    {
        let ghost h = *herder_driver;
        let ghost acc = statement.accepted@;
        let ghost vts = statement.votes@;
        let ghost a1 = judge_until(h, acc, true, 0);
        let mut answers: Vec<Option<(u64, u64)>> = Vec::new();
        let mut found = false;
        let mut i: usize = 0;
        while i < statement.accepted.len()
            invariant_except_break
                !found,
                answers@ + judge_until(h, acc, true, i as int) == a1,
                answers@.len() > 0 ==> answers@.last() is None,
            invariant
                h == *herder_driver,
                acc == statement.accepted@,
                a1 == judge_until(h, acc, true, 0),
                i <= statement.accepted@.len(),
                statement.accepted@.len() == 0 ==> answers@.len() == 0,
                forall|k: int|
                    0 <= k < answers@.len() ==> (#[trigger] answers@[k] matches Some((v, hh)) ==> hh
                        == default_hash(v)),
            ensures
                answers@ == a1,
                found == (a1.len() > 0 && a1.last() is Some),
            decreases statement.accepted@.len() - i,
        {
            let a = Self::judge_value(statement.accepted[i], herder_driver);
            let ghost before = answers@;
            answers.push(a);
            proof {
                assert(judge_until(h, acc, true, i as int) == if a is Some {
                    seq![a]
                } else {
                    seq![a] + judge_until(h, acc, true, i + 1)
                });
                if a is None {
                    assert(answers@ + judge_until(h, acc, true, i + 1) =~= before + judge_until(
                        h,
                        acc,
                        true,
                        i as int,
                    ));
                } else {
                    assert(answers@ =~= before + judge_until(h, acc, true, i as int));
                }
            }
            if a.is_some() {
                found = true;
                break;
            }
            i = i + 1;
        }
        if !found {
            let ghost a2 = judge_until(h, vts, false, 0);
            let mut j: usize = 0;
            proof {
                assert(answers@ + a2 =~= a1 + judge_until(h, vts, false, 0));
            }
            while j < statement.votes.len()
                invariant_except_break
                    answers@ + judge_until(h, vts, false, j as int) == a1 + a2,
                invariant
                    h == *herder_driver,
                    vts == statement.votes@,
                    a2 == judge_until(h, vts, false, 0),
                    j <= statement.votes@.len(),
                    statement.accepted@.len() == 0 && statement.votes@.len() == 0 ==> answers@.len()
                        == 0,
                    forall|k: int|
                        0 <= k < answers@.len() ==> (#[trigger] answers@[k] matches Some((v, hh))
                            ==> hh == default_hash(v)),
                ensures
                    answers@ == a1 + a2,
                decreases statement.votes@.len() - j,
            {
                let a = Self::judge_value(statement.votes[j], herder_driver);
                let ghost before = answers@;
                answers.push(a);
                proof {
                    assert(judge_until(h, vts, false, j as int) == if a is None {
                        seq![a]
                    } else {
                        seq![a] + judge_until(h, vts, false, j + 1)
                    });
                    if a is Some {
                        assert(answers@ + judge_until(h, vts, false, j + 1) =~= before + judge_until(
                            h,
                            vts,
                            false,
                            j as int,
                        ));
                    } else {
                        assert(answers@ =~= before + judge_until(h, vts, false, j as int));
                    }
                }
                if a.is_none() {
                    break;
                }
                j = j + 1;
            }
        }
        proof {
            lemma_pick_fold_props(self.votes@, answers@, answers@.len() as int);
            assert(answers@ == new_value_answers(h, statement@));
        }
        pick_nomination_value(&self.votes, &answers)
    }
}

/// When an accepted value of a nomination gives a value to vote for, the new
/// vote is taken from its accepted values alone, up to the first that gives
/// one: two nominations with the same accepted values give the same new vote
/// whatever their votes, and that vote is the herder's value for one of the
/// accepted values up to the first usable one.
pub proof fn law_new_value_prefers_accepted<H: HerderDriver>(
    h: H,
    votes: Set<u64>,
    st: NominateView,
    other: NominateView,
    k: int,
)
    requires
        st.accepted == other.accepted,
        0 <= k < st.accepted.len(),
        judge_spec(h, st.accepted[k]) is Some,
    ensures
        new_value_spec(h, votes, st) == new_value_spec(h, votes, other),
        new_value_spec(h, votes, st) matches Some(v) ==> exists|j: int|
            0 <= j <= k && #[trigger] judge_spec(h, st.accepted[j]) is Some && (judge_spec(
                h,
                st.accepted[j],
            )->0).0 == v,
{
    lemma_judge_until_stops(h, st.accepted, 0, k);
    let a = judge_until(h, st.accepted, true, 0);
    assert(new_value_answers(h, st) == a);
    assert(new_value_answers(h, other) == a);
    lemma_pick_fold_from_answers(votes, a, a.len() as int);
    match new_value_spec(h, votes, st) {
        Some(v) => {
            let j = choose|j: int| 0 <= j < a.len() && #[trigger] a[j] is Some && (a[j]->0).0 == v;
            assert(a[j] == judge_spec(h, st.accepted[j]));
        },
        None => {},
    }
}

/// When no accepted value of a nomination gives a value to vote for, the new
/// vote is taken from its votes alone: two such nominations with the same
/// votes give the same new vote whatever their accepted values, and that vote
/// is the herder's value for a vote that comes before the first vote the
/// herder has no value for.
pub proof fn law_new_value_from_votes<H: HerderDriver>(
    h: H,
    votes: Set<u64>,
    st: NominateView,
    other: NominateView,
)
    requires
        st.votes == other.votes,
        forall|i: int| 0 <= i < st.accepted.len() ==> #[trigger] judge_spec(h, st.accepted[i]) is None,
        forall|i: int| 0 <= i < other.accepted.len() ==> #[trigger] judge_spec(h, other.accepted[i]) is None,
    ensures
        new_value_spec(h, votes, st) == new_value_spec(h, votes, other),
        new_value_spec(h, votes, st) matches Some(v) ==> exists|j: int|
            0 <= j < st.votes.len() && #[trigger] judge_spec(h, st.votes[j]) is Some && (judge_spec(
                h,
                st.votes[j],
            )->0).0 == v && forall|k: int| 0 <= k < j ==> #[trigger] judge_spec(h, st.votes[k]) is Some,
{
    lemma_judge_until_none(h, st.accepted, 0);
    lemma_judge_until_none(h, other.accepted, 0);
    lemma_judge_until_votes(h, st.votes, 0);
    let a = judge_until(h, st.accepted, true, 0);
    let b = judge_until(h, other.accepted, true, 0);
    let r = judge_until(h, st.votes, false, 0);
    assert(new_value_answers(h, st) == a + r);
    assert(new_value_answers(h, other) == b + r);
    lemma_pick_fold_skips_none(votes, a, r, r.len() as int);
    lemma_pick_fold_skips_none(votes, b, r, r.len() as int);
    assert((a + r).len() == a.len() + r.len());
    assert((b + r).len() == b.len() + r.len());
    lemma_pick_fold_from_answers(votes, r, r.len() as int);
    match new_value_spec(h, votes, st) {
        Some(v) => {
            let j = choose|j: int| 0 <= j < r.len() && #[trigger] r[j] is Some && (r[j]->0).0 == v;
            assert(r[j] == judge_spec(h, st.votes[j]));
            assert forall|k: int| 0 <= k < j implies #[trigger] judge_spec(h, st.votes[k]) is Some by {
                assert(r[k] == judge_spec(h, st.votes[k]));
            }
        },
        None => {},
    }
}

/// With no value for any of `s[i..]`, the answers are all of them, none with
/// a value.
pub proof fn lemma_judge_until_none<H: HerderDriver>(h: H, s: Seq<u64>, i: int)
    requires
        0 <= i <= s.len(),
        forall|j: int| 0 <= j < s.len() ==> #[trigger] judge_spec(h, s[j]) is None,
    ensures
        judge_until(h, s, true, i).len() == s.len() - i,
        forall|j: int| 0 <= j < judge_until(h, s, true, i).len() ==> #[trigger] judge_until(h, s, true, i)[j] is None,
    decreases s.len() - i,
{
    if i < s.len() {
        lemma_judge_until_none(h, s, i + 1);
        assert(judge_spec(h, s[i]) is None);
        let r = judge_until(h, s, true, i + 1);
        assert(judge_until(h, s, true, i) == seq![judge_spec(h, s[i])] + r);
        assert forall|j: int| 0 <= j < judge_until(h, s, true, i).len() implies #[trigger] judge_until(
            h,
            s,
            true,
            i,
        )[j] is None by {
            if j > 0 {
                assert(r[j - 1] is None);
            }
        }
    }
}

/// The answers for the votes `s[i..]` up to the first without a value are the
/// herder's answers for them, all with a value but perhaps the last.
pub proof fn lemma_judge_until_votes<H: HerderDriver>(h: H, s: Seq<u64>, i: int)
    requires
        0 <= i <= s.len(),
    ensures
        judge_until(h, s, false, i).len() <= s.len() - i,
        forall|j: int|
            0 <= j < judge_until(h, s, false, i).len() ==> #[trigger] judge_until(h, s, false, i)[j]
                == judge_spec(h, s[i + j]),
        forall|j: int|
            0 <= j < judge_until(h, s, false, i).len() - 1 ==> #[trigger] judge_spec(h, s[i + j]) is Some,
    decreases s.len() - i,
{
    if i < s.len() && judge_spec(h, s[i]) is Some {
        lemma_judge_until_votes(h, s, i + 1);
        let r = judge_until(h, s, false, i + 1);
        assert(judge_until(h, s, false, i) == seq![judge_spec(h, s[i])] + r);
        assert forall|j: int| 0 <= j < judge_until(h, s, false, i).len() implies #[trigger] judge_until(
            h,
            s,
            false,
            i,
        )[j] == judge_spec(h, s[i + j]) by {
            if j > 0 {
                assert(r[j - 1] == judge_spec(h, s[i + 1 + (j - 1)]));
            }
        }
        assert forall|j: int| 0 <= j < judge_until(h, s, false, i).len() - 1 implies #[trigger] judge_spec(
            h,
            s[i + j],
        ) is Some by {
            if j > 0 {
                assert(judge_spec(h, s[i + 1 + (j - 1)]) is Some);
            }
        }
    }
}

/// Answers without a value in front change nothing of the pick.
pub proof fn lemma_pick_fold_skips_none(
    votes: Set<u64>,
    a: Seq<Option<(u64, u64)>>,
    r: Seq<Option<(u64, u64)>>,
    m: int,
)
    requires
        0 <= m <= r.len(),
        forall|j: int| 0 <= j < a.len() ==> #[trigger] a[j] is None,
    ensures
        pick_fold(votes, a + r, a.len() + m) == pick_fold(votes, r, m),
    decreases m,
{
    if m == 0 {
        lemma_pick_fold_nones(votes, a + r, a.len() as int);
    } else {
        lemma_pick_fold_skips_none(votes, a, r, m - 1);
        assert((a + r)[a.len() + m - 1] == r[m - 1]);
    }
}

/// Answers without a value leave the pick where it starts.
pub proof fn lemma_pick_fold_nones(votes: Set<u64>, s: Seq<Option<(u64, u64)>>, n: int)
    requires
        0 <= n <= s.len(),
        forall|j: int| 0 <= j < n ==> #[trigger] s[j] is None,
    ensures
        pick_fold(votes, s, n) == (0u64, None::<u64>),
    decreases n,
{
    if n > 0 {
        lemma_pick_fold_nones(votes, s, n - 1);
    }
}

/// The herder's answers up to the first it has a value for end with that one,
/// which is at most the `k`-th when the `k`-th has a value.
pub proof fn lemma_judge_until_stops<H: HerderDriver>(h: H, s: Seq<u64>, i: int, k: int)
    requires
        0 <= i <= k < s.len(),
        judge_spec(h, s[k]) is Some,
    ensures
        judge_until(h, s, true, i).len() > 0,
        judge_until(h, s, true, i).last() is Some,
        judge_until(h, s, true, i).len() <= k - i + 1,
        forall|j: int|
            0 <= j < judge_until(h, s, true, i).len() ==> #[trigger] judge_until(h, s, true, i)[j]
                == judge_spec(h, s[i + j]),
    decreases s.len() - i,
{
    if judge_spec(h, s[i]) is None {
        lemma_judge_until_stops(h, s, i + 1, k);
        let r = judge_until(h, s, true, i + 1);
        assert(judge_until(h, s, true, i) == seq![judge_spec(h, s[i])] + r);
        assert forall|j: int| 0 <= j < judge_until(h, s, true, i).len() implies #[trigger] judge_until(
            h,
            s,
            true,
            i,
        )[j] == judge_spec(h, s[i + j]) by {
            if j > 0 {
                assert(r[j - 1] == judge_spec(h, s[i + 1 + (j - 1)]));
            }
        }
    }
}

/// The pick is one of the values answered.
pub proof fn lemma_pick_fold_from_answers(votes: Set<u64>, answers: Seq<Option<(u64, u64)>>, n: int)
    requires
        0 <= n <= answers.len(),
    ensures
        pick_fold(votes, answers, n).1 matches Some(v) ==> exists|j: int|
            0 <= j < n && #[trigger] answers[j] is Some && (answers[j]->0).0 == v,
    decreases n,
{
    if n > 0 {
        lemma_pick_fold_from_answers(votes, answers, n - 1);
        if answers[n - 1] is Some {
            assert(answers[n - 1] is Some);
        }
    }
}

/// The pick among the answers `(value, hash)` is a value not voted for yet
/// with the highest hash among such answers, above 0; on equal hashes the
/// earliest answer wins; there is none when every such answer has hash 0.
pub proof fn law_pick_highest_hash(votes: Set<u64>, answers: Seq<Option<(u64, u64)>>, n: int)
    requires
        0 <= n <= answers.len(),
    ensures
        forall|j: int|
            0 <= j < n && #[trigger] answers[j] is Some && !votes.contains((answers[j]->0).0)
                ==> (answers[j]->0).1 <= pick_fold(votes, answers, n).0,
        pick_fold(votes, answers, n).1 is Some ==> ({
            let v = pick_fold(votes, answers, n).1->0;
            let hh = pick_fold(votes, answers, n).0;
            &&& !votes.contains(v)
            &&& hh > 0
            &&& exists|j: int|
                0 <= j < n && #[trigger] answers[j] == Some((v, hh)) && forall|k: int|
                    0 <= k < j && #[trigger] answers[k] is Some && !votes.contains((answers[k]->0).0)
                        ==> (answers[k]->0).1 < hh
        }),
        pick_fold(votes, answers, n).1 is None ==> pick_fold(votes, answers, n).0 == 0,
    decreases n,
{
    if n > 0 {
        law_pick_highest_hash(votes, answers, n - 1);
        let prev = pick_fold(votes, answers, n - 1);
        let cur = pick_fold(votes, answers, n);
        if cur != prev {
            let j = n - 1;
            assert(answers[j] == Some((cur.1->0, cur.0)));
            assert forall|k: int|
                0 <= k < j && #[trigger] answers[k] is Some && !votes.contains((answers[k]->0).0)
                    implies (answers[k]->0).1 < cur.0 by {}
        } else if cur.1 is Some {
            let v = cur.1->0;
            let j = choose|j: int|
                0 <= j < n - 1 && #[trigger] answers[j] == Some((v, prev.0)) && forall|k: int|
                    0 <= k < j && #[trigger] answers[k] is Some && !votes.contains((answers[k]->0).0)
                        ==> (answers[k]->0).1 < prev.0;
            assert(0 <= j < n && answers[j] == Some((v, cur.0)));
        }
    }
}

/// The pick is never a value already voted for, its hash is the recorded
/// one and lies above 0.
pub proof fn lemma_pick_fold_props(votes: Set<u64>, answers: Seq<Option<(u64, u64)>>, n: int)
    requires
        0 <= n <= answers.len(),
        forall|k: int|
            0 <= k < answers.len() ==> (#[trigger] answers[k] matches Some((v, h)) ==> h
                == default_hash(v)),
    ensures
        pick_fold(votes, answers, n).1 matches Some(v) ==> !votes.contains(v) && default_hash(v)
            == pick_fold(votes, answers, n).0 && pick_fold(votes, answers, n).0 > 0,
        pick_fold(votes, answers, n).1 is None ==> pick_fold(votes, answers, n).0 == 0,
    decreases n,
{
    if n > 0 {
        lemma_pick_fold_props(votes, answers, n - 1);
    }
}

} // verus!

verus! {

/// The nominated value `v` may be accepted: it is not accepted yet and the
/// nodes whose latest nomination votes for or accepts it accept it
/// federatedly.
pub open spec fn nomination_acceptable(
    local: crate::scp::local_node::LocalNodeInfo,
    s: NominationProtocolState,
    env: Map<SCPEnvelopeID, SCPEnvelope>,
    qm: QuorumManager,
    v: u64,
) -> bool {
    &&& !s.accepted@.contains(v)
    &&& federated_accept_spec(
        local,
        s.latest_nominations,
        env,
        qm,
        StatementFilter::VotedNomination(v),
        StatementFilter::AcceptedNomination(v),
    )
}

/// The votes after taking a new vote from the latest nomination of each of
/// the first `i` round leaders `leaders`, in order, starting from `votes`.
pub open spec fn gathered_votes<H: HerderDriver>(
    h: H,
    votes: Set<u64>,
    leaders: Seq<Seq<char>>,
    latest: NodeMap,
    env: Map<SCPEnvelopeID, SCPEnvelope>,
    i: int,
) -> Set<u64>
    decreases i,
{
    if i <= 0 {
        votes
    } else {
        let cur = gathered_votes(h, votes, leaders, latest, env, i - 1);
        match latest.get_spec(leaders[i - 1]) {
            Some(id) => match stored_nomination(env, id) {
                Some(st) => match new_value_spec(h, cur, st) {
                    Some(v) => cur.insert(v),
                    None => cur,
                },
                None => cur,
            },
            None => cur,
        }
    }
}

impl NominationProtocolState {
    /// Votes for a new value taken from the latest nomination of each round
    /// leader, telling the herder of each; returns whether any was added.
    pub fn gather_votes_from_round_leaders<H: HerderDriver>(
        &mut self,
        slot_index: &u64,
        local_id: &NodeID,
        herder_driver: &mut H,
        envelope_controller: &SCPEnvelopeController,
    ) -> (updated: bool)
        requires
            nomination_wf(*old(self)),
        ensures
            nomination_wf(*final(self)),
            final(self).votes@ == gathered_votes(
                *old(herder_driver),
                old(self).votes@,
                old(self).round_leaders.keys(),
                old(self).latest_nominations,
                envelope_controller.envelopes.0@,
                old(self).round_leaders.keys().len() as int,
            ),
            *final(herder_driver) == *old(herder_driver),
            updated == (final(self).votes@ != old(self).votes@),
            old(self).votes@.subset_of(final(self).votes@),
            final(self).accepted == old(self).accepted,
            final(self).candidates == old(self).candidates,
            final(self).latest_nominations == old(self).latest_nominations,
            final(self).latest_envelope == old(self).latest_envelope,
            final(self).round_leaders == old(self).round_leaders,
            final(self).nomination_started == old(self).nomination_started,
            final(self).latest_composite_candidate == old(self).latest_composite_candidate,
            final(self).previous_value == old(self).previous_value,
            final(self).round_number == old(self).round_number,
            final(self).num_timeouts == old(self).num_timeouts,
            final(self).timed_out == old(self).timed_out,
    {
        let mut updated = false;
        let mut i: usize = 0;
        while i < self.round_leaders.len()
            invariant
                i <= self.round_leaders.keys().len(),
                nomination_wf(*self),
                updated == (self.votes@ != old(self).votes@),
                *herder_driver == *old(herder_driver),
                self.votes@ == gathered_votes(
                    *old(herder_driver),
                    old(self).votes@,
                    old(self).round_leaders.keys(),
                    old(self).latest_nominations,
                    envelope_controller.envelopes.0@,
                    i as int,
                ),
                old(self).votes@.subset_of(self.votes@),
                self.accepted == old(self).accepted,
                self.candidates == old(self).candidates,
                self.latest_nominations == old(self).latest_nominations,
                self.latest_envelope == old(self).latest_envelope,
                self.round_leaders == old(self).round_leaders,
                self.nomination_started == old(self).nomination_started,
                self.latest_composite_candidate == old(self).latest_composite_candidate,
                self.previous_value == old(self).previous_value,
                self.round_number == old(self).round_number,
                self.num_timeouts == old(self).num_timeouts,
                self.timed_out == old(self).timed_out,
            decreases self.round_leaders.keys().len() - i,
        {
            let leader = self.round_leaders.at(i).clone();
            let new_value = match self.latest_nominations.get(&leader) {
                Some(id) => match envelope_controller.get_envelope(&id) {
                    Some(env) => match &env.statement {
                        SCPStatement::Nominate(st) => self.get_new_value_form_nomination(
                            st,
                            &*herder_driver,
                        ),
                        _ => None,
                    },
                    None => None,
                },
                None => None,
            };
            match new_value {
                Some(v) => {
                    let ghost before = self.votes@;
                    let _ = self.votes.insert(v);
                    assert(!before.contains(v));
                    assert(self.votes@.contains(v));
                    updated = true;
                    herder_driver.nominating_value(&v, slot_index);
                },
                None => {},
            }
            i = i + 1;
        }
        updated
    }
}

/// The value accepted for the votes `votes[i..]`: at the first vote that
/// may be accepted and for which the herder gives a value to accept (by
/// `acceptance_choice_spec`), that value; none if there is no such vote.
pub open spec fn acceptance_walk<H: HerderDriver>(
    h: H,
    local: crate::scp::local_node::LocalNodeInfo,
    s: NominationProtocolState,
    env: Map<SCPEnvelopeID, SCPEnvelope>,
    qm: QuorumManager,
    votes: Seq<u64>,
    i: int,
) -> Option<u64>
    decreases votes.len() - i,
{
    if i < 0 || i >= votes.len() {
        None
    } else {
        let v = votes[i];
        let level = h.validate_value_spec(v, true);
        let extracted = match level {
            ValidationLevel::FullyValidated => None,
            _ => h.extract_valid_value_spec(v),
        };
        if nomination_acceptable(local, s, env, qm, v) && acceptance_choice_spec(v, level, extracted) is Some {
            acceptance_choice_spec(v, level, extracted)
        } else {
            acceptance_walk(h, local, s, env, qm, votes, i + 1)
        }
    }
}

impl SlotDriver {
    /// Accepts the first vote of `statement` that is not accepted yet and that
    /// federated voting accepts, provided the herder validates it or extracts
    /// a valid value from it (which is then voted for and accepted in its
    /// place); returns whether one was.
    pub fn state_may_have_changed<H: HerderDriver>(
        &self,
        statement: &SCPStatementNominate,
        nomination_state: &mut NominationProtocolState,
        envelope_controller: &SCPEnvelopeController,
        quorum_manager: &QuorumManager,
        herder_driver: &H,
    ) -> (modified: bool)
        requires
            nomination_wf(*old(nomination_state)),
        ensures
            nomination_wf(*final(nomination_state)),
            match acceptance_walk(
                *herder_driver,
                self.local_node,
                *old(nomination_state),
                envelope_controller.envelopes.0@,
                *quorum_manager,
                statement.votes@,
                0,
            ) {
                Some(x) => modified && final(nomination_state).accepted@ == old(
                    nomination_state,
                ).accepted@.insert(x) && final(nomination_state).votes@ == old(
                    nomination_state,
                ).votes@.insert(x),
                None => !modified,
            },
            !modified ==> final(nomination_state).votes == old(nomination_state).votes
                && final(nomination_state).accepted == old(nomination_state).accepted,
            modified ==> exists|i: int|
                0 <= i < statement.votes@.len() && nomination_acceptable(
                    self.local_node,
                    *old(nomination_state),
                    envelope_controller.envelopes.0@,
                    *quorum_manager,
                    #[trigger] statement.votes@[i],
                ),
            modified ==> exists|x: u64|
                final(nomination_state).accepted@ == #[trigger] old(
                    nomination_state,
                ).accepted@.insert(x) && final(nomination_state).votes@ == old(
                    nomination_state,
                ).votes@.insert(x),
            final(nomination_state).candidates == old(nomination_state).candidates,
            final(nomination_state).latest_nominations == old(nomination_state).latest_nominations,
            final(nomination_state).latest_envelope == old(nomination_state).latest_envelope,
            final(nomination_state).round_leaders == old(nomination_state).round_leaders,
            final(nomination_state).nomination_started == old(nomination_state).nomination_started,
            final(nomination_state).latest_composite_candidate == old(
                nomination_state,
            ).latest_composite_candidate,
            final(nomination_state).previous_value == old(nomination_state).previous_value,
            final(nomination_state).round_number == old(nomination_state).round_number,
            final(nomination_state).num_timeouts == old(nomination_state).num_timeouts,
            final(nomination_state).timed_out == old(nomination_state).timed_out,
    {
        let mut i: usize = 0;
        while i < statement.votes.len()
            invariant
                i <= statement.votes@.len(),
                *nomination_state == *old(nomination_state),
                nomination_wf(*nomination_state),
                acceptance_walk(
                    *herder_driver,
                    self.local_node,
                    *old(nomination_state),
                    envelope_controller.envelopes.0@,
                    *quorum_manager,
                    statement.votes@,
                    0,
                ) == acceptance_walk(
                    *herder_driver,
                    self.local_node,
                    *old(nomination_state),
                    envelope_controller.envelopes.0@,
                    *quorum_manager,
                    statement.votes@,
                    i as int,
                ),
            decreases statement.votes@.len() - i,
        {
            let vote = statement.votes[i];
            if !nomination_state.accepted.contains(vote) && self.federated_accept(
                StatementFilter::VotedNomination(vote),
                StatementFilter::AcceptedNomination(vote),
                &nomination_state.latest_nominations,
                &envelope_controller.envelopes,
                quorum_manager,
            ) {
                let level = herder_driver.validate_value(&vote, true);
                let extracted = match level {
                    ValidationLevel::FullyValidated => None,
                    _ => herder_driver.extract_valid_value(&vote),
                };
                match acceptance_choice(vote, level, extracted) {
                    Some(x) => {
                        let _ = nomination_state.accepted.insert(x);
                        let _ = nomination_state.votes.insert(x);
                        assert(nomination_acceptable(
                            self.local_node,
                            *old(nomination_state),
                            envelope_controller.envelopes.0@,
                            *quorum_manager,
                            statement.votes@[i as int],
                        ));
                        return true;
                    },
                    None => {},
                }
            }
            i = i + 1;
        }
        false
    }
}

} // verus!

verus! {

/// The bound on how deeply nomination may recurse into itself (emitting a
/// nomination processes it, which may emit another).
pub const MAXIMUM_NOMINATION_RECURSION: u32 = 50;

pub open spec fn nomination_fuel(depth: u32) -> int {
    if depth < MAXIMUM_NOMINATION_RECURSION {
        MAXIMUM_NOMINATION_RECURSION - depth
    } else {
        0
    }
}

/// Whether a nomination newer than `st` was already processed for `node`.
pub open spec fn processed_newer_spec(
    s: NominationProtocolState,
    env: Map<SCPEnvelopeID, SCPEnvelope>,
    node: Seq<char>,
    st: NominateView,
) -> bool {
    match s.latest_nominations.get_spec(node) {
        Some(id) => match stored_nomination(env, id) {
            Some(last) => nominate_older_spec(st, last),
            None => false,
        },
        None => false,
    }
}

/// The latest nominations of all nodes but `a` and `b` are kept.
pub open spec fn nominations_kept_except(
    o: NominationProtocolState,
    n: NominationProtocolState,
    a: Seq<char>,
    b: Seq<char>,
) -> bool {
    forall|q: Seq<char>|
        q != a && q != b ==> #[trigger] n.latest_nominations.get_spec(q)
            == o.latest_nominations.get_spec(q)
}

/// What processing nominations keeps: the collections stay well formed, the
/// votes, accepted values and candidates only grow, and the round is kept.
pub open spec fn nomination_grows(o: NominationProtocolState, n: NominationProtocolState) -> bool {
    &&& nomination_wf(n)
    &&& o.votes@.subset_of(n.votes@)
    &&& o.accepted@.subset_of(n.accepted@)
    &&& o.candidates@.subset_of(n.candidates@)
    &&& n.round_number == o.round_number
    &&& n.round_leaders == o.round_leaders
    &&& n.previous_value == o.previous_value
    &&& n.num_timeouts == o.num_timeouts
    &&& n.timed_out == o.timed_out
    &&& forall|q: Seq<char>| #[trigger] o.latest_nominations.contains_key(q) ==> n.latest_nominations.contains_key(q)
}

/// `l` is the latest-nominations map of `s` once the envelope `id` of `node`
/// is recorded in it.
pub open spec fn recorded_nominations(s: NominationProtocolState, l: NodeMap, node: Seq<char>, id: SCPEnvelopeID) -> bool {
    &&& l.get_spec(node) == Some(id)
    &&& forall|q: Seq<char>| q != node ==> #[trigger] l.get_spec(q) == s.latest_nominations.get_spec(q)
}

/// Some value of `accepted` that is not a candidate yet is ratified as
/// accepted by the nodes of `l`.
pub open spec fn candidate_ratifiable(
    local: crate::scp::local_node::LocalNodeInfo,
    l: NodeMap,
    env: Map<SCPEnvelopeID, SCPEnvelope>,
    qm: QuorumManager,
    candidates: Set<u64>,
    accepted: Seq<u64>,
) -> bool {
    exists|i: int|
        0 <= i < accepted.len() && !candidates.contains(accepted[i])
            && #[trigger] crate::scp::scp_driver::federated_ratify_spec(
            local,
            l,
            env,
            qm,
            StatementFilter::AcceptedNomination(accepted[i]),
        )
}

/// Every envelope of `o` is still in `e`, unchanged or replaced by one of
/// `local`'s own.
pub open spec fn envelopes_kept(
    o: Map<SCPEnvelopeID, SCPEnvelope>,
    e: Map<SCPEnvelopeID, SCPEnvelope>,
    local: Seq<char>,
) -> bool {
    forall|k: SCPEnvelopeID|
        #[trigger] o.contains_key(k) ==> e.contains_key(k) && (e[k] == o[k] || e[k]@.node_id
            == local)
}

/// `l` holds the latest nominations of `s` for every node but `sender` and
/// `local`, and, when `sender` is not `local`, the envelope `id` for
/// `sender`.
pub open spec fn nominations_since(
    s: NominationProtocolState,
    l: NodeMap,
    sender: Seq<char>,
    local: Seq<char>,
    id: SCPEnvelopeID,
) -> bool {
    &&& (sender != local ==> l.get_spec(sender) == Some(id))
    &&& forall|q: Seq<char>|
        q != sender && q != local ==> #[trigger] l.get_spec(q) == s.latest_nominations.get_spec(q)
}

/// Every candidate of `n` that `o` lacks is confirmed: federated voting
/// ratifies that it is accepted, over latest nominations that `o` had (but
/// for `sender`'s, the envelope `id`, and `local`'s own) and over the
/// envelopes of `env` (but for those `local` itself replaced).
pub open spec fn new_candidates_ratified(
    local: crate::scp::local_node::LocalNodeInfo,
    o: NominationProtocolState,
    n: NominationProtocolState,
    env: Map<SCPEnvelopeID, SCPEnvelope>,
    qm: QuorumManager,
    sender: Seq<char>,
    id: SCPEnvelopeID,
) -> bool {
    forall|v: u64|
        #[trigger] n.candidates@.contains(v) && !o.candidates@.contains(v) ==> exists|
            l: NodeMap,
            e: Map<SCPEnvelopeID, SCPEnvelope>,
        |
            nominations_since(o, l, sender, local.node_id@, id) && envelopes_kept(
                env,
                e,
                local.node_id@,
            ) && #[trigger] crate::scp::scp_driver::federated_ratify_spec(
                local,
                l,
                e,
                qm,
                StatementFilter::AcceptedNomination(v),
            )
}

/// The value the herder `h` has accepted in place of the vote `v`: `v`
/// itself when it fully validates it, else the value it extracts from it.
pub open spec fn herder_acceptance<H: HerderDriver>(h: H, v: u64) -> Option<u64> {
    let level = h.validate_value_spec(v, true);
    acceptance_choice_spec(
        v,
        level,
        match level {
            ValidationLevel::FullyValidated => None,
            _ => h.extract_valid_value_spec(v),
        },
    )
}

/// Every value that `n` accepts and `o` did not stands for a vote that
/// federated voting accepts, over latest nominations that `o` had (but for
/// `sender`'s, the envelope `id`, and `local`'s own) and the envelopes of
/// `env` (but for those `local` itself replaced): the vote itself or what
/// the herder `h` accepts in its place.
pub open spec fn new_accepted_justified<H: HerderDriver>(
    h: H,
    local: crate::scp::local_node::LocalNodeInfo,
    o: NominationProtocolState,
    n: NominationProtocolState,
    env: Map<SCPEnvelopeID, SCPEnvelope>,
    qm: QuorumManager,
    sender: Seq<char>,
    id: SCPEnvelopeID,
) -> bool {
    forall|x: u64|
        #[trigger] n.accepted@.contains(x) && !o.accepted@.contains(x) ==> exists|
            l: NodeMap,
            e: Map<SCPEnvelopeID, SCPEnvelope>,
            v: u64,
        |
            nominations_since(o, l, sender, local.node_id@, id) && envelopes_kept(
                env,
                e,
                local.node_id@,
            ) && #[trigger] federated_accept_spec(
                local,
                l,
                e,
                qm,
                StatementFilter::VotedNomination(v),
                StatementFilter::AcceptedNomination(v),
            ) && herder_acceptance(h, v) == Some(x)
}

/// The value the walk over `votes[i..]` accepts stands for a vote that may
/// be accepted: the vote itself or the herder's value in its place.
pub proof fn lemma_acceptance_walk<H: HerderDriver>(
    h: H,
    local: crate::scp::local_node::LocalNodeInfo,
    s: NominationProtocolState,
    env: Map<SCPEnvelopeID, SCPEnvelope>,
    qm: QuorumManager,
    votes: Seq<u64>,
    i: int,
)
    ensures
        acceptance_walk(h, local, s, env, qm, votes, i) matches Some(x) ==> exists|v: u64|
            #[trigger] nomination_acceptable(local, s, env, qm, v) && herder_acceptance(h, v)
                == Some(x),
    decreases votes.len() - i,
{
    if 0 <= i < votes.len() {
        lemma_acceptance_walk(h, local, s, env, qm, votes, i + 1);
        let v = votes[i];
        if nomination_acceptable(local, s, env, qm, v) && herder_acceptance(h, v) is Some {
            assert(acceptance_walk(h, local, s, env, qm, votes, i) == herder_acceptance(h, v));
        }
    }
}

/// The state `(nd, ns, ne, nn, nq)` is what moving the ballot protocol to the
/// composite value `val` made of some state: its ballot becomes the current
/// counter (1 without one) with `val`, unless a value overrides it.
pub open spec fn composite_bumped(
    nd: SlotDriver,
    ns: BallotProtocolState,
    ne: Map<SCPEnvelopeID, SCPEnvelope>,
    nn: NominationProtocolState,
    nq: Seq<SCPEnvelopeID>,
    val: u64,
) -> bool {
    exists|
        od: SlotDriver,
        os: BallotProtocolState,
        oe: Map<SCPEnvelopeID, SCPEnvelope>,
        on: NominationProtocolState,
        oq: Seq<SCPEnvelopeID>,
        u: bool,
    |
        #[trigger] bump_effect(
            od,
            nd,
            os,
            ns,
            oe,
            ne,
            on,
            nn,
            oq,
            nq,
            composite_target(os, val),
            u,
        )
}

/// The ballot that moving to the composite value `val` aims at from `s`.
pub open spec fn composite_target(s: BallotProtocolState, val: u64) -> SCPBallot {
    SCPBallot {
        counter: match s.current_ballot {
            Some(c) => c.counter,
            None => 1,
        },
        value: match s.value_override {
            Some(v) => v,
            None => val,
        },
    }
}

/// What `process_nomination_envelope` does with the envelope `env_id`: the
/// frames it keeps, that it is refused (changing nothing) exactly when the
/// sender's recorded nomination is newer, and that otherwise its sender's
/// nomination is recorded and, when some accepted value of it that is not a
/// candidate yet is ratified once it is recorded, a new candidate is found;
/// every new candidate is ratified as accepted.
pub open spec fn nomination_envelope_effect(
    od: SlotDriver,
    nd: SlotDriver,
    ons: NominationProtocolState,
    nns: NominationProtocolState,
    obs: BallotProtocolState,
    nbs: BallotProtocolState,
    oc: SCPEnvelopeController,
    nc: SCPEnvelopeController,
    qm: QuorumManager,
    env_id: SCPEnvelopeID,
    r: EnvelopeState,
) -> bool {
    &&& (r == EnvelopeState::Valid ==> exists|l: NodeMap|
        #[trigger] recorded_nominations(ons, l, oc.envelopes.0@[env_id].node_id@, env_id)
            && (candidate_ratifiable(
            od.local_node,
            l,
            oc.envelopes.0@,
            qm,
            ons.candidates@,
            stored_nomination(oc.envelopes.0@, env_id)->0.accepted,
        ) ==> (exists|v: u64| #[trigger] nns.candidates@.contains(v) && !ons.candidates@.contains(v))
            && (nns.latest_composite_candidate matches Some(val) ==> composite_bumped(
            nd,
            nbs,
            nc.envelopes.0@,
            nns,
            nc.envs_to_emit@,
            val,
        ))))
    &&& new_candidates_ratified(
        od.local_node,
        ons,
        nns,
        oc.envelopes.0@,
        qm,
        oc.envelopes.0@[env_id].node_id@,
        env_id,
    )
    &&& (nomination_grows(ons, nns))
    &&& (ballot_frame(
        obs,
        nbs,
        oc.envelopes.0@,
        nc.envelopes.0@,
    ))
    &&& (driver_frame(od, nd))
    &&& (nominations_kept_except(
        ons,
        nns,
        oc.envelopes.0@[env_id].node_id@,
        od.local_node.node_id@,
    ))
    &&& ((r == EnvelopeState::Valid && oc.envelopes.0@[env_id].node_id@
        != od.local_node.node_id@) ==> nns.latest_nominations.get_spec(
        oc.envelopes.0@[env_id].node_id@,
    ) == Some(env_id))
    &&& (r == EnvelopeState::Valid ==> nns.latest_nominations.contains_key(
        oc.envelopes.0@[env_id].node_id@,
    ))
    &&& ((r == EnvelopeState::Invalid) == processed_newer_spec(
        ons,
        oc.envelopes.0@,
        oc.envelopes.0@[env_id].node_id@,
        stored_nomination(oc.envelopes.0@, env_id)->0,
    ))
    &&& (r == EnvelopeState::Invalid ==> nns == ons
        && nbs == obs && nc
        == oc && nd == od)
}

impl SlotDriver {
    /// Emits a nomination of the current votes and accepted values: it is
    /// processed as this node's own, and, unless it is older than the last one
    /// emitted, becomes the latest; returned when the slot is fully validated.
    fn emit_nomination<H: HerderDriver>(
        &mut self,
        nomination_state: &mut NominationProtocolState,
        ballot_state: &mut BallotProtocolState,
        envelope_controller: &mut SCPEnvelopeController,
        quorum_manager: &QuorumManager,
        herder_driver: &mut H,
        depth: u32,
    ) -> (r: Option<SCPEnvelopeID>)
        requires
            nomination_wf(*old(nomination_state)),
            old(ballot_state).latest_envelopes.wf(),
        ensures
            nomination_grows(*old(nomination_state), *final(nomination_state)),
            ballot_frame(
                *old(ballot_state),
                *final(ballot_state),
                old(envelope_controller).envelopes.0@,
                final(envelope_controller).envelopes.0@,
            ),
            driver_frame(*old(self), *final(self)),
            nominations_kept_except(
                *old(nomination_state),
                *final(nomination_state),
                old(self).local_node.node_id@,
                old(self).local_node.node_id@,
            ),
            r matches Some(id) ==> final(nomination_state).latest_envelope == Some(id),
            depth >= MAXIMUM_NOMINATION_RECURSION ==> r is None && *final(nomination_state) == *old(
                nomination_state,
            ) && *final(ballot_state) == *old(ballot_state) && *final(envelope_controller) == *old(
                envelope_controller,
            ) && *final(self) == *old(self),
            ({
                let nv = NominateView {
                    node_id: Seq::<char>::empty(),
                    quorum_set_hash: crate::crypto::blake2b_digest(
                        crate::crypto::enc_qset(old(self).local_node.quorum_set@),
                    ),
                    votes: old(nomination_state).votes.seq() + old(nomination_state).accepted.seq(),
                    accepted: old(nomination_state).accepted.seq(),
                    quorum_set: Some(old(self).local_node.quorum_set@),
                };
                (depth < MAXIMUM_NOMINATION_RECURSION && !(old(nomination_state).latest_nominations.get_spec(
                    old(self).local_node.node_id@,
                ) matches Some(id) && stored_nomination(old(envelope_controller).envelopes.0@, id) matches Some(last)
                    && nominate_older_spec(nv, last))) ==> final(nomination_state).latest_envelope is Some
            }),
            new_candidates_ratified(
                old(self).local_node,
                *old(nomination_state),
                *final(nomination_state),
                old(envelope_controller).envelopes.0@,
                *quorum_manager,
                old(self).local_node.node_id@,
                0,
            ),
            new_accepted_justified(
                *old(herder_driver),
                old(self).local_node,
                *old(nomination_state),
                *final(nomination_state),
                old(envelope_controller).envelopes.0@,
                *quorum_manager,
                old(self).local_node.node_id@,
                0,
            ),
        decreases nomination_fuel(depth), 0nat,
    {
        if depth >= MAXIMUM_NOMINATION_RECURSION {
            return None;
        }
        let votes = nomination_state.get_current_votes();
        let accepted = nomination_state.accepted.to_vec();
        let nom_st = SCPStatementNominate::new(&self.local_node.quorum_set, votes, accepted);
        let cur_st = nom_st.clone();
        let cur_env_id = self.create_envelope(SCPStatement::Nominate(nom_st), envelope_controller);
        let ghost mid = envelope_controller.envelopes.0@;
        let ghost ns0 = *nomination_state;
        assert(forall|k: SCPEnvelopeID| #[trigger]
            old(envelope_controller).envelopes.0@.contains_key(k) ==> mid.contains_key(k));
        let env_state = self.process_nomination_at(
            nomination_state,
            ballot_state,
            &cur_env_id,
            envelope_controller,
            quorum_manager,
            herder_driver,
            depth + 1,
        );
        assert(forall|k: SCPEnvelopeID| #[trigger]
            old(envelope_controller).envelopes.0@.contains_key(k)
                ==> envelope_controller.envelopes.0@.contains_key(k)) by {
            assert(forall|k: SCPEnvelopeID| #[trigger]
                mid.contains_key(k) ==> envelope_controller.envelopes.0@.contains_key(k));
        }
        proof {
            let oe = old(envelope_controller).envelopes.0@;
            let lid = old(self).local_node.node_id@;
            assert forall|v: u64|
                #[trigger] nomination_state.candidates@.contains(v) && !old(
                    nomination_state,
                ).candidates@.contains(v) implies exists|
                l: NodeMap,
                e: Map<SCPEnvelopeID, SCPEnvelope>,
            |
                nominations_since(*old(nomination_state), l, lid, lid, 0) && envelopes_kept(oe, e, lid)
                    && #[trigger] crate::scp::scp_driver::federated_ratify_spec(
                    old(self).local_node,
                    l,
                    e,
                    *quorum_manager,
                    StatementFilter::AcceptedNomination(v),
                ) by {
                let (l, e) = choose|l: NodeMap, e: Map<SCPEnvelopeID, SCPEnvelope>|
                    nominations_since(ns0, l, lid, lid, cur_env_id) && envelopes_kept(mid, e, lid)
                        && #[trigger] crate::scp::scp_driver::federated_ratify_spec(
                        old(self).local_node,
                        l,
                        e,
                        *quorum_manager,
                        StatementFilter::AcceptedNomination(v),
                    );
                assert(envelopes_kept(oe, e, lid)) by {
                    assert forall|k: SCPEnvelopeID| #[trigger] oe.contains_key(k) implies e.contains_key(k)
                        && (e[k] == oe[k] || e[k]@.node_id == lid) by {
                        assert(mid.contains_key(k));
                        if k == cur_env_id {
                            assert(mid[k]@.node_id == lid);
                        }
                    }
                }
                assert(nominations_since(*old(nomination_state), l, lid, lid, 0));
            }
            assert forall|x: u64|
                #[trigger] nomination_state.accepted@.contains(x) && !old(
                    nomination_state,
                ).accepted@.contains(x) implies exists|
                l: NodeMap,
                e: Map<SCPEnvelopeID, SCPEnvelope>,
                v: u64,
            |
                nominations_since(*old(nomination_state), l, lid, lid, 0) && envelopes_kept(oe, e, lid)
                    && #[trigger] federated_accept_spec(
                    old(self).local_node,
                    l,
                    e,
                    *quorum_manager,
                    StatementFilter::VotedNomination(v),
                    StatementFilter::AcceptedNomination(v),
                ) && herder_acceptance(*old(herder_driver), v) == Some(x) by {
                let (l, e, v) = choose|l: NodeMap, e: Map<SCPEnvelopeID, SCPEnvelope>, v: u64|
                    nominations_since(ns0, l, lid, lid, cur_env_id) && envelopes_kept(mid, e, lid)
                        && #[trigger] federated_accept_spec(
                        old(self).local_node,
                        l,
                        e,
                        *quorum_manager,
                        StatementFilter::VotedNomination(v),
                        StatementFilter::AcceptedNomination(v),
                    ) && herder_acceptance(*old(herder_driver), v) == Some(x);
                assert(envelopes_kept(oe, e, lid)) by {
                    assert forall|k: SCPEnvelopeID| #[trigger] oe.contains_key(k) implies e.contains_key(k)
                        && (e[k] == oe[k] || e[k]@.node_id == lid) by {
                        assert(mid.contains_key(k));
                        if k == cur_env_id {
                            assert(mid[k]@.node_id == lid);
                        }
                    }
                }
                assert(nominations_since(*old(nomination_state), l, lid, lid, 0));
            }
        }
        if env_state == EnvelopeState::Invalid {
            return None;
        }
        match nomination_state.latest_envelope {
            Some(latest_id) => match envelope_controller.get_envelope(&latest_id) {
                Some(env) => match &env.statement {
                    SCPStatement::Nominate(last_st) => {
                        if cur_st.is_older_than(last_st) {
                            return None;
                        }
                    },
                    _ => {},
                },
                None => {},
            },
            None => {},
        }
        nomination_state.latest_envelope = Some(cur_env_id);
        if self.slot_state.fully_validated {
            Some(cur_env_id)
        } else {
            None
        }
    }

    /// `process_nomination_envelope` at a recursion depth.
    fn process_nomination_at<H: HerderDriver>(
        &mut self,
        nomination_state: &mut NominationProtocolState,
        ballot_state: &mut BallotProtocolState,
        env_id: &SCPEnvelopeID,
        envelope_controller: &mut SCPEnvelopeController,
        quorum_manager: &QuorumManager,
        herder_driver: &mut H,
        depth: u32,
    ) -> (r: EnvelopeState)
        requires
            nomination_wf(*old(nomination_state)),
            old(ballot_state).latest_envelopes.wf(),
            stored_nomination(old(envelope_controller).envelopes.0@, *env_id) is Some,
        ensures
            nomination_grows(*old(nomination_state), *final(nomination_state)),
            ballot_frame(
                *old(ballot_state),
                *final(ballot_state),
                old(envelope_controller).envelopes.0@,
                final(envelope_controller).envelopes.0@,
            ),
            driver_frame(*old(self), *final(self)),
            nominations_kept_except(
                *old(nomination_state),
                *final(nomination_state),
                old(envelope_controller).envelopes.0@[*env_id].node_id@,
                old(self).local_node.node_id@,
            ),
            (r == EnvelopeState::Valid && old(envelope_controller).envelopes.0@[*env_id].node_id@
                != old(self).local_node.node_id@) ==> final(nomination_state).latest_nominations.get_spec(
                old(envelope_controller).envelopes.0@[*env_id].node_id@,
            ) == Some(*env_id),
            r == EnvelopeState::Valid ==> final(nomination_state).latest_nominations.contains_key(
                old(envelope_controller).envelopes.0@[*env_id].node_id@,
            ),
            (r == EnvelopeState::Invalid) == processed_newer_spec(
                *old(nomination_state),
                old(envelope_controller).envelopes.0@,
                old(envelope_controller).envelopes.0@[*env_id].node_id@,
                stored_nomination(old(envelope_controller).envelopes.0@, *env_id)->0,
            ),
            r == EnvelopeState::Invalid ==> *final(nomination_state) == *old(nomination_state)
                && *final(ballot_state) == *old(ballot_state) && *final(envelope_controller)
                == *old(envelope_controller) && *final(self) == *old(self),
            r == EnvelopeState::Valid ==> exists|l: NodeMap|
                #[trigger] recorded_nominations(
                    *old(nomination_state),
                    l,
                    old(envelope_controller).envelopes.0@[*env_id].node_id@,
                    *env_id,
                ) && (candidate_ratifiable(
                    old(self).local_node,
                    l,
                    old(envelope_controller).envelopes.0@,
                    *quorum_manager,
                    old(nomination_state).candidates@,
                    stored_nomination(old(envelope_controller).envelopes.0@, *env_id)->0.accepted,
                ) ==> (exists|v: u64|
                    #[trigger] final(nomination_state).candidates@.contains(v) && !old(
                        nomination_state,
                    ).candidates@.contains(v)) && (final(nomination_state).latest_composite_candidate
                    matches Some(val) ==> composite_bumped(
                    *final(self),
                    *final(ballot_state),
                    final(envelope_controller).envelopes.0@,
                    *final(nomination_state),
                    final(envelope_controller).envs_to_emit@,
                    val,
                ))),
            new_candidates_ratified(
                old(self).local_node,
                *old(nomination_state),
                *final(nomination_state),
                old(envelope_controller).envelopes.0@,
                *quorum_manager,
                old(envelope_controller).envelopes.0@[*env_id].node_id@,
                *env_id,
            ),
            new_accepted_justified(
                *old(herder_driver),
                old(self).local_node,
                *old(nomination_state),
                *final(nomination_state),
                old(envelope_controller).envelopes.0@,
                *quorum_manager,
                old(envelope_controller).envelopes.0@[*env_id].node_id@,
                *env_id,
            ),
        decreases nomination_fuel(depth), 1nat,
    {
        let env = match envelope_controller.get_envelope(env_id) {
            Some(e) => e.clone(),
            None => {
                return EnvelopeState::Invalid;
            },
        };
        let statement = match &env.statement {
            SCPStatement::Nominate(st) => st.clone(),
            _ => {
                return EnvelopeState::Invalid;
            },
        };
        if nomination_state.processed_newer_statement(&env.node_id, &statement, envelope_controller) {
            return EnvelopeState::Invalid;
        }
        nomination_state.record_envelope(env_id, envelope_controller);
        let ghost l1 = nomination_state.latest_nominations;
        let ghost acc = statement.accepted@;
        let ghost ln = self.local_node;
        let ghost e0 = envelope_controller.envelopes.0@;
        let ghost ns_rec = *nomination_state;
        let modified = self.state_may_have_changed(
            &statement,
            nomination_state,
            envelope_controller,
            quorum_manager,
            &*herder_driver,
        );
        let ghost a1 = nomination_state.accepted;
        proof {
            lemma_acceptance_walk(
                *herder_driver,
                ln,
                ns_rec,
                e0,
                *quorum_manager,
                statement.votes@,
                0,
            );
        }
        let mut new_candidates = false;
        let mut k: usize = 0;
        while k < statement.accepted.len()
            invariant_except_break
                !new_candidates,
                nomination_state.candidates@ == old(nomination_state).candidates@,
                forall|j: int|
                    0 <= j < k ==> !(!old(nomination_state).candidates@.contains(acc[j])
                        && #[trigger] crate::scp::scp_driver::federated_ratify_spec(
                        ln,
                        l1,
                        e0,
                        *quorum_manager,
                        StatementFilter::AcceptedNomination(acc[j]),
                    )),
            invariant
                acc == statement.accepted@,
                nomination_state.accepted == a1,
                ln == self.local_node,
                e0 == envelope_controller.envelopes.0@,
                recorded_nominations(
                    *old(nomination_state),
                    l1,
                    old(envelope_controller).envelopes.0@[*env_id].node_id@,
                    *env_id,
                ),
                nomination_state.latest_nominations == l1,
                k <= statement.accepted@.len(),
                nomination_grows(*old(nomination_state), *nomination_state),
                *ballot_state == *old(ballot_state),
                *envelope_controller == *old(envelope_controller),
                driver_frame(*old(self), *self),
                nominations_kept_except(
                    *old(nomination_state),
                    *nomination_state,
                    old(envelope_controller).envelopes.0@[*env_id].node_id@,
                    old(self).local_node.node_id@,
                ),
                old(envelope_controller).envelopes.0@[*env_id].node_id@ != old(self).local_node.node_id@
                    ==> nomination_state.latest_nominations.get_spec(
                    old(envelope_controller).envelopes.0@[*env_id].node_id@,
                ) == Some(*env_id),
                nomination_state.latest_nominations.contains_key(
                    old(envelope_controller).envelopes.0@[*env_id].node_id@,
                ),
            ensures
                new_candidates ==> exists|v: u64|
                    #[trigger] nomination_state.candidates@.contains(v) && !old(
                        nomination_state,
                    ).candidates@.contains(v),
                new_candidates_ratified(
                    ln,
                    *old(nomination_state),
                    *nomination_state,
                    e0,
                    *quorum_manager,
                    old(envelope_controller).envelopes.0@[*env_id].node_id@,
                    *env_id,
                ),
                !new_candidates ==> !candidate_ratifiable(
                    ln,
                    l1,
                    e0,
                    *quorum_manager,
                    old(nomination_state).candidates@,
                    acc,
                ),
            decreases statement.accepted@.len() - k,
        {
            let value = statement.accepted[k];
            if !nomination_state.candidates.contains(value) && self.federated_ratify(
                &StatementFilter::AcceptedNomination(value),
                &nomination_state.latest_nominations,
                &envelope_controller.envelopes,
                quorum_manager,
            ) {
                let _ = nomination_state.candidates.insert(value);
                self.slot_state.stop_timer(&SlotStateTimer::NominationProtocol);
                new_candidates = true;
                proof {
                    let sender = old(envelope_controller).envelopes.0@[*env_id].node_id@;
                    assert(recorded_nominations(*old(nomination_state), l1, sender, *env_id));
                    assert(nominations_since(*old(nomination_state), l1, sender, ln.node_id@, *env_id));
                    assert(envelopes_kept(e0, e0, ln.node_id@));
                    assert forall|v: u64|
                        #[trigger] nomination_state.candidates@.contains(v) && !old(
                            nomination_state,
                        ).candidates@.contains(v) implies exists|
                        l: NodeMap,
                        e: Map<SCPEnvelopeID, SCPEnvelope>,
                    |
                        nominations_since(*old(nomination_state), l, sender, ln.node_id@, *env_id)
                            && envelopes_kept(e0, e, ln.node_id@)
                            && #[trigger] crate::scp::scp_driver::federated_ratify_spec(
                            ln,
                            l,
                            e,
                            *quorum_manager,
                            StatementFilter::AcceptedNomination(v),
                        ) by {
                        assert(v == value);
                        assert(crate::scp::scp_driver::federated_ratify_spec(
                            ln,
                            l1,
                            e0,
                            *quorum_manager,
                            StatementFilter::AcceptedNomination(v),
                        ));
                    }
                }
                assert(nomination_state.candidates@.contains(value) && !old(
                    nomination_state,
                ).candidates@.contains(value));
                break;
            }
            k = k + 1;
        }
        let ghost c1 = nomination_state.candidates@;
        proof {
            assert(recorded_nominations(
                *old(nomination_state),
                l1,
                old(envelope_controller).envelopes.0@[*env_id].node_id@,
                *env_id,
            ));
        }
        let ghost ns1 = *nomination_state;
        if modified {
            let _ = self.emit_nomination(
                nomination_state,
                ballot_state,
                envelope_controller,
                quorum_manager,
                herder_driver,
                depth,
            );
        }
        let ghost ns2 = *nomination_state;
        proof {
            let sender = old(envelope_controller).envelopes.0@[*env_id].node_id@;
            let lid = ln.node_id@;
            assert forall|v: u64|
                #[trigger] ns2.candidates@.contains(v) && !old(nomination_state).candidates@.contains(v)
                    implies exists|l: NodeMap, e: Map<SCPEnvelopeID, SCPEnvelope>|
                nominations_since(*old(nomination_state), l, sender, lid, *env_id) && envelopes_kept(
                    e0,
                    e,
                    lid,
                ) && #[trigger] crate::scp::scp_driver::federated_ratify_spec(
                    ln,
                    l,
                    e,
                    *quorum_manager,
                    StatementFilter::AcceptedNomination(v),
                ) by {
                if !ns1.candidates@.contains(v) {
                    assert(modified);
                    let (l, e) = choose|l: NodeMap, e: Map<SCPEnvelopeID, SCPEnvelope>|
                        nominations_since(ns1, l, lid, lid, 0) && envelopes_kept(e0, e, lid)
                            && #[trigger] crate::scp::scp_driver::federated_ratify_spec(
                            ln,
                            l,
                            e,
                            *quorum_manager,
                            StatementFilter::AcceptedNomination(v),
                        );
                    assert(recorded_nominations(*old(nomination_state), l1, sender, *env_id));
                    assert(nominations_since(*old(nomination_state), l, sender, lid, *env_id)) by {
                        assert forall|q: Seq<char>| q != sender && q != lid implies #[trigger] l.get_spec(q)
                            == old(nomination_state).latest_nominations.get_spec(q) by {
                            assert(l.get_spec(q) == l1.get_spec(q));
                        }
                        if sender != lid {
                            assert(l.get_spec(sender) == l1.get_spec(sender));
                        }
                    }
                }
            }
            assert(recorded_nominations(*old(nomination_state), l1, sender, *env_id));
            assert(nominations_since(*old(nomination_state), l1, sender, lid, *env_id));
            assert(envelopes_kept(e0, e0, lid));
            assert forall|x: u64|
                #[trigger] ns2.accepted@.contains(x) && !old(nomination_state).accepted@.contains(x)
                    implies exists|l: NodeMap, e: Map<SCPEnvelopeID, SCPEnvelope>, v: u64|
                nominations_since(*old(nomination_state), l, sender, lid, *env_id) && envelopes_kept(
                    e0,
                    e,
                    lid,
                ) && #[trigger] federated_accept_spec(
                    ln,
                    l,
                    e,
                    *quorum_manager,
                    StatementFilter::VotedNomination(v),
                    StatementFilter::AcceptedNomination(v),
                ) && herder_acceptance(*old(herder_driver), v) == Some(x) by {
                if a1@.contains(x) {
                    let v = choose|v: u64|
                        #[trigger] nomination_acceptable(ln, ns_rec, e0, *quorum_manager, v)
                            && herder_acceptance(*old(herder_driver), v) == Some(x);
                    assert(federated_accept_spec(
                        ln,
                        l1,
                        e0,
                        *quorum_manager,
                        StatementFilter::VotedNomination(v),
                        StatementFilter::AcceptedNomination(v),
                    ));
                } else {
                    assert(modified);
                    let (l, e, v) = choose|l: NodeMap, e: Map<SCPEnvelopeID, SCPEnvelope>, v: u64|
                        nominations_since(ns1, l, lid, lid, 0) && envelopes_kept(e0, e, lid)
                            && #[trigger] federated_accept_spec(
                            ln,
                            l,
                            e,
                            *quorum_manager,
                            StatementFilter::VotedNomination(v),
                            StatementFilter::AcceptedNomination(v),
                        ) && herder_acceptance(*old(herder_driver), v) == Some(x);
                    assert(nominations_since(*old(nomination_state), l, sender, lid, *env_id)) by {
                        assert forall|q: Seq<char>| q != sender && q != lid implies #[trigger] l.get_spec(q)
                            == old(nomination_state).latest_nominations.get_spec(q) by {
                            assert(l.get_spec(q) == l1.get_spec(q));
                        }
                        if sender != lid {
                            assert(l.get_spec(sender) == l1.get_spec(sender));
                        }
                    }
                }
            }
        }
        if new_candidates {
            match herder_driver.combine_candidates(&nomination_state.candidates) {
                Some(v) => {
                    nomination_state.latest_composite_candidate = Some(v);
                },
                None => {},
            }
            match nomination_state.latest_composite_candidate {
                Some(val) => {
                    let ghost od = *self;
                    let ghost os = *ballot_state;
                    let ghost oe = envelope_controller.envelopes.0@;
                    let ghost on = *nomination_state;
                    let ghost oq = envelope_controller.envs_to_emit@;
                    let u = self.bump_state(
                        ballot_state,
                        nomination_state,
                        &val,
                        true,
                        &mut envelope_controller.envelopes,
                        &mut envelope_controller.envs_to_emit,
                        quorum_manager,
                        herder_driver,
                    );
                    proof {
                        assert(bump_effect(
                            od,
                            *self,
                            os,
                            *ballot_state,
                            oe,
                            envelope_controller.envelopes.0@,
                            on,
                            *nomination_state,
                            oq,
                            envelope_controller.envs_to_emit@,
                            composite_target(os, val),
                            u,
                        ));
                        assert(composite_bumped(
                            *self,
                            *ballot_state,
                            envelope_controller.envelopes.0@,
                            *nomination_state,
                            envelope_controller.envs_to_emit@,
                            val,
                        ));
                    }
                },
                None => {},
            }
        }
        proof {
            assert(c1.subset_of(nomination_state.candidates@));
            assert(stored_nomination(old(envelope_controller).envelopes.0@, *env_id)->0.accepted == acc);
            if new_candidates {
                let v = choose|v: u64| #[trigger] c1.contains(v) && !old(nomination_state).candidates@.contains(v);
                assert(nomination_state.candidates@.contains(v));
            }
        }
        EnvelopeState::Valid
    }

    /// Takes a NOMINATE envelope into account: unless a newer nomination of
    /// its sender was processed, records it, accepts what federated voting
    /// accepts, confirms as candidates the accepted values that federated
    /// voting ratifies, re-emits the nomination when it changed, and with a
    /// new candidate moves the ballot protocol to the composite value.
    pub fn process_nomination_envelope<H: HerderDriver>(
        &mut self,
        nomination_state: &mut NominationProtocolState,
        ballot_state: &mut BallotProtocolState,
        env_id: &SCPEnvelopeID,
        envelope_controller: &mut SCPEnvelopeController,
        quorum_manager: &QuorumManager,
        herder_driver: &mut H,
    ) -> (r: EnvelopeState)
        requires
            nomination_wf(*old(nomination_state)),
            old(ballot_state).latest_envelopes.wf(),
            stored_nomination(old(envelope_controller).envelopes.0@, *env_id) is Some,
        ensures
            nomination_grows(*old(nomination_state), *final(nomination_state)),
            ballot_frame(
                *old(ballot_state),
                *final(ballot_state),
                old(envelope_controller).envelopes.0@,
                final(envelope_controller).envelopes.0@,
            ),
            driver_frame(*old(self), *final(self)),
            nominations_kept_except(
                *old(nomination_state),
                *final(nomination_state),
                old(envelope_controller).envelopes.0@[*env_id].node_id@,
                old(self).local_node.node_id@,
            ),
            (r == EnvelopeState::Valid && old(envelope_controller).envelopes.0@[*env_id].node_id@
                != old(self).local_node.node_id@) ==> final(nomination_state).latest_nominations.get_spec(
                old(envelope_controller).envelopes.0@[*env_id].node_id@,
            ) == Some(*env_id),
            r == EnvelopeState::Valid ==> final(nomination_state).latest_nominations.contains_key(
                old(envelope_controller).envelopes.0@[*env_id].node_id@,
            ),
            (r == EnvelopeState::Invalid) == processed_newer_spec(
                *old(nomination_state),
                old(envelope_controller).envelopes.0@,
                old(envelope_controller).envelopes.0@[*env_id].node_id@,
                stored_nomination(old(envelope_controller).envelopes.0@, *env_id)->0,
            ),
            r == EnvelopeState::Invalid ==> *final(nomination_state) == *old(nomination_state)
                && *final(ballot_state) == *old(ballot_state) && *final(envelope_controller)
                == *old(envelope_controller) && *final(self) == *old(self),
            nomination_envelope_effect(
                *old(self),
                *final(self),
                *old(nomination_state),
                *final(nomination_state),
                *old(ballot_state),
                *final(ballot_state),
                *old(envelope_controller),
                *final(envelope_controller),
                *quorum_manager,
                *env_id,
                r,
            ),
            new_accepted_justified(
                *old(herder_driver),
                old(self).local_node,
                *old(nomination_state),
                *final(nomination_state),
                old(envelope_controller).envelopes.0@,
                *quorum_manager,
                old(envelope_controller).envelopes.0@[*env_id].node_id@,
                *env_id,
            ),
    {
        self.process_nomination_at(
            nomination_state,
            ballot_state,
            env_id,
            envelope_controller,
            quorum_manager,
            herder_driver,
            0,
        )
    }
}

} // verus!

verus! {

/// What `nominate(value, previous_value)` does: with a candidate it does
/// nothing; timed out before nominating started, it only counts the timeout;
/// otherwise it starts the next round, gathers and casts votes, queues
/// exactly one retry of itself, and emits.
pub open spec fn nominate_effect(
    od: SlotDriver,
    nd: SlotDriver,
    os: NominationProtocolState,
    ns: NominationProtocolState,
    obs: BallotProtocolState,
    nbs: BallotProtocolState,
    oc: SCPEnvelopeController,
    nc: SCPEnvelopeController,
    value: u64,
    previous_value: u64,
    r: Option<SCPEnvelopeID>,
) -> bool {
    &&& (os.candidates@ != Set::<u64>::empty() ==> r is None && ns == os && nbs == obs && nc == oc
        && nd == od)
    &&& ((os.candidates@ == Set::<u64>::empty() && os.timed_out && !os.nomination_started) ==> r is None
        && ns == (NominationProtocolState { num_timeouts: (os.num_timeouts + 1) as u64, ..os })
        && nbs == obs && nc == oc && nd == od)
    &&& ((os.candidates@ == Set::<u64>::empty() && !(os.timed_out && !os.nomination_started)) ==> {
        &&& ns.round_number == os.round_number + 1
        &&& ns.previous_value == previous_value
        &&& ns.num_timeouts == os.num_timeouts + if os.timed_out {
            1int
        } else {
            0int
        }
        &&& os.votes@.subset_of(ns.votes@)
        &&& os.round_leaders.contains_spec(od.local_node.node_id@)
            ==> exists|x: u64| #[trigger] ns.votes@.contains(x)
        &&& (os.round_leaders.contains_spec(od.local_node.node_id@)
            && os.votes@ == Set::<u64>::empty()
            && os.latest_nominations.get_spec(od.local_node.node_id@) is None)
            ==> ns.latest_envelope is Some
        &&& nd.task_queue.jobs@.len() > od.task_queue.jobs@.len()
        &&& forall|k: int|
            od.task_queue.jobs@.len() < k < nd.task_queue.jobs@.len() ==> !(
            #[trigger] nd.task_queue.jobs@[k].task is RetryNominate)
        &&& ({
            let job = nd.task_queue.jobs@[od.task_queue.jobs@.len() as int];
            &&& job.id == od.slot_index
            &&& job.task matches SlotTask::RetryNominate(a) && a.slot_idx == od.slot_index
                && a.value == value && a.previous_value == previous_value
        })
    })
    &&& nomination_wf(ns)
    &&& os.candidates@.subset_of(ns.candidates@)
    &&& ballot_frame(obs, nbs, oc.envelopes.0@, nc.envelopes.0@)
    &&& crate::scp::ballot_protocol::driver_grows(od, nd)
}

impl SlotDriver {
    /// Starts or continues nominating `value` (after `previous_value`): unless
    /// a candidate is already confirmed or the round timed out before
    /// nomination began, opens the next round, votes for values of the round
    /// leaders (and for `value` when this node leads and has no vote yet),
    /// schedules a retry after the herder's timeout, and emits the nomination
    /// if the votes changed.
    pub fn nominate<H: HerderDriver>(
        &mut self,
        state: &mut NominationProtocolState,
        ballot_state: &mut BallotProtocolState,
        value: u64,
        previous_value: &u64,
        envelope_controller: &mut SCPEnvelopeController,
        quorum_manager: &QuorumManager,
        herder_driver: &mut H,
    ) -> (r: Option<SCPEnvelopeID>)
        requires
            nomination_wf(*old(state)),
            old(ballot_state).latest_envelopes.wf(),
            old(state).candidates@ == Set::<u64>::empty() && old(state).timed_out ==> old(
                state,
            ).num_timeouts < u64::MAX,
            old(state).candidates@ == Set::<u64>::empty() && !(old(state).timed_out && !old(
                state,
            ).nomination_started) ==> old(state).round_number < u64::MAX,
        ensures
            nominate_effect(
                *old(self),
                *final(self),
                *old(state),
                *final(state),
                *old(ballot_state),
                *final(ballot_state),
                *old(envelope_controller),
                *final(envelope_controller),
                value,
                *previous_value,
                r,
            ),
            (old(state).candidates@ == Set::<u64>::empty() && !(old(state).timed_out && !old(
                state,
            ).nomination_started)) ==> ({
                let g = gathered_votes(
                    *old(herder_driver),
                    old(state).votes@,
                    old(state).round_leaders.keys(),
                    old(state).latest_nominations,
                    old(envelope_controller).envelopes.0@,
                    old(state).round_leaders.keys().len() as int,
                );
                &&& g.subset_of(final(state).votes@)
                &&& (old(state).round_leaders.contains_spec(old(self).local_node.node_id@) && g
                    == Set::<u64>::empty()) ==> final(state).votes@.contains(value)
            }),
    {
        if !state.candidates.is_empty() {
            return None;
        }
        if state.timed_out {
            state.num_timeouts = state.num_timeouts + 1;
        }
        if state.timed_out && !state.nomination_started {
            return None;
        }
        state.nomination_started = true;
        state.previous_value = *previous_value;
        state.round_number = state.round_number + 1;
        let timeout = herder_driver.compute_timeout(state.round_number);
        let mut updated = state.gather_votes_from_round_leaders(
            &self.slot_index,
            &self.local_node.node_id,
            herder_driver,
            envelope_controller,
        );
        let ghost g = state.votes@;
        if state.round_leaders.contains(&self.local_node.node_id) && state.votes.is_empty() {
            let _ = state.votes.insert(value);
            updated = true;
            herder_driver.nominating_value(&value, &self.slot_index);
            assert(state.votes@.contains(value));
        } else if state.round_leaders.contains(&self.local_node.node_id) {
            assert(!(state.votes@ =~= Set::<u64>::empty()));
        }
        let now = crate::scp::envelope::current_time_nanos();
        let t: u128 = timeout as u128;
        assert(t * 1_000_000_000 <= 0xffff_ffff_ffff_ffffu128 * 1_000_000_000) by (nonlinear_arith)
            requires
                t <= 0xffff_ffff_ffff_ffffu128,
        ;
        let job = SlotJob {
            id: self.slot_index,
            timestamp: now.saturating_add(t * 1_000_000_000u128),
            task: SlotTask::RetryNominate(
                RetryNominateArg { slot_idx: self.slot_index, value, previous_value: *previous_value },
            ),
        };
        self.task_queue.submit(job);
        assert(g.subset_of(state.votes@));
        if updated {
            self.emit_nomination(
                state,
                ballot_state,
                envelope_controller,
                quorum_manager,
                herder_driver,
                0,
            )
        } else {
            None
        }
    }
}

} // verus!
