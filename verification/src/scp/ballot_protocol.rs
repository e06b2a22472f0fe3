use vstd::prelude::*;

use std::collections::VecDeque;

use crate::scp::scp::EnvelopeState;

use crate::scp::envelope::{EnvMap, SCPEnvelope, SCPEnvelopeID};
use crate::scp::scp_driver::HashValue;
use crate::scp::statement::{
    ConfirmView, ExternalizeView, PrepareView, SCPStatement, SCPStatementConfirm,
    SCPStatementExternalize, SCPStatementPrepare, StatementView,
};
use crate::utils::value_set::ValueSet;
use crate::scp::scp::NodeID;
use crate::application::quorum::{is_v_blocking_spec, QuorumSet};
use crate::application::quorum_manager::QuorumManager;
use crate::scp::local_node::{selected_nodes, LocalNodeInfo};
use crate::scp::nomination_protocol::NominationProtocolState;
use crate::scp::queue::{AbandonBallotArg, SlotJob, SlotTask};
use crate::scp::scp_driver::{
    federated_accept_spec, federated_ratify_spec, HerderDriver, SlotDriver, SlotStateTimer,
    ValidationLevel,
};
use crate::scp::statement::{
    is_ballot_statement, nomination_values_spec, statement_sane_spec, working_ballot_spec,
};
use crate::scp::statement_filter::StatementFilter;
use crate::utils::node_map::NodeMap;

verus! {

/// A ballot `<n, x>`: a counter `n` and a nomination value `x`.
#[derive(Clone, Copy, PartialEq, Eq, Structural, Debug, Hash)]
pub struct SCPBallot {
    pub counter: u32,
    pub value: u64,
}

/// Ballots are ordered first by counter, then by value.
pub open spec fn ballot_lt(a: SCPBallot, b: SCPBallot) -> bool {
    a.counter < b.counter || (a.counter == b.counter && a.value < b.value)
}

pub open spec fn ballot_le(a: SCPBallot, b: SCPBallot) -> bool {
    ballot_lt(a, b) || a == b
}

/// `a ~ b`: the two ballots carry the same value.
pub open spec fn compatible_spec(a: SCPBallot, b: SCPBallot) -> bool {
    a.value == b.value
}

/// `a ⋦ b`: `a <= b` and the values differ.
pub open spec fn less_and_incompatible_spec(a: SCPBallot, b: SCPBallot) -> bool {
    ballot_le(a, b) && !compatible_spec(a, b)
}

/// `a ≲ b`: `a <= b` and the values agree.
pub open spec fn less_and_compatible_spec(a: SCPBallot, b: SCPBallot) -> bool {
    ballot_le(a, b) && compatible_spec(a, b)
}

/// Order on optional ballots: a missing ballot comes before every ballot.
pub open spec fn opt_ballot_lt(a: Option<SCPBallot>, b: Option<SCPBallot>) -> bool {
    match (a, b) {
        (None, Some(_)) => true,
        (Some(x), Some(y)) => ballot_lt(x, y),
        _ => false,
    }
}

impl SCPBallot {
    pub open spec fn default_spec() -> SCPBallot {
        SCPBallot { counter: 0, value: 0 }
    }

    pub fn new(counter: u32, value: u64) -> (b: Self)
        ensures
            b.counter == counter,
            b.value == value,
    {
        SCPBallot { counter, value }
    }

    pub fn make_ballot(other: &Self) -> (b: Self)
        ensures
            b == *other,
    {
        SCPBallot { counter: other.counter, value: other.value }
    }

    pub fn default() -> (b: Self)
        ensures
            b.counter == 0,
            b.value == 0,
    {
        SCPBallot { counter: 0, value: 0 }
    }

    pub fn compatible(&self, other: &Self) -> (r: bool)
        ensures
            r == compatible_spec(*self, *other),
    {
        self.value == other.value
    }

    pub fn lt(&self, other: &Self) -> (r: bool)
        ensures
            r == ballot_lt(*self, *other),
    {
        self.counter < other.counter || (self.counter == other.counter && self.value < other.value)
    }

    pub fn le(&self, other: &Self) -> (r: bool)
        ensures
            r == ballot_le(*self, *other),
    {
        self.lt(other) || *self == *other
    }

    pub fn less_and_incompatible(&self, other: &Self) -> (r: bool)
        ensures
            r == less_and_incompatible_spec(*self, *other),
    {
        self.le(other) && !self.compatible(other)
    }

    pub fn less_and_compatible(&self, other: &Self) -> (r: bool)
        ensures
            r == less_and_compatible_spec(*self, *other),
    {
        self.le(other) && self.compatible(other)
    }
}

/// `a < b` on optional ballots.
pub fn opt_ballot_less(a: &Option<SCPBallot>, b: &Option<SCPBallot>) -> (r: bool)
    ensures
        r == opt_ballot_lt(*a, *b),
{
    match (a, b) {
        (None, Some(_)) => true,
        (Some(x), Some(y)) => x.lt(y),
        _ => false,
    }
}

pub open spec fn ballots_increasing(s: Seq<SCPBallot>) -> bool {
    forall|i: int, j: int| 0 <= i < j < s.len() ==> ballot_lt(s[i], s[j])
}

/// A set of ballots, walked in increasing ballot order.
pub struct BallotSet {
    items: Vec<SCPBallot>,
}

impl View for BallotSet {
    type V = Set<SCPBallot>;

    open spec fn view(&self) -> Set<SCPBallot> {
        self.seq().to_set()
    }
}

impl BallotSet {
    /// The members in increasing order.
    pub closed spec fn seq(&self) -> Seq<SCPBallot> {
        self.items@
    }

    pub closed spec fn wf(&self) -> bool {
        ballots_increasing(self.items@)
    }

    pub fn new() -> (s: Self)
        ensures
            s.wf(),
            s.seq() == Seq::<SCPBallot>::empty(),
            s@ == Set::<SCPBallot>::empty(),
    {
        let s = BallotSet { items: Vec::new() };
        assert(s@ =~= Set::<SCPBallot>::empty());
        s
    }

    pub fn len(&self) -> (n: usize)
        ensures
            n == self.seq().len(),
    {
        self.items.len()
    }

    pub fn at(&self, i: usize) -> (b: SCPBallot)
        requires
            i < self.seq().len(),
        ensures
            b == self.seq()[i as int],
    {
        self.items[i]
    }

    /// The members are walked in increasing order, and they are the members
    /// of the set.
    pub proof fn lemma_wf_increasing(&self)
        requires
            self.wf(),
        ensures
            ballots_increasing(self.seq()),
            forall|b: SCPBallot| #[trigger] self@.contains(b) <==> self.seq().contains(b),
    {
    }

    /// Adds `b` at its place in the order.
    pub fn insert(&mut self, b: SCPBallot)
        requires
            old(self).wf(),
        ensures
            final(self).wf(),
            final(self)@ == old(self)@.insert(b),
    {
        let ghost old_seq = self.seq();
        let mut p: usize = 0;
        while p < self.items.len() && self.items[p].lt(&b)
            invariant
                p <= self.items@.len(),
                self.items@ == old_seq,
                forall|i: int| 0 <= i < p ==> ballot_lt(#[trigger] old_seq[i], b),
            decreases self.items@.len() - p,
        {
            p = p + 1;
        }
        if p < self.items.len() && self.items[p] == b {
            proof {
                assert(old_seq.contains(b));
                assert(self@ =~= old_seq.to_set().insert(b));
            }
            return;
        }
        self.items.insert(p, b);
        proof {
            assert(self.seq() =~= old_seq.insert(p as int, b));
            assert forall|i: int, j: int| 0 <= i < j < self.seq().len() implies ballot_lt(
                self.seq()[i],
                self.seq()[j],
            ) by {
                if i < p && j > p {
                    assert(ballot_lt(old_seq[i], b));
                    assert(ballot_le(b, old_seq[p as int]));
                } else if i == p && j > p {
                    assert(ballot_le(b, old_seq[p as int]));
                    assert(j - 1 == p || ballot_lt(old_seq[p as int], old_seq[j - 1]));
                } else if i > p {
                    assert(ballot_lt(old_seq[i - 1], old_seq[j - 1]));
                } else if j < p {
                    assert(ballot_lt(old_seq[i], old_seq[j]));
                }
            }
            assert forall|y: SCPBallot| self@.contains(y) <==> old_seq.to_set().insert(b).contains(
                y,
            ) by {
                if old_seq.contains(y) {
                    let j = choose|j: int| 0 <= j < old_seq.len() && old_seq[j] == y;
                    if j < p {
                        assert(self.seq()[j] == y);
                    } else {
                        assert(self.seq()[j + 1] == y);
                    }
                }
                if self.seq().contains(y) && y != b {
                    let j = choose|j: int| 0 <= j < self.seq().len() && self.seq()[j] == y;
                    if j < p {
                        assert(old_seq[j] == y);
                    } else if j > p {
                        assert(old_seq[j - 1] == y);
                    }
                }
                assert(self.seq()[p as int] == b);
            }
            assert(self@ =~= old_seq.to_set().insert(b));
        }
    }
}

} // verus!

verus! {

/// The phase of the ballot protocol for a slot.
#[derive(PartialEq, Eq, Structural, Debug, Clone, Copy)]
pub enum SCPPhase {
    PhasePrepare,
    PhaseConfirm,
    PhaseExternalize,
}

pub open spec fn phase_rank(p: SCPPhase) -> int {
    match p {
        SCPPhase::PhasePrepare => 0,
        SCPPhase::PhaseConfirm => 1,
        SCPPhase::PhaseExternalize => 2,
    }
}

/// The ballot carried by a statement of the ballot protocol: its `h` counter
/// with its value.
pub trait ToBallot {
    spec fn to_ballot_spec(&self) -> SCPBallot;

    fn to_ballot(&self) -> (b: SCPBallot)
        ensures
            b == self.to_ballot_spec(),
    ;
}

impl ToBallot for crate::scp::statement::SCPStatementPrepare {
    open spec fn to_ballot_spec(&self) -> SCPBallot {
        SCPBallot { counter: self.num_high, value: self.ballot.value }
    }

    fn to_ballot(&self) -> (b: SCPBallot) {
        SCPBallot { counter: self.num_high, value: self.ballot.value }
    }
}

impl ToBallot for crate::scp::statement::SCPStatementConfirm {
    open spec fn to_ballot_spec(&self) -> SCPBallot {
        SCPBallot { counter: self.num_high, value: self.ballot.value }
    }

    fn to_ballot(&self) -> (b: SCPBallot) {
        SCPBallot { counter: self.num_high, value: self.ballot.value }
    }
}

impl ToBallot for crate::scp::statement::SCPStatementExternalize {
    open spec fn to_ballot_spec(&self) -> SCPBallot {
        SCPBallot { counter: self.num_high, value: self.commit.value }
    }

    fn to_ballot(&self) -> (b: SCPBallot) {
        SCPBallot { counter: self.num_high, value: self.commit.value }
    }
}

/// A COMMIT statement; the protocol carries commits in CONFIRM statements.
pub struct SPCStatementCommit {}

/// The ballot protocol state of a slot.
pub struct BallotProtocolState {
    pub heard_from_quorum: bool,
    /// `b`: the current ballot.
    pub current_ballot: Option<SCPBallot>,
    /// `p`: the highest ballot accepted as prepared.
    pub prepared: Option<SCPBallot>,
    /// `p'`: the highest ballot accepted as prepared that is below and
    /// incompatible with `p`.
    pub prepared_prime: Option<SCPBallot>,
    /// `h`
    pub high_ballot: Option<SCPBallot>,
    /// `c`
    pub commit: Option<SCPBallot>,
    /// The id of the latest ballot envelope of each node.
    pub latest_envelopes: NodeMap,
    pub phase: SCPPhase,
    pub value_override: Option<u64>,
    pub current_message_level: usize,
    /// The last envelope made by this node.
    pub last_envelope: Option<SCPEnvelope>,
    /// The last envelope sent by this node.
    pub last_envelope_emitted: Option<SCPEnvelope>,
    pub message_level: u32,
}

/// The invariants of the ballot state (the SCP paper, p. 23): outside PREPARE
/// all of `b, p, c, h` are set; `b`'s counter is not 0; `p' ⋦ p`; `h ≲ b`;
/// `c ≲ h ≲ b`.
pub open spec fn ballot_invariants(s: BallotProtocolState) -> bool {
    &&& (s.phase != SCPPhase::PhasePrepare ==> s.current_ballot is Some && s.prepared is Some
        && s.commit is Some && s.high_ballot is Some)
    &&& (s.current_ballot matches Some(b) ==> b.counter != 0)
    &&& (match (s.prepared, s.prepared_prime) {
        (Some(p), Some(pp)) => ballot_lt(pp, p) && !compatible_spec(pp, p),
        _ => true,
    })
    &&& (match s.high_ballot {
        Some(h) => match s.current_ballot {
            Some(b) => less_and_compatible_spec(h, b),
            None => false,
        },
        None => true,
    })
    &&& (match s.commit {
        Some(c) => match (s.current_ballot, s.high_ballot) {
            (Some(b), Some(h)) => less_and_compatible_spec(c, h) && less_and_compatible_spec(h, b),
            _ => false,
        },
        None => true,
    })
}

/// The effect of `set_prepared(b)` on `(p, p')`, and whether it did work.
pub open spec fn set_prepared_spec(
    p: Option<SCPBallot>,
    pp: Option<SCPBallot>,
    b: SCPBallot,
) -> (Option<SCPBallot>, Option<SCPBallot>, bool) {
    match p {
        Some(p) => if ballot_lt(p, b) {
            (Some(b), if !compatible_spec(p, b) { Some(p) } else { pp }, true)
        } else if ballot_lt(b, p) {
            if pp is None || (ballot_lt(pp->0, b) && !compatible_spec(p, b)) {
                (Some(p), Some(b), true)
            } else {
                (Some(p), pp, false)
            }
        } else {
            (Some(p), pp, false)
        },
        None => (Some(b), pp, true),
    }
}

/// The state of a slot's ballot protocol before anything happened.
pub open spec fn ballot_state_is_default(s: BallotProtocolState) -> bool {
    &&& !s.heard_from_quorum
    &&& s.current_ballot is None
    &&& s.prepared is None
    &&& s.prepared_prime is None
    &&& s.high_ballot is None
    &&& s.commit is None
    &&& s.latest_envelopes.wf()
    &&& s.latest_envelopes.keys().len() == 0
    &&& s.phase == SCPPhase::PhasePrepare
    &&& s.value_override is None
    &&& s.current_message_level == 0
    &&& s.last_envelope is None
    &&& s.last_envelope_emitted is None
    &&& s.message_level == 0
}

/// The ballot state once `b` is moved to `ballot`: `h` and `c` are dropped
/// if `h` is incompatible with it, and having heard from a quorum is
/// forgotten when the counter changes.
pub open spec fn bump_to_ballot_spec(s: BallotProtocolState, ballot: SCPBallot) -> BallotProtocolState {
    let drop = s.high_ballot matches Some(h) && !compatible_spec(h, ballot);
    BallotProtocolState {
        current_ballot: Some(ballot),
        high_ballot: if drop {
            None
        } else {
            s.high_ballot
        },
        commit: if drop {
            None
        } else {
            s.commit
        },
        heard_from_quorum: s.heard_from_quorum && (s.current_ballot matches Some(c) && c.counter
            == ballot.counter),
        ..s
    }
}

/// The ballot state once `b` is moved up to `ballot` unless it is above.
pub open spec fn update_current_if_needed_spec(s: BallotProtocolState, ballot: SCPBallot) -> BallotProtocolState {
    if s.current_ballot matches Some(c) && ballot_lt(ballot, c) {
        s
    } else {
        bump_to_ballot_spec(s, ballot)
    }
}

/// The ballot state once commit is accepted over `[commit, high]`: the
/// overriding value is `high`'s; `c` and `h` become `commit` and `high`; a
/// node still preparing moves to CONFIRM, moves `b` to `high` unless `high`
/// is below and compatible with it, and forgets `p'`; when anything changed,
/// `b` is moved up to `high` unless above.
pub open spec fn accept_commit_state(
    s: BallotProtocolState,
    commit: SCPBallot,
    high: SCPBallot,
) -> BallotProtocolState {
    let s0 = BallotProtocolState { value_override: Some(high.value), ..s };
    let changed = s.high_ballot != Some(high) || s.commit != Some(commit);
    let s1 = if changed {
        BallotProtocolState { commit: Some(commit), high_ballot: Some(high), ..s0 }
    } else {
        s0
    };
    let s2 = if s.phase == SCPPhase::PhasePrepare {
        let a = BallotProtocolState { phase: SCPPhase::PhaseConfirm, ..s1 };
        let b = if a.current_ballot matches Some(c) && !less_and_compatible_spec(high, c) {
            bump_to_ballot_spec(a, high)
        } else {
            a
        };
        BallotProtocolState { prepared_prime: None, ..b }
    } else {
        s1
    };
    if changed || s.phase == SCPPhase::PhasePrepare {
        update_current_if_needed_spec(s2, high)
    } else {
        s2
    }
}

impl BallotProtocolState {
    pub fn default() -> (s: Self)
        ensures
            ballot_state_is_default(s),
            !s.heard_from_quorum,
            s.current_ballot is None,
            s.prepared is None,
            s.prepared_prime is None,
            s.high_ballot is None,
            s.commit is None,
            s.latest_envelopes.wf(),
            s.latest_envelopes.keys().len() == 0,
            s.phase == SCPPhase::PhasePrepare,
            s.value_override is None,
            s.current_message_level == 0,
            s.last_envelope is None,
            s.last_envelope_emitted is None,
            s.message_level == 0,
            ballot_invariants(s),
    {
        BallotProtocolState {
            heard_from_quorum: false,
            current_ballot: None,
            prepared: None,
            prepared_prime: None,
            high_ballot: None,
            commit: None,
            latest_envelopes: NodeMap::new(),
            phase: SCPPhase::PhasePrepare,
            value_override: None,
            current_message_level: 0,
            last_envelope: None,
            last_envelope_emitted: None,
            message_level: 0,
        }
    }

    /// Checks the invariants of the ballot state: a state that breaks them is
    /// refused by the precondition, so a caller must already know they hold.
    pub fn check_invariants(&self)
        requires
            ballot_invariants(*self),
    {
        let ok = self.invariants_hold();
        assert(ok);
    }

    /// Whether the invariants of the ballot state hold; the protocol's steps
    /// test this before relying on them.
    pub fn invariants_hold(&self) -> (r: bool)
        ensures
            r == ballot_invariants(*self),
    {
        if self.phase != SCPPhase::PhasePrepare {
            if !(self.current_ballot.is_some() && self.prepared.is_some() && self.commit.is_some()
                && self.high_ballot.is_some()) {
                return false;
            }
        }
        if let Some(b) = &self.current_ballot {
            if b.counter == 0 {
                return false;
            }
        }
        if let Some(p) = &self.prepared {
            if let Some(pp) = &self.prepared_prime {
                if !(pp.lt(p) && !pp.compatible(p)) {
                    return false;
                }
            }
        }
        if let Some(h) = &self.high_ballot {
            match &self.current_ballot {
                Some(b) => {
                    if !h.less_and_compatible(b) {
                        return false;
                    }
                },
                None => {
                    return false;
                },
            }
        }
        if let Some(c) = &self.commit {
            match (&self.current_ballot, &self.high_ballot) {
                (Some(b), Some(h)) => {
                    if !(c.less_and_compatible(h) && h.less_and_compatible(b)) {
                        return false;
                    }
                },
                _ => {
                    return false;
                },
            }
        }
        true
    }

    /// Records that commit is accepted over `[commit, high]`, moving to
    /// CONFIRM; returns whether anything but the overriding value changed.
    pub fn accept_commit(&mut self, commit: &SCPBallot, high: &SCPBallot) -> (did_work: bool)
        requires
            old(self).phase != SCPPhase::PhaseExternalize,
        ensures
            *final(self) == accept_commit_state(*old(self), *commit, *high),
            did_work == (old(self).high_ballot != Some(*high) || old(self).commit != Some(*commit)
                || old(self).phase == SCPPhase::PhasePrepare),
    {
        let mut did_work = false;
        self.value_override = Some(high.value);
        let same_high = match &self.high_ballot {
            Some(h) => *h == *high,
            None => false,
        };
        let same_commit = match &self.commit {
            Some(c) => *c == *commit,
            None => false,
        };
        if !same_high || !same_commit {
            self.commit = Some(*commit);
            self.high_ballot = Some(*high);
            did_work = true;
        }
        if self.phase == SCPPhase::PhasePrepare {
            self.phase = SCPPhase::PhaseConfirm;
            let bump = match &self.current_ballot {
                Some(c) => !high.less_and_compatible(c),
                None => false,
            };
            if bump {
                self.bump_to_ballot(false, high);
            }
            self.prepared_prime = None;
            did_work = true;
        }
        if did_work {
            let _ = self.update_current_if_needed(high);
        }
        did_work
    }

    /// Records that `ballot` is accepted as prepared: `p` and `p'` as
    /// `set_prepared` leaves them, and `c` dropped when `h` is now below and
    /// incompatible with `p` or `p'`; returns whether anything changed.
    pub fn accept_prepared(&mut self, ballot: &SCPBallot) -> (did_work: bool)
        ensures
            did_work == accept_prepared_work_spec(*old(self), *ballot),
            did_work ==> *final(self) == accept_prepared_state(*old(self), *ballot),
            !did_work ==> *final(self) == *old(self),
    {
        let can_prepare = self.invariants_hold() && match self.prepared {
            Some(p) => !(ballot.lt(&p) && ballot.compatible(&p) && self.prepared_prime.is_none()),
            None => match self.prepared_prime {
                Some(pp) => pp.lt(ballot) && !pp.compatible(ballot),
                None => true,
            },
        };
        if !can_prepare {
            return false;
        }
        let mut did_work = self.set_prepared(ballot);
        if self.commit.is_some() {
            if let Some(h) = self.high_ballot {
                let below_p = match &self.prepared {
                    Some(p) => h.less_and_incompatible(p),
                    None => false,
                };
                let below_pp = match &self.prepared_prime {
                    Some(pp) => h.less_and_incompatible(pp),
                    None => false,
                };
                if below_p || below_pp {
                    self.commit = None;
                    did_work = true;
                }
            }
        }
        did_work
    }

    /// Records that `new_high` (and `new_commit`, when not zero) is
    /// confirmed as prepared; returns whether that is work.
    pub fn confirm_prepared(&mut self, new_commit: &SCPBallot, new_high: &SCPBallot) -> (did_work: bool)
        requires
            old(self).phase != SCPPhase::PhaseExternalize,
        ensures
            *final(self) == confirm_prepared_state(*old(self), *new_commit, *new_high),
            did_work == confirm_prepared_work_spec(*old(self), *new_commit, *new_high),
    {
        self.value_override = Some(new_high.value);
        let mut did_work = false;
        let incompatible_current = match &self.current_ballot {
            Some(c) => !c.compatible(new_high),
            None => false,
        };
        if !incompatible_current {
            if self.high_ballot.is_some() {
                self.high_ballot = Some(SCPBallot::make_ballot(new_high));
                did_work = true;
            }
            if new_commit.counter != 0 {
                self.set_commit(new_commit);
                did_work = true;
            }
        }
        did_work = did_work || self.update_current_if_needed(new_high);
        did_work
    }

    /// Sets `c` to `ballot`, and `h` to it too unless `ballot ≲ h`.
    pub fn set_commit(&mut self, ballot: &SCPBallot)
        ensures
            *final(self) == (BallotProtocolState {
                commit: final(self).commit,
                high_ballot: final(self).high_ballot,
                ..*old(self)
            }),
            final(self).commit == Some(*ballot),
            final(self).high_ballot == match old(self).high_ballot {
                Some(h) => if less_and_compatible_spec(*ballot, h) {
                    Some(h)
                } else {
                    Some(*ballot)
                },
                None => Some(*ballot),
            },
            final(self).current_ballot == old(self).current_ballot,
            final(self).prepared == old(self).prepared,
            final(self).prepared_prime == old(self).prepared_prime,
            final(self).phase == old(self).phase,
            final(self).latest_envelopes == old(self).latest_envelopes,
            final(self).message_level == old(self).message_level,
            final(self).value_override == old(self).value_override,
            final(self).current_message_level == old(self).current_message_level,
            final(self).last_envelope == old(self).last_envelope,
            final(self).last_envelope_emitted == old(self).last_envelope_emitted,
    {
        self.commit = Some(*ballot);
        match self.high_ballot {
            Some(h) => {
                if !ballot.less_and_compatible(&h) {
                    self.high_ballot = Some(*ballot);
                }
            },
            None => {
                self.high_ballot = Some(*ballot);
            },
        }
    }

    /// Records that `ballot` is accepted as prepared, updating `p` and `p'`.
    pub fn set_prepared(&mut self, ballot: &SCPBallot) -> (did_work: bool)
        requires
            ballot_invariants(*old(self)),
            !(old(self).prepared matches Some(p) && ballot_lt(*ballot, p) && compatible_spec(
                *ballot,
                p,
            ) && old(self).prepared_prime is None),
            old(self).prepared is None ==> (old(self).prepared_prime matches Some(pp) ==> (
            ballot_lt(pp, *ballot) && !compatible_spec(pp, *ballot))),
        ensures
            (final(self).prepared, final(self).prepared_prime, did_work) == set_prepared_spec(
                old(self).prepared,
                old(self).prepared_prime,
                *ballot,
            ),
            *final(self) == (BallotProtocolState {
                prepared: final(self).prepared,
                prepared_prime: final(self).prepared_prime,
                ..*old(self)
            }),
            ballot_invariants(*final(self)),
            !did_work ==> *final(self) == *old(self),
    {
        let mut did_work = false;
        match self.prepared {
            Some(p) => {
                if p.lt(ballot) {
                    if !p.compatible(ballot) {
                        self.prepared_prime = Some(p);
                    }
                    self.prepared = Some(*ballot);
                    did_work = true;
                } else if ballot.lt(&p) {
                    let replace = match self.prepared_prime {
                        None => true,
                        Some(pp) => pp.lt(ballot) && !p.compatible(ballot),
                    };
                    if replace {
                        self.prepared_prime = Some(*ballot);
                        did_work = true;
                    }
                }
            },
            None => {
                self.prepared = Some(*ballot);
                did_work = true;
            },
        }
        did_work
    }

    /// Moves `b` to `ballot`; clears `h` and `c` if they no longer share its
    /// value; forgets having heard from a quorum when the counter changes.
    pub fn bump_to_ballot(&mut self, require_monotone: bool, ballot: &SCPBallot)
        requires
            old(self).phase != SCPPhase::PhaseExternalize,
            require_monotone ==> match old(self).current_ballot {
                Some(c) => ballot_le(c, *ballot),
                None => true,
            },
        ensures
            *final(self) == bump_to_ballot_spec(*old(self), *ballot),
            final(self).current_ballot == Some(*ballot),
            (final(self).high_ballot, final(self).commit) == match old(self).high_ballot {
                Some(h) => if !compatible_spec(h, *ballot) {
                    (None::<SCPBallot>, None::<SCPBallot>)
                } else {
                    (old(self).high_ballot, old(self).commit)
                },
                None => (old(self).high_ballot, old(self).commit),
            },
            final(self).heard_from_quorum == (old(self).heard_from_quorum && (
            old(self).current_ballot matches Some(c) && c.counter == ballot.counter)),
            ballot_invariants(*old(self)) && require_monotone && ballot.counter != 0 && (old(
                self,
            ).phase == SCPPhase::PhasePrepare || (old(self).high_ballot matches Some(h)
                && compatible_spec(h, *ballot))) ==> ballot_invariants(*final(self)),
            final(self).prepared == old(self).prepared,
            final(self).prepared_prime == old(self).prepared_prime,
            final(self).phase == old(self).phase,
            final(self).latest_envelopes == old(self).latest_envelopes,
            final(self).message_level == old(self).message_level,
            final(self).value_override == old(self).value_override,
            final(self).current_message_level == old(self).current_message_level,
            final(self).last_envelope == old(self).last_envelope,
            final(self).last_envelope_emitted == old(self).last_envelope_emitted,
    {
        let got_bumped = match self.current_ballot {
            None => true,
            Some(c) => c.counter != ballot.counter,
        };
        self.current_ballot = Some(*ballot);
        let drop_high = match self.high_ballot {
            Some(h) => !h.compatible(ballot),
            None => false,
        };
        if drop_high {
            self.high_ballot = None;
            self.commit = None;
        }
        if got_bumped {
            self.heard_from_quorum = false;
        }
    }

    /// Moves `b` up to `high_ballot` unless `b` is already above it; returns
    /// whether `b` was above.
    pub fn update_current_if_needed(&mut self, high_ballot: &SCPBallot) -> (r: bool)
        requires
            old(self).phase != SCPPhase::PhaseExternalize,
        ensures
            *final(self) == update_current_if_needed_spec(*old(self), *high_ballot),
            r == (old(self).current_ballot matches Some(c) && ballot_lt(*high_ballot, c)),
            r ==> *final(self) == *old(self),
            !r ==> final(self).current_ballot == Some(*high_ballot),
            !r ==> (final(self).high_ballot, final(self).commit) == match old(self).high_ballot {
                Some(h) => if !compatible_spec(h, *high_ballot) {
                    (None::<SCPBallot>, None::<SCPBallot>)
                } else {
                    (old(self).high_ballot, old(self).commit)
                },
                None => (old(self).high_ballot, old(self).commit),
            },
            !r ==> final(self).heard_from_quorum == (old(self).heard_from_quorum && (old(self).current_ballot matches Some(c) && c.counter == high_ballot.counter)),
            ballot_invariants(*old(self)) && high_ballot.counter != 0 && (old(self).phase
                == SCPPhase::PhasePrepare || (old(self).high_ballot matches Some(h) && compatible_spec(
                h,
                *high_ballot,
            ))) ==> ballot_invariants(*final(self)),
            final(self).prepared == old(self).prepared,
            final(self).prepared_prime == old(self).prepared_prime,
            final(self).phase == old(self).phase,
            final(self).latest_envelopes == old(self).latest_envelopes,
            final(self).message_level == old(self).message_level,
            final(self).value_override == old(self).value_override,
            final(self).current_message_level == old(self).current_message_level,
            final(self).last_envelope == old(self).last_envelope,
            final(self).last_envelope_emitted == old(self).last_envelope_emitted,
    {
        let above = match self.current_ballot {
            Some(c) => high_ballot.lt(&c),
            None => false,
        };
        if above {
            true
        } else {
            self.bump_to_ballot(true, high_ballot);
            false
        }
    }
}

} // verus!

verus! {

/// The statement describing the ballot state: the current ballot with `p`,
/// `p'` and the counters of `c` and `h` while preparing; the current ballot
/// with the counters of `p`, `c` and `h` while confirming; `c` and `h`'s
/// counter once externalized.
pub open spec fn create_statement_spec(s: BallotProtocolState, hash: Seq<u8>) -> StatementView {
    match s.phase {
        SCPPhase::PhasePrepare => StatementView::Prepare(
            PrepareView {
                quorum_set_hash: hash,
                ballot: s.current_ballot->0,
                prepared: s.prepared,
                prepared_prime: s.prepared_prime,
                num_commit: match s.commit {
                    Some(c) => c.counter,
                    None => 0,
                },
                num_high: match s.high_ballot {
                    Some(h) => h.counter,
                    None => 0,
                },
                quorum_set: None,
            },
        ),
        SCPPhase::PhaseConfirm => StatementView::Confirm(
            ConfirmView {
                quorum_set_hash: hash,
                ballot: s.current_ballot->0,
                num_prepared: s.prepared->0.counter,
                num_commit: s.commit->0.counter,
                num_high: s.high_ballot->0.counter,
                quorum_set: None,
            },
        ),
        SCPPhase::PhaseExternalize => StatementView::Externalize(
            ExternalizeView {
                commit_quorum_set_hash: hash,
                commit: s.commit->0,
                num_high: s.high_ballot->0.counter,
                commit_quorum_set: None,
            },
        ),
    }
}

/// The counters that the statement of a node contributes as commit
/// boundaries for `ballot`.
pub open spec fn boundaries_of(ballot: SCPBallot, s: StatementView) -> Set<u64> {
    match s {
        StatementView::Prepare(st) => if compatible_spec(ballot, st.ballot) && st.num_commit > 0 {
            set![st.num_commit as u64, st.num_high as u64]
        } else {
            Set::empty()
        },
        StatementView::Confirm(st) => if compatible_spec(ballot, st.ballot) {
            set![st.num_commit as u64, st.num_high as u64]
        } else {
            Set::empty()
        },
        StatementView::Externalize(st) => if compatible_spec(ballot, st.commit) {
            set![st.commit.counter as u64, st.num_high as u64, u32::MAX as u64]
        } else {
            Set::empty()
        },
        StatementView::Nominate(_) => Set::empty(),
    }
}

/// The statement of the `i`-th node of `m`, when it is stored.
pub open spec fn node_statement(
    m: NodeMap,
    env: Map<SCPEnvelopeID, SCPEnvelope>,
    i: int,
) -> Option<StatementView> {
    if env.contains_key(m.vals()[i]) {
        Some(env[m.vals()[i]].statement@)
    } else {
        None
    }
}

/// The commit boundaries contributed by the first `n` nodes of `m`.
pub open spec fn boundaries_upto(
    m: NodeMap,
    env: Map<SCPEnvelopeID, SCPEnvelope>,
    ballot: SCPBallot,
    n: int,
) -> Set<u64>
    decreases n,
{
    if n <= 0 {
        Set::empty()
    } else {
        boundaries_upto(m, env, ballot, n - 1) + match node_statement(m, env, n - 1) {
            Some(s) => boundaries_of(ballot, s),
            None => Set::empty(),
        }
    }
}

/// The ballots a hint statement points at.
pub open spec fn hint_ballots_spec(hint: StatementView) -> Set<SCPBallot> {
    match hint {
        StatementView::Prepare(st) => {
            let a = set![st.ballot];
            let b = match st.prepared {
                Some(p) => a.insert(p),
                None => a,
            };
            match st.prepared_prime {
                Some(p) => b.insert(p),
                None => b,
            }
        },
        StatementView::Confirm(st) => set![
            SCPBallot { counter: st.num_prepared, value: st.ballot.value },
            SCPBallot { counter: u32::MAX, value: st.ballot.value }
        ],
        StatementView::Externalize(st) => set![SCPBallot { counter: u32::MAX, value: st.commit.value }],
        StatementView::Nominate(_) => Set::empty(),
    }
}

/// The candidate ballots below `top` that a node's statement may have prepared.
pub open spec fn candidates_of(top: SCPBallot, s: StatementView) -> Set<SCPBallot> {
    match s {
        StatementView::Prepare(st) => {
            let a = if less_and_compatible_spec(st.ballot, top) {
                set![st.ballot]
            } else {
                Set::empty()
            };
            let b = match st.prepared {
                Some(p) => if less_and_compatible_spec(p, top) {
                    a.insert(p)
                } else {
                    a
                },
                None => a,
            };
            match st.prepared_prime {
                Some(p) => if less_and_compatible_spec(p, top) {
                    b.insert(p)
                } else {
                    b
                },
                None => b,
            }
        },
        StatementView::Confirm(st) => if compatible_spec(top, st.ballot) {
            if st.num_prepared < top.counter {
                set![top, SCPBallot { counter: st.num_prepared, value: top.value }]
            } else {
                set![top]
            }
        } else {
            Set::empty()
        },
        StatementView::Externalize(st) => if compatible_spec(st.commit, top) {
            set![top]
        } else {
            Set::empty()
        },
        StatementView::Nominate(_) => Set::empty(),
    }
}

/// The candidates below `top` from the first `n` nodes of `m`.
pub open spec fn candidates_upto(
    m: NodeMap,
    env: Map<SCPEnvelopeID, SCPEnvelope>,
    top: SCPBallot,
    n: int,
) -> Set<SCPBallot>
    decreases n,
{
    if n <= 0 {
        Set::empty()
    } else {
        candidates_upto(m, env, top, n - 1) + match node_statement(m, env, n - 1) {
            Some(s) => candidates_of(top, s),
            None => Set::empty(),
        }
    }
}

/// The candidates below any of the ballots `hs[k..]`.
pub open spec fn candidates_from(
    m: NodeMap,
    env: Map<SCPEnvelopeID, SCPEnvelope>,
    hs: Seq<SCPBallot>,
    k: int,
) -> Set<SCPBallot>
    decreases hs.len() - k,
{
    if k < 0 || k >= hs.len() {
        Set::empty()
    } else {
        candidates_upto(m, env, hs[k], m.keys().len() as int) + candidates_from(m, env, hs, k + 1)
    }
}

/// The ballots that may be prepared given the hint: those below a ballot the
/// hint points at, as reported by the latest statement of each node.
pub open spec fn prepare_candidates_spec(
    m: NodeMap,
    env: Map<SCPEnvelopeID, SCPEnvelope>,
    hint: StatementView,
) -> Set<SCPBallot> {
    Set::new(
        |b: SCPBallot|
            exists|t: SCPBallot, i: int|
                #![trigger hint_ballots_spec(hint).contains(t), node_statement(m, env, i)]
                hint_ballots_spec(hint).contains(t) && 0 <= i < m.keys().len() && (node_statement(
                    m,
                    env,
                    i,
                ) matches Some(s) && candidates_of(t, s).contains(b)),
    )
}

} // verus!

verus! {

pub proof fn lemma_candidates_upto(
    m: NodeMap,
    env: Map<SCPEnvelopeID, SCPEnvelope>,
    top: SCPBallot,
    n: int,
    b: SCPBallot,
)
    requires
        0 <= n <= m.keys().len(),
    ensures
        candidates_upto(m, env, top, n).contains(b) <==> exists|i: int|
            0 <= i < n && (#[trigger] node_statement(m, env, i) matches Some(s) && candidates_of(
                top,
                s,
            ).contains(b)),
    decreases n,
{
    if n > 0 {
        lemma_candidates_upto(m, env, top, n - 1, b);
        if candidates_upto(m, env, top, n).contains(b) {
            if !candidates_upto(m, env, top, n - 1).contains(b) {
                assert(node_statement(m, env, n - 1) matches Some(s) && candidates_of(
                    top,
                    s,
                ).contains(b));
            }
        }
    }
}

pub proof fn lemma_candidates_from(
    m: NodeMap,
    env: Map<SCPEnvelopeID, SCPEnvelope>,
    hs: Seq<SCPBallot>,
    k: int,
    b: SCPBallot,
)
    requires
        0 <= k <= hs.len(),
    ensures
        candidates_from(m, env, hs, k).contains(b) <==> exists|j: int, i: int|
            #![trigger hs[j], node_statement(m, env, i)]
            k <= j < hs.len() && 0 <= i < m.keys().len() && (node_statement(m, env, i) matches Some(
                s,
            ) && candidates_of(hs[j], s).contains(b)),
    decreases hs.len() - k,
{
    if k < hs.len() {
        lemma_candidates_from(m, env, hs, k + 1, b);
        lemma_candidates_upto(m, env, hs[k], m.keys().len() as int, b);
        if candidates_from(m, env, hs, k).contains(b) {
            if candidates_upto(m, env, hs[k], m.keys().len() as int).contains(b) {
                let i = choose|i: int|
                    0 <= i < m.keys().len() && (#[trigger] node_statement(m, env, i) matches Some(
                        s,
                    ) && candidates_of(hs[k], s).contains(b));
                assert(hs[k] == hs[k]);
            }
        }
    }
}

impl BallotProtocolState {
    /// The statement describing this state.
    pub fn create_statement(&self, local_quorum_set_hash: HashValue) -> (st: SCPStatement)
        requires
            ballot_invariants(*self),
            self.current_ballot is Some,
        ensures
            st@ == create_statement_spec(*self, local_quorum_set_hash@),
    {
        match self.phase {
            SCPPhase::PhasePrepare => {
                let num_commit = match &self.commit {
                    Some(c) => c.counter,
                    None => 0,
                };
                let num_high = match &self.high_ballot {
                    Some(h) => h.counter,
                    None => 0,
                };
                let ballot = match &self.current_ballot {
                    Some(b) => *b,
                    None => SCPBallot::default(),
                };
                SCPStatement::Prepare(
                    SCPStatementPrepare {
                        quorum_set_hash: local_quorum_set_hash,
                        ballot,
                        prepared: self.prepared,
                        prepared_prime: self.prepared_prime,
                        num_commit,
                        num_high,
                        quorum_set: None,
                    },
                )
            },
            SCPPhase::PhaseConfirm => {
                let ballot = match &self.current_ballot {
                    Some(b) => *b,
                    None => SCPBallot::default(),
                };
                let p = match &self.prepared {
                    Some(p) => p.counter,
                    None => 0,
                };
                let c = match &self.commit {
                    Some(c) => c.counter,
                    None => 0,
                };
                let h = match &self.high_ballot {
                    Some(h) => h.counter,
                    None => 0,
                };
                SCPStatement::Confirm(
                    SCPStatementConfirm {
                        quorum_set_hash: local_quorum_set_hash,
                        ballot,
                        num_prepared: p,
                        num_commit: c,
                        num_high: h,
                        quorum_set: None,
                    },
                )
            },
            SCPPhase::PhaseExternalize => {
                let c = match &self.commit {
                    Some(c) => *c,
                    None => SCPBallot::default(),
                };
                let h = match &self.high_ballot {
                    Some(h) => h.counter,
                    None => 0,
                };
                SCPStatement::Externalize(
                    SCPStatementExternalize {
                        commit_quorum_set_hash: local_quorum_set_hash,
                        commit: c,
                        num_high: h,
                        commit_quorum_set: None,
                    },
                )
            },
        }
    }

    /// Whether the latest stored statement of `node_id` is newer than `st`.
    pub fn is_newer_statement_for_node(
        &self,
        node_id: &NodeID,
        st: &SCPStatement,
        env_map: &EnvMap,
    ) -> (r: bool)
        requires
            self.latest_envelopes.wf(),
        ensures
            r == (self.latest_envelopes.get_spec(node_id@) matches Some(id) && env_map.0@.contains_key(
                id,
            ) && crate::scp::statement::statement_newer_spec(env_map.0@[id].statement@, st@)),
    {
        match self.latest_envelopes.get(node_id) {
            None => false,
            Some(id) => match env_map.get(&id) {
                None => false,
                Some(env) => env.statement.is_newer_than(st),
            },
        }
    }

    /// The counters at which commit of `ballot`'s value may start or end,
    /// according to the latest statement of each node.
    pub fn get_commit_boundaries_from_statements(&self, ballot: &SCPBallot, env_map: &EnvMap) -> (r:
        ValueSet)
        ensures
            r.wf(),
            r@ == boundaries_upto(
                self.latest_envelopes,
                env_map.0@,
                *ballot,
                self.latest_envelopes.keys().len() as int,
            ),
    {
        let mut ret = ValueSet::new();
        let mut i: usize = 0;
        proof {
            self.latest_envelopes.lemma_len();
        }
        while i < self.latest_envelopes.len()
            invariant
                i <= self.latest_envelopes.keys().len(),
                self.latest_envelopes.keys().len() == self.latest_envelopes.vals().len(),
                ret.wf(),
                ret@ == boundaries_upto(self.latest_envelopes, env_map.0@, *ballot, i as int),
            decreases self.latest_envelopes.keys().len() - i,
        {
            let id = self.latest_envelopes.val_at(i);
            let ghost before = ret@;
            match env_map.get(&id) {
                Some(env) => match &env.statement {
                    SCPStatement::Prepare(st) => {
                        if ballot.compatible(&st.ballot) && st.num_commit > 0 {
                            ret.insert(st.num_commit as u64);
                            ret.insert(st.num_high as u64);
                        }
                    },
                    SCPStatement::Confirm(st) => {
                        if ballot.compatible(&st.ballot) {
                            ret.insert(st.num_commit as u64);
                            ret.insert(st.num_high as u64);
                        }
                    },
                    SCPStatement::Externalize(st) => {
                        if ballot.compatible(&st.commit) {
                            ret.insert(st.commit.counter as u64);
                            ret.insert(st.num_high as u64);
                            ret.insert(0xffff_ffffu64);
                        }
                    },
                    SCPStatement::Nominate(_) => {},
                },
                None => {},
            }
            assert(ret@ =~= boundaries_upto(self.latest_envelopes, env_map.0@, *ballot, i + 1));
            i = i + 1;
        }
        ret
    }

    /// The ballots that may be prepared, given the hint statement.
    pub fn get_prepare_candidates(&self, hint: &SCPStatement, env_map: &EnvMap) -> (r: BallotSet)
        requires
            crate::scp::statement::is_ballot_statement(hint@),
        ensures
            r.wf(),
            r@ == prepare_candidates_spec(self.latest_envelopes, env_map.0@, hint@),
    {
        let mut hint_ballots = BallotSet::new();
        match hint {
            SCPStatement::Prepare(st) => {
                hint_ballots.insert(st.ballot);
                if let Some(p) = &st.prepared {
                    hint_ballots.insert(*p);
                }
                if let Some(pp) = &st.prepared_prime {
                    hint_ballots.insert(*pp);
                }
            },
            SCPStatement::Confirm(st) => {
                hint_ballots.insert(SCPBallot::new(st.num_prepared, st.ballot.value));
                hint_ballots.insert(SCPBallot::new(0xffff_ffffu32, st.ballot.value));
            },
            SCPStatement::Externalize(st) => {
                hint_ballots.insert(SCPBallot::new(0xffff_ffffu32, st.commit.value));
            },
            SCPStatement::Nominate(_) => {},
        }
        proof {
            assert(hint_ballots@ =~= hint_ballots_spec(hint@));
        }
        let ghost hs = hint_ballots.seq();
        let ghost m = self.latest_envelopes;
        let mut candidates = BallotSet::new();
        let mut k: usize = hint_ballots.len();
        proof {
            m.lemma_len();
        }
        while k > 0
            invariant
                k <= hs.len(),
                hs == hint_ballots.seq(),
                m == self.latest_envelopes,
                m.keys().len() == m.vals().len(),
                candidates.wf(),
                candidates@ == candidates_from(m, env_map.0@, hs, k as int),
            decreases k,
        {
            k = k - 1;
            let top = hint_ballots.at(k);
            let mut i: usize = 0;
            let ghost acc = candidates@;
            while i < self.latest_envelopes.len()
                invariant
                    k < hs.len(),
                    top == hs[k as int],
                    i <= m.keys().len(),
                    m == self.latest_envelopes,
                    m.keys().len() == m.vals().len(),
                    candidates.wf(),
                    candidates@ == acc + candidates_upto(m, env_map.0@, top, i as int),
                decreases m.keys().len() - i,
            {
                let id = self.latest_envelopes.val_at(i);
                let ghost before = candidates@;
                match env_map.get(&id) {
                    Some(env) => match &env.statement {
                        SCPStatement::Prepare(st) => {
                            if st.ballot.less_and_compatible(&top) {
                                candidates.insert(st.ballot);
                            }
                            if let Some(p) = &st.prepared {
                                if p.less_and_compatible(&top) {
                                    candidates.insert(*p);
                                }
                            }
                            if let Some(pp) = &st.prepared_prime {
                                if pp.less_and_compatible(&top) {
                                    candidates.insert(*pp);
                                }
                            }
                        },
                        SCPStatement::Confirm(st) => {
                            if top.compatible(&st.ballot) {
                                candidates.insert(top);
                                if st.num_prepared < top.counter {
                                    candidates.insert(SCPBallot::new(st.num_prepared, top.value));
                                }
                            }
                        },
                        SCPStatement::Externalize(st) => {
                            if st.commit.compatible(&top) {
                                candidates.insert(top);
                            }
                        },
                        SCPStatement::Nominate(_) => {},
                    },
                    None => {},
                }
                assert(candidates@ =~= acc + candidates_upto(m, env_map.0@, top, i + 1));
                i = i + 1;
            }
            assert(candidates@ =~= candidates_from(m, env_map.0@, hs, k as int));
        }
        proof {
            assert forall|b: SCPBallot| candidates@.contains(b) <==> prepare_candidates_spec(
                m,
                env_map.0@,
                hint@,
            ).contains(b) by {
                lemma_candidates_from(m, env_map.0@, hs, 0, b);
                if candidates@.contains(b) {
                    let (j, i) = choose|j: int, i: int|
                        #![trigger hs[j], node_statement(m, env_map.0@, i)]
                        0 <= j < hs.len() && 0 <= i < m.keys().len() && (node_statement(
                            m,
                            env_map.0@,
                            i,
                        ) matches Some(s) && candidates_of(hs[j], s).contains(b));
                    assert(hs.to_set().contains(hs[j]));
                    assert(hint_ballots_spec(hint@).contains(hs[j]));
                }
                if prepare_candidates_spec(m, env_map.0@, hint@).contains(b) {
                    let (t, i) = choose|t: SCPBallot, i: int|
                        #![trigger hint_ballots_spec(hint@).contains(t), node_statement(m, env_map.0@, i)]
                        hint_ballots_spec(hint@).contains(t) && 0 <= i < m.keys().len() && (
                        node_statement(m, env_map.0@, i) matches Some(s) && candidates_of(
                            t,
                            s,
                        ).contains(b));
                    assert(hs.to_set().contains(t));
                    let j = choose|j: int| 0 <= j < hs.len() && hs[j] == t;
                    assert(hs[j] == t);
                }
            }
            assert(candidates@ =~= prepare_candidates_spec(m, env_map.0@, hint@));
        }
        candidates
    }
}

} // verus!

verus! {

/// The bound on how deeply the ballot protocol may recurse into itself.
pub const MAXIMUM_ADVANCE_SLOT_RECURSION: u32 = 50;

/// How an interval of commit counters is checked.
#[derive(PartialEq, Eq, Structural, Debug, Clone, Copy)]
pub enum CommitCheck {
    /// Federated acceptance of commit over the interval.
    Accept,
    /// Federated ratification (confirmation) of commit over the interval.
    Ratify,
}

/// Whether commit of `ballot`'s value over `[lo, hi]` passes the check.
pub open spec fn commit_interval_ok(
    local: LocalNodeInfo,
    latest: NodeMap,
    env: Map<SCPEnvelopeID, SCPEnvelope>,
    qm: QuorumManager,
    kind: CommitCheck,
    ballot: SCPBallot,
    lo: u32,
    hi: u32,
) -> bool {
    match kind {
        CommitCheck::Accept => federated_accept_spec(
            local,
            latest,
            env,
            qm,
            StatementFilter::VotedCommit(ballot, lo, hi),
            StatementFilter::AcceptedCommit(ballot, lo, hi),
        ),
        CommitCheck::Ratify => federated_ratify_spec(
            local,
            latest,
            env,
            qm,
            StatementFilter::AcceptedCommit(ballot, lo, hi),
        ),
    }
}

/// The interval that `find_extended_interval` settles on, walking the
/// boundaries `bs[k-1], bs[k-2], ..., bs[0]` (so from the highest) from the
/// candidate `cand`: with no low end yet, the first boundary `b` with `(b, b)`
/// accepted; otherwise the first boundary up to the high end, extending the
/// low end, and nothing further if that fails.
pub open spec fn extended_interval_spec(
    local: LocalNodeInfo,
    latest: NodeMap,
    env: Map<SCPEnvelopeID, SCPEnvelope>,
    qm: QuorumManager,
    kind: CommitCheck,
    ballot: SCPBallot,
    bs: Seq<u64>,
    cand: (u32, u32),
    k: int,
) -> Option<(u32, u32)>
    decreases k,
{
    if k <= 0 || k > bs.len() {
        None
    } else {
        let b = bs[k - 1] as u32;
        if cand.0 == 0 {
            if commit_interval_ok(local, latest, env, qm, kind, ballot, b, b) {
                Some((b, b))
            } else {
                extended_interval_spec(local, latest, env, qm, kind, ballot, bs, cand, k - 1)
            }
        } else if b > cand.1 {
            extended_interval_spec(local, latest, env, qm, kind, ballot, bs, cand, k - 1)
        } else if commit_interval_ok(local, latest, env, qm, kind, ballot, b, cand.1) {
            Some((b, cand.1))
        } else {
            None
        }
    }
}

pub open spec fn level_fuel(l: u32) -> int {
    if l < MAXIMUM_ADVANCE_SLOT_RECURSION {
        MAXIMUM_ADVANCE_SLOT_RECURSION - l
    } else {
        0
    }
}

/// What every step of the ballot protocol keeps: the envelope maps stay
/// sorted, the recursion level is restored, the phase never goes back, once
/// externalized the ballots stay as they are, no stored envelope is lost, a
/// node with a latest envelope keeps one, and a prepared or current ballot
/// stays set.
pub open spec fn ballot_frame(
    os: BallotProtocolState,
    ns: BallotProtocolState,
    oe: Map<SCPEnvelopeID, SCPEnvelope>,
    ne: Map<SCPEnvelopeID, SCPEnvelope>,
) -> bool {
    &&& ns.latest_envelopes.wf()
    &&& ns.message_level == os.message_level
    &&& ns.current_message_level == os.current_message_level
    &&& phase_rank(ns.phase) >= phase_rank(os.phase)
    &&& (os.phase == SCPPhase::PhaseExternalize ==> {
        &&& ns.phase == SCPPhase::PhaseExternalize
        &&& ns.current_ballot == os.current_ballot
        &&& ns.prepared == os.prepared
        &&& ns.prepared_prime == os.prepared_prime
        &&& ns.high_ballot == os.high_ballot
        &&& ns.commit == os.commit
    })
    &&& forall|k: SCPEnvelopeID| #[trigger] oe.contains_key(k) ==> ne.contains_key(k)
    &&& forall|q: Seq<char>| #[trigger] os.latest_envelopes.contains_key(q) ==> ns.latest_envelopes.contains_key(q)
    &&& (os.prepared is Some ==> ns.prepared is Some)
    &&& (os.current_ballot is Some ==> ns.current_ballot is Some)
}

/// The latest envelopes of all nodes but `a` and `b` are kept.
pub open spec fn latest_kept_except(
    o: BallotProtocolState,
    n: BallotProtocolState,
    a: Seq<char>,
    b: Seq<char>,
) -> bool {
    forall|q: Seq<char>|
        q != a && q != b ==> #[trigger] n.latest_envelopes.get_spec(q)
            == o.latest_envelopes.get_spec(q)
}

/// What the ballot protocol keeps of the nomination state: everything but
/// whether nomination is running.
pub open spec fn nomination_frame(o: NominationProtocolState, n: NominationProtocolState) -> bool {
    &&& n.round_number == o.round_number
    &&& n.votes == o.votes
    &&& n.accepted == o.accepted
    &&& n.candidates == o.candidates
    &&& n.latest_nominations == o.latest_nominations
    &&& n.latest_envelope == o.latest_envelope
    &&& n.round_leaders == o.round_leaders
    &&& n.latest_composite_candidate == o.latest_composite_candidate
    &&& n.previous_value == o.previous_value
    &&& n.num_timeouts == o.num_timeouts
    &&& n.timed_out == o.timed_out
}

/// What the protocol keeps of the slot driver, and that no nomination retry
/// is queued (only `nominate` queues one).
pub open spec fn driver_frame(o: SlotDriver, n: SlotDriver) -> bool {
    &&& driver_grows(o, n)
    &&& forall|i: int|
        o.task_queue.jobs@.len() <= i < n.task_queue.jobs@.len() ==> !(
        #[trigger] n.task_queue.jobs@[i].task is RetryNominate)
}

/// What the protocol keeps of the slot driver: its slot and local node, and
/// the jobs already queued (new ones are only added behind them).
pub open spec fn driver_grows(o: SlotDriver, n: SlotDriver) -> bool {
    &&& n.slot_index == o.slot_index
    &&& n.local_node == o.local_node
    &&& o.task_queue.jobs@.len() <= n.task_queue.jobs@.len()
    &&& forall|i: int|
        0 <= i < o.task_queue.jobs@.len() ==> #[trigger] n.task_queue.jobs@[i]
            == o.task_queue.jobs@[i]
}

/// `set_accept_prepared` may record `ballot`: the invariants hold and
/// `set_prepared` accepts it.
pub open spec fn can_accept_prepared_spec(s: BallotProtocolState, ballot: SCPBallot) -> bool {
    &&& ballot_invariants(s)
    &&& match s.prepared {
        Some(p) => !(ballot_lt(ballot, p) && compatible_spec(ballot, p) && s.prepared_prime is None),
        None => match s.prepared_prime {
            Some(pp) => ballot_lt(pp, ballot) && !compatible_spec(pp, ballot),
            None => true,
        },
    }
}

/// `h` lies below and is incompatible with the given ballot, when there is one.
pub open spec fn below_and_incompatible(h: SCPBallot, b: Option<SCPBallot>) -> bool {
    b matches Some(b) && less_and_incompatible_spec(h, b)
}

/// The ballot state once `set_accept_prepared(ballot)` has recorded `ballot`:
/// `p` and `p'` as `set_prepared` leaves them, and `c` dropped when `h` is
/// below and incompatible with the new `p` or `p'`.
pub open spec fn accept_prepared_state(s: BallotProtocolState, ballot: SCPBallot) -> BallotProtocolState {
    let (p, pp, moved) = set_prepared_spec(s.prepared, s.prepared_prime, ballot);
    let drop = s.commit is Some && (s.high_ballot matches Some(h) && (below_and_incompatible(h, p)
        || below_and_incompatible(h, pp)));
    BallotProtocolState {
        prepared: p,
        prepared_prime: pp,
        commit: if drop {
            None
        } else {
            s.commit
        },
        ..s
    }
}

/// Whether `set_accept_prepared(ballot)` does work: `p` or `p'` moves, or `c`
/// is dropped because `h` is now below and incompatible with `p` or `p'`.
pub open spec fn accept_prepared_work_spec(s: BallotProtocolState, ballot: SCPBallot) -> bool {
    can_accept_prepared_spec(s, ballot) && {
        let (p, pp, moved) = set_prepared_spec(s.prepared, s.prepared_prime, ballot);
        moved || (s.commit is Some && (s.high_ballot matches Some(h) && (below_and_incompatible(h, p)
            || below_and_incompatible(h, pp))))
    }
}

/// The ballot state once `set_confirm_prepared(nc, nh)` has recorded the
/// confirmed ballots: with `b` compatible with `nh`, an `h` that is set
/// becomes `nh` and a non-zero `nc` becomes `c` (raising `h` to it unless it
/// is below and compatible with `h`); when neither happened, `b` moves up to
/// `nh` unless it is already above, dropping `h` and `c` if they are
/// incompatible with `nh`.
pub open spec fn confirm_prepared_state(
    s: BallotProtocolState,
    nc: SCPBallot,
    nh: SCPBallot,
) -> BallotProtocolState {
    let s0 = BallotProtocolState { value_override: Some(nh.value), ..s };
    let incompatible = s.current_ballot matches Some(c) && !compatible_spec(c, nh);
    let s1 = if !incompatible && s0.high_ballot is Some {
        BallotProtocolState { high_ballot: Some(nh), ..s0 }
    } else {
        s0
    };
    let s2 = if !incompatible && nc.counter != 0 {
        BallotProtocolState {
            commit: Some(nc),
            high_ballot: match s1.high_ballot {
                Some(h) => if less_and_compatible_spec(nc, h) {
                    Some(h)
                } else {
                    Some(nc)
                },
                None => Some(nc),
            },
            ..s1
        }
    } else {
        s1
    };
    let recorded = !incompatible && (s.high_ballot is Some || nc.counter != 0);
    if recorded || (s2.current_ballot matches Some(c) && ballot_lt(nh, c)) {
        s2
    } else {
        let drop = s2.high_ballot matches Some(h) && !compatible_spec(h, nh);
        BallotProtocolState {
            current_ballot: Some(nh),
            high_ballot: if drop {
                None
            } else {
                s2.high_ballot
            },
            commit: if drop {
                None
            } else {
                s2.commit
            },
            heard_from_quorum: s2.heard_from_quorum && (s2.current_ballot matches Some(c) && c.counter
                == nh.counter),
            ..s2
        }
    }
}

/// Whether `set_confirm_prepared(new_commit, new_high)` does work: with `b`
/// compatible with the new `h`, `h` is set or a commit is given; or `b` is
/// already above the new `h`.
pub open spec fn confirm_prepared_work_spec(
    s: BallotProtocolState,
    new_commit: SCPBallot,
    new_high: SCPBallot,
) -> bool {
    let incompatible = s.current_ballot matches Some(c) && !compatible_spec(c, new_high);
    (!incompatible && (s.high_ballot is Some || new_commit.counter != 0)) || (
    s.current_ballot matches Some(c) && ballot_lt(new_high, c))
}

/// The least ballot satisfying `pred`, when there is one.
pub open spec fn least_ballot(pred: spec_fn(SCPBallot) -> bool) -> SCPBallot {
    choose|c: SCPBallot| #[trigger] pred(c) && forall|d: SCPBallot| #[trigger] pred(d) ==> ballot_le(c, d)
}

/// Walking increasing ballots, the first that satisfies `pred` is the least
/// ballot that does.
pub proof fn lemma_first_is_least(bs: Seq<SCPBallot>, pred: spec_fn(SCPBallot) -> bool, i: int)
    requires
        ballots_increasing(bs),
        0 <= i < bs.len(),
        pred(bs[i]),
        forall|k: int| 0 <= k < i ==> !pred(#[trigger] bs[k]),
        forall|d: SCPBallot| #[trigger] pred(d) ==> bs.contains(d),
    ensures
        least_ballot(pred) == bs[i],
{
    assert forall|d: SCPBallot| #[trigger] pred(d) implies ballot_le(bs[i], d) by {
        let j = choose|j: int| 0 <= j < bs.len() && bs[j] == d;
        if j < i {
            assert(!pred(bs[j]));
        } else if j > i {
            assert(ballot_lt(bs[i], bs[j]));
        }
    }
    let m = least_ballot(pred);
    assert(pred(m) && forall|d: SCPBallot| #[trigger] pred(d) ==> ballot_le(m, d));
    assert(ballot_le(m, bs[i]) && ballot_le(bs[i], m));
}

/// When no ballot of a walk that holds all of them satisfies `pred`, none does.
pub proof fn lemma_none_satisfies(bs: Seq<SCPBallot>, pred: spec_fn(SCPBallot) -> bool)
    requires
        forall|k: int| 0 <= k < bs.len() ==> !pred(#[trigger] bs[k]),
        forall|d: SCPBallot| #[trigger] pred(d) ==> bs.contains(d),
    ensures
        !exists|c: SCPBallot| #[trigger] pred(c),
{
    if exists|c: SCPBallot| #[trigger] pred(c) {
        let c = choose|c: SCPBallot| #[trigger] pred(c);
        let j = choose|j: int| 0 <= j < bs.len() && bs[j] == c;
        assert(!pred(bs[j]));
    }
}

/// A candidate that step 1/5 may accept as prepared: in CONFIRM not above and
/// compatible with `p`, not below and compatible with `p'` or `p`, and
/// accepted by federated voting.
pub open spec fn accept_prepared_eligible(
    local: LocalNodeInfo,
    s: BallotProtocolState,
    env: Map<SCPEnvelopeID, SCPEnvelope>,
    qm: QuorumManager,
    hint: StatementView,
    c: SCPBallot,
) -> bool {
    &&& prepare_candidates_spec(s.latest_envelopes, env, hint).contains(c)
    &&& !(s.phase == SCPPhase::PhaseConfirm && (s.prepared matches Some(p)
        && less_and_compatible_spec(p, c)))
    &&& !(s.prepared_prime matches Some(pp) && less_and_compatible_spec(c, pp))
    &&& !(s.prepared matches Some(p) && less_and_compatible_spec(c, p))
    &&& federated_accept_spec(
        local,
        s.latest_envelopes,
        env,
        qm,
        StatementFilter::VotedPrepared(c),
        StatementFilter::HasPrepared(c),
    )
}

/// The least candidate that may be accepted as prepared.
pub open spec fn accept_prepared_choice(
    local: LocalNodeInfo,
    s: BallotProtocolState,
    env: Map<SCPEnvelopeID, SCPEnvelope>,
    qm: QuorumManager,
    hint: StatementView,
) -> SCPBallot {
    least_ballot(|c: SCPBallot| accept_prepared_eligible(local, s, env, qm, hint, c))
}

/// Whether step 1/5 does work: outside EXTERNALIZE, and in CONFIRM only with
/// `p` set, some candidate is eligible and recording the least one changes
/// the state.
pub open spec fn accept_prepared_spec(
    local: LocalNodeInfo,
    s: BallotProtocolState,
    env: Map<SCPEnvelopeID, SCPEnvelope>,
    qm: QuorumManager,
    hint: StatementView,
) -> bool {
    &&& s.phase != SCPPhase::PhaseExternalize
    &&& !(s.phase == SCPPhase::PhaseConfirm && s.prepared is None)
    &&& exists|c: SCPBallot| #[trigger] accept_prepared_eligible(local, s, env, qm, hint, c)
    &&& accept_prepared_work_spec(s, accept_prepared_choice(local, s, env, qm, hint))
}

/// A candidate that step 2/3 may confirm as prepared: above `h` and ratified
/// as prepared by a quorum.
pub open spec fn confirm_prepared_eligible(
    local: LocalNodeInfo,
    s: BallotProtocolState,
    env: Map<SCPEnvelopeID, SCPEnvelope>,
    qm: QuorumManager,
    hint: StatementView,
    c: SCPBallot,
) -> bool {
    &&& prepare_candidates_spec(s.latest_envelopes, env, hint).contains(c)
    &&& !(s.high_ballot matches Some(h) && ballot_le(c, h))
    &&& federated_ratify_spec(local, s.latest_envelopes, env, qm, StatementFilter::HasPrepared(c))
}

/// The least candidate that may be confirmed as prepared: the new `h`.
pub open spec fn confirm_prepared_choice(
    local: LocalNodeInfo,
    s: BallotProtocolState,
    env: Map<SCPEnvelopeID, SCPEnvelope>,
    qm: QuorumManager,
    hint: StatementView,
) -> SCPBallot {
    least_ballot(|c: SCPBallot| confirm_prepared_eligible(local, s, env, qm, hint, c))
}

/// The members of `s` in increasing ballot order.
pub open spec fn sorted_ballots(s: Set<SCPBallot>) -> Seq<SCPBallot> {
    choose|q: Seq<SCPBallot>| ballots_increasing(q) && q.to_set() == s
}

/// A set of ballots has only one increasing ordering.
pub proof fn lemma_sorted_unique(a: Seq<SCPBallot>, b: Seq<SCPBallot>)
    requires
        ballots_increasing(a),
        ballots_increasing(b),
        a.to_set() == b.to_set(),
    ensures
        a == b,
    decreases a.len(),
{
    if a.len() == 0 {
        if b.len() > 0 {
            assert(b.to_set().contains(b[0]));
            assert(a.to_set().contains(b[0]));
        }
        assert(a =~= b);
    } else if b.len() == 0 {
        assert(a.to_set().contains(a[0]));
        assert(b.to_set().contains(a[0]));
    } else {
        assert(a.to_set().contains(a[0]));
        assert(b.to_set().contains(a[0]));
        let j = choose|j: int| 0 <= j < b.len() && b[j] == a[0];
        assert(b.to_set().contains(b[0]));
        assert(a.to_set().contains(b[0]));
        let i = choose|i: int| 0 <= i < a.len() && a[i] == b[0];
        if i > 0 && j > 0 {
            assert(ballot_lt(a[0], a[i]));
            assert(ballot_lt(b[0], b[j]));
        }
        assert(a[0] == b[0]);
        let ta = a.drop_first();
        let tb = b.drop_first();
        assert forall|x: SCPBallot| ta.to_set().contains(x) <==> tb.to_set().contains(x) by {
            if ta.to_set().contains(x) {
                let k = choose|k: int| 0 <= k < ta.len() && ta[k] == x;
                assert(a[k + 1] == x);
                assert(ballot_lt(a[0], a[k + 1]));
                assert(a.to_set().contains(x));
                assert(b.to_set().contains(x));
                let m = choose|m: int| 0 <= m < b.len() && b[m] == x;
                assert(m != 0);
                assert(tb[m - 1] == x);
            }
            if tb.to_set().contains(x) {
                let k = choose|k: int| 0 <= k < tb.len() && tb[k] == x;
                assert(b[k + 1] == x);
                assert(ballot_lt(b[0], b[k + 1]));
                assert(b.to_set().contains(x));
                assert(a.to_set().contains(x));
                let m = choose|m: int| 0 <= m < a.len() && a[m] == x;
                assert(m != 0);
                assert(ta[m - 1] == x);
            }
        }
        assert(ta.to_set() =~= tb.to_set());
        lemma_sorted_unique(ta, tb);
        assert(a.len() == ta.len() + 1 && b.len() == tb.len() + 1);
        assert forall|k: int| 0 <= k < a.len() implies a[k] == b[k] by {
            if k > 0 {
                assert(a[k] == ta[k - 1]);
                assert(b[k] == tb[k - 1]);
            }
        }
        assert(a =~= b);
    }
}

/// The commit ballot that step 3 settles on: walking the candidates `cs`
/// upward from index `j`, stopping at the first below `b`, skipping those
/// not below and compatible with the new `h`, and taking each that a quorum
/// has prepared until one is not.
pub open spec fn commit_walk(
    local: LocalNodeInfo,
    latest: NodeMap,
    env: Map<SCPEnvelopeID, SCPEnvelope>,
    qm: QuorumManager,
    cs: Seq<SCPBallot>,
    b: SCPBallot,
    nh: SCPBallot,
    j: int,
    cur: SCPBallot,
) -> SCPBallot
    decreases cs.len() - j,
{
    if j < 0 || j >= cs.len() {
        cur
    } else if ballot_lt(cs[j], b) {
        cur
    } else if !less_and_compatible_spec(cs[j], nh) {
        commit_walk(local, latest, env, qm, cs, b, nh, j + 1, cur)
    } else if federated_ratify_spec(local, latest, env, qm, StatementFilter::HasPrepared(cs[j])) {
        commit_walk(local, latest, env, qm, cs, b, nh, j + 1, cs[j])
    } else {
        cur
    }
}

/// The new commit ballot of step 3 for the new `h`: a walk of the candidates
/// when there is no `c` and `nh` is not below and incompatible with `p` or
/// `p'`, else the zero ballot.
pub open spec fn confirm_prepared_commit(
    local: LocalNodeInfo,
    s: BallotProtocolState,
    env: Map<SCPEnvelopeID, SCPEnvelope>,
    qm: QuorumManager,
    hint: StatementView,
    nh: SCPBallot,
) -> SCPBallot {
    if s.commit is None && !below_and_incompatible(nh, s.prepared) && !below_and_incompatible(
        nh,
        s.prepared_prime,
    ) {
        commit_walk(
            local,
            s.latest_envelopes,
            env,
            qm,
            sorted_ballots(prepare_candidates_spec(s.latest_envelopes, env, hint)),
            match s.current_ballot {
                Some(c) => c,
                None => SCPBallot::default_spec(),
            },
            nh,
            0,
            SCPBallot::default_spec(),
        )
    } else {
        SCPBallot::default_spec()
    }
}

/// The new value of `b` for `update_current_value`, and whether it changed.
pub open spec fn update_current_value_spec(s: BallotProtocolState, ballot: SCPBallot) -> bool {
    if s.phase == SCPPhase::PhaseExternalize {
        false
    } else {
        match s.current_ballot {
            None => true,
            Some(c) => !(s.commit matches Some(cm) && !compatible_spec(cm, ballot)) && ballot_lt(
                c,
                ballot,
            ),
        }
    }
}

/// The validation level of a statement given the herder's answers for its
/// values: invalid if one is, else maybe valid if one is, else fully valid.
pub open spec fn validation_outcome_spec(answers: Seq<ValidationLevel>) -> ValidationLevel {
    if exists|i: int| 0 <= i < answers.len() && answers[i] == ValidationLevel::Invalid {
        ValidationLevel::Invalid
    } else if exists|i: int| 0 <= i < answers.len() && answers[i] == ValidationLevel::MaybeValid {
        ValidationLevel::MaybeValid
    } else {
        ValidationLevel::FullyValidated
    }
}

/// How far the values `vals` of a ballot statement are valid by the
/// herder's answers: invalid when there is none or one is invalid, else
/// maybe valid when one is, else fully validated.
pub open spec fn values_validation_spec<H: HerderDriver>(h: H, vals: Set<u64>) -> ValidationLevel {
    if vals == Set::<u64>::empty() || exists|v: u64|
        #[trigger] vals.contains(v) && h.validate_value_spec(v, false) == ValidationLevel::Invalid {
        ValidationLevel::Invalid
    } else if exists|v: u64|
        #[trigger] vals.contains(v) && h.validate_value_spec(v, false) == ValidationLevel::MaybeValid {
        ValidationLevel::MaybeValid
    } else {
        ValidationLevel::FullyValidated
    }
}

/// `validation_outcome_spec`.
pub fn validation_outcome(answers: &Vec<ValidationLevel>) -> (r: ValidationLevel)
    ensures
        r == validation_outcome_spec(answers@),
{
    let mut contains_maybe_valid = false;
    let mut i: usize = 0;
    while i < answers.len()
        invariant
            i <= answers@.len(),
            forall|k: int| 0 <= k < i ==> answers@[k] != ValidationLevel::Invalid,
            contains_maybe_valid == exists|k: int|
                0 <= k < i && answers@[k] == ValidationLevel::MaybeValid,
        decreases answers@.len() - i,
    {
        if answers[i] == ValidationLevel::Invalid {
            return ValidationLevel::Invalid;
        }
        if answers[i] == ValidationLevel::MaybeValid {
            contains_maybe_valid = true;
        }
        i = i + 1;
    }
    if contains_maybe_valid {
        ValidationLevel::MaybeValid
    } else {
        ValidationLevel::FullyValidated
    }
}

impl SlotDriver {
    /// How far the values of a ballot statement are valid, asking the herder
    /// about each in increasing order and stopping at the first invalid one:
    /// `validation_outcome` of the answers; invalid when there is no value.
    pub fn validate_values<H: HerderDriver>(&self, st: &SCPStatement, herder_driver: &H) -> (r:
        ValidationLevel)
        ensures
            r == values_validation_spec(*herder_driver, nomination_values_spec(st@)),
            nomination_values_spec(st@) == Set::<u64>::empty() ==> r == ValidationLevel::Invalid,
            r != ValidationLevel::VoteToNominate,
    {
        let values = st.get_nomination_values();
        if values.is_empty() {
            return ValidationLevel::Invalid;
        }
        let ghost h = *herder_driver;
        let ghost vs = values.seq();
        let mut answers: Vec<ValidationLevel> = Vec::new();
        let mut i: usize = 0;
        while i < values.len()
            invariant_except_break
                answers@.len() == i,
            invariant
                i <= vs.len(),
                vs == values.seq(),
                h == *herder_driver,
                answers@.len() <= vs.len(),
                forall|k: int| 0 <= k < answers@.len() ==> #[trigger] answers@[k] == h.validate_value_spec(vs[k], false),
            ensures
                (exists|k: int| 0 <= k < answers@.len() && answers@[k] == ValidationLevel::Invalid)
                    || answers@.len() == vs.len(),
            decreases values.seq().len() - i,
        {
            let res = herder_driver.validate_value(&values.at(i), false);
            answers.push(res);
            if res == ValidationLevel::Invalid {
                assert(answers@[i as int] == ValidationLevel::Invalid);
                break;
            }
            i = i + 1;
        }
        proof {
            let vals = nomination_values_spec(st@);
            assert forall|v: u64| #[trigger] vals.contains(v) <==> vs.contains(v) by {
                values.lemma_seq_contains(v);
            }
            if exists|k: int| 0 <= k < answers@.len() && answers@[k] == ValidationLevel::Invalid {
                let k = choose|k: int| 0 <= k < answers@.len() && answers@[k] == ValidationLevel::Invalid;
                assert(vals.contains(vs[k]));
            } else {
                assert(answers@.len() == vs.len());
                if exists|v: u64| #[trigger] vals.contains(v) && h.validate_value_spec(v, false) == ValidationLevel::Invalid {
                    let v = choose|v: u64| #[trigger] vals.contains(v) && h.validate_value_spec(v, false) == ValidationLevel::Invalid;
                    let k = choose|k: int| 0 <= k < vs.len() && vs[k] == v;
                    assert(answers@[k] == ValidationLevel::Invalid);
                }
                if exists|v: u64| #[trigger] vals.contains(v) && h.validate_value_spec(v, false) == ValidationLevel::MaybeValid {
                    let v = choose|v: u64| #[trigger] vals.contains(v) && h.validate_value_spec(v, false) == ValidationLevel::MaybeValid;
                    let k = choose|k: int| 0 <= k < vs.len() && vs[k] == v;
                    assert(answers@[k] == ValidationLevel::MaybeValid);
                }
                if exists|k: int| 0 <= k < answers@.len() && answers@[k] == ValidationLevel::MaybeValid {
                    let k = choose|k: int| 0 <= k < answers@.len() && answers@[k] == ValidationLevel::MaybeValid;
                    assert(vals.contains(vs[k]));
                }
            }
        }
        validation_outcome(&answers)
    }

    /// Every quorum set is taken as sane.
    pub fn is_quorum_set_sane(&self, quorum_set: &QuorumSet) -> (r: bool)
        ensures
            r,
    {
        true
    }

    /// A ballot statement is sane when the quorum set of its sender is known
    /// and it is well formed.
    pub fn is_statement_sane(&self, st: &SCPStatement, from_self: bool, quorum_manager: &QuorumManager) -> (r:
        bool)
        requires
            is_ballot_statement(st@) || quorum_manager.quorum_set_of(st@) is None,
        ensures
            r == (quorum_manager.quorum_set_of(st@) is Some && statement_sane_spec(st@, from_self)),
    {
        match quorum_manager.get_quorum_set(st) {
            Some(qs) => {
                if !self.is_quorum_set_sane(qs) {
                    return false;
                }
            },
            None => {
                return false;
            },
        }
        st.is_statement_sane(from_self)
    }

    /// Whether the nodes whose latest ballot counter is above `counter` are
    /// v-blocking for the local node.
    pub fn has_v_blocking_subset_strictly_ahead_of(
        &self,
        envelopes: &NodeMap,
        counter: u32,
        env_map: &EnvMap,
    ) -> (r: bool)
        ensures
            r == is_v_blocking_spec(
                self.local_node.quorum_set@,
                selected_nodes(
                    *envelopes,
                    env_map.0@,
                    StatementFilter::CounterAbove(counter),
                    envelopes.keys().len() as int,
                ),
            ),
    {
        LocalNodeInfo::is_v_blocking_with_predicate(
            &self.local_node.quorum_set,
            envelopes,
            &StatementFilter::CounterAbove(counter),
            env_map,
        )
    }

    /// Moves `b` up to `ballot` when that is allowed and raises it.
    pub fn update_current_value(&self, state: &mut BallotProtocolState, ballot: &SCPBallot) -> (r:
        bool)
        ensures
            r == update_current_value_spec(*old(state), *ballot),
            r ==> *final(state) == bump_to_ballot_spec(*old(state), *ballot),
            r ==> final(state).current_ballot == Some(*ballot),
            r ==> (final(state).high_ballot, final(state).commit) == match old(state).high_ballot {
                Some(h) => if !compatible_spec(h, *ballot) {
                    (None::<SCPBallot>, None::<SCPBallot>)
                } else {
                    (old(state).high_ballot, old(state).commit)
                },
                None => (old(state).high_ballot, old(state).commit),
            },
            !r ==> *final(state) == *old(state),
            ballot_invariants(*old(state)) && ballot.counter != 0 ==> ballot_invariants(
                *final(state),
            ),
            final(state).prepared == old(state).prepared,
            final(state).prepared_prime == old(state).prepared_prime,
            final(state).phase == old(state).phase,
            final(state).latest_envelopes == old(state).latest_envelopes,
            final(state).message_level == old(state).message_level,
            final(state).value_override == old(state).value_override,
            final(state).last_envelope == old(state).last_envelope,
            final(state).last_envelope_emitted == old(state).last_envelope_emitted,
    {
        if state.phase == SCPPhase::PhaseExternalize {
            return false;
        }
        let mut updated = false;
        match state.current_ballot {
            None => {
                updated = true;
            },
            Some(current) => {
                let incompatible_commit = match &state.commit {
                    Some(c) => !c.compatible(ballot),
                    None => false,
                };
                if incompatible_commit {
                    return false;
                }
                if current.lt(ballot) {
                    updated = true;
                } else if ballot.lt(&current) {
                    return false;
                }
            },
        }
        if updated {
            state.bump_to_ballot(true, ballot);
        }
        updated
    }

    /// Arms the timer that abandons the current ballot after the herder's
    /// timeout for its counter.
    pub fn start_ballot_protocol_timer<H: HerderDriver>(
        &mut self,
        ballot_state: &BallotProtocolState,
        herder_driver: &H,
    )
        requires
            ballot_state.current_ballot is Some,
        ensures
            driver_frame(*old(self), *final(self)),
            final(self).slot_state == old(self).slot_state,
            final(self).task_queue.jobs@.len() == old(self).task_queue.jobs@.len() + 1,
            forall|i: int|
                0 <= i < old(self).task_queue.jobs@.len() ==> #[trigger] final(self).task_queue.jobs@[i] == old(self).task_queue.jobs@[i],
            ({
                let job = final(self).task_queue.jobs@.last();
                &&& job.id == old(self).slot_index
                &&& job.task matches SlotTask::AbandonBallot(a) && a.slot == old(self).slot_index
                    && a.n == 0
            }),
    {
        let counter = match &ballot_state.current_ballot {
            Some(b) => b.counter,
            None => 0,
        };
        let timeout = herder_driver.compute_timeout(counter as u64);
        let now = crate::scp::envelope::current_time_nanos();
        let t: u128 = timeout as u128;
        assert(t * 1_000_000_000 <= 0xffff_ffff_ffff_ffffu128 * 1_000_000_000) by (nonlinear_arith)
            requires
                t <= 0xffff_ffff_ffff_ffffu128,
        ;
        let timestamp = now.saturating_add(t * 1_000_000_000u128);
        let job = SlotJob {
            id: self.slot_index,
            timestamp,
            task: SlotTask::AbandonBallot(AbandonBallotArg::new(self.slot_index, 0)),
        };
        self.task_queue.submit(job);
    }

    /// Cancels the ballot protocol timer.
    pub fn stop_ballot_protocol_timer(&mut self)
        ensures
            driver_frame(*old(self), *final(self)),
            final(self).task_queue == old(self).task_queue,
            final(self).slot_state.fully_validated == old(self).slot_state.fully_validated,
            final(self).slot_state.got_v_blocking == old(self).slot_state.got_v_blocking,
            final(self).slot_state.ballot_timer@.len() == old(self).slot_state.ballot_timer@.len(),
            forall|i: int|
                0 <= i < old(self).slot_state.ballot_timer@.len()
                    ==> #[trigger] final(self).slot_state.ballot_timer@[i] == if old(self).slot_state.ballot_timer@[i].0
                    == SlotStateTimer::BallotProtocol {
                    (old(self).slot_state.ballot_timer@[i].0, None)
                } else {
                    old(self).slot_state.ballot_timer@[i]
                },
    {
        self.slot_state.stop_timer(&SlotStateTimer::BallotProtocol);
    }

    /// Records whether a quorum has reached the current ballot counter and
    /// arms or stops the ballot timer on the way.
    pub fn check_heard_from_quorum<H: HerderDriver>(
        &mut self,
        ballot_state: &mut BallotProtocolState,
        env_map: &EnvMap,
        quorum_manager: &QuorumManager,
        herder_driver: &H,
    )
        requires
            old(ballot_state).latest_envelopes.wf(),
        ensures
            driver_frame(*old(self), *final(self)),
            old(ballot_state).current_ballot is None ==> *final(ballot_state) == *old(ballot_state),
            old(ballot_state).current_ballot matches Some(b) ==> final(ballot_state).heard_from_quorum == federated_ratify_spec(
                old(self).local_node,
                old(ballot_state).latest_envelopes,
                env_map.0@,
                *quorum_manager,
                StatementFilter::HeardFrom(b.counter),
            ),
            final(ballot_state).current_ballot == old(ballot_state).current_ballot,
            final(ballot_state).prepared == old(ballot_state).prepared,
            final(ballot_state).prepared_prime == old(ballot_state).prepared_prime,
            final(ballot_state).high_ballot == old(ballot_state).high_ballot,
            final(ballot_state).commit == old(ballot_state).commit,
            final(ballot_state).phase == old(ballot_state).phase,
            final(ballot_state).latest_envelopes == old(ballot_state).latest_envelopes,
            final(ballot_state).message_level == old(ballot_state).message_level,
            final(ballot_state).value_override == old(ballot_state).value_override,
            final(ballot_state).last_envelope == old(ballot_state).last_envelope,
            final(ballot_state).last_envelope_emitted == old(ballot_state).last_envelope_emitted,
            final(ballot_state).current_message_level == old(ballot_state).current_message_level,
    {
        if let Some(current) = ballot_state.current_ballot {
            let heard = self.federated_ratify(
                &StatementFilter::HeardFrom(current.counter),
                &ballot_state.latest_envelopes,
                env_map,
                quorum_manager,
            );
            if heard {
                let old_heard_from_quorum = ballot_state.heard_from_quorum;
                ballot_state.heard_from_quorum = true;
                if !old_heard_from_quorum {
                    if ballot_state.phase != SCPPhase::PhaseExternalize {
                        self.start_ballot_protocol_timer(ballot_state, herder_driver);
                    }
                }
                if ballot_state.phase == SCPPhase::PhaseExternalize {
                    self.stop_ballot_protocol_timer();
                }
            } else {
                ballot_state.heard_from_quorum = false;
                self.stop_ballot_protocol_timer();
            }
        }
    }

    /// Looks, from the highest commit boundary down, for an interval of
    /// counters over which commit of `ballot`'s value passes `kind`; on
    /// success stores it in `candidate`.
    pub fn find_extended_interval(
        &self,
        boundaries: &ValueSet,
        candidate: &mut (u32, u32),
        kind: CommitCheck,
        ballot: &SCPBallot,
        latest: &NodeMap,
        env_map: &EnvMap,
        quorum_manager: &QuorumManager,
    ) -> (r: bool)
        requires
            latest.wf(),
            forall|i: int|
                0 <= i < boundaries.seq().len() ==> #[trigger] boundaries.seq()[i] <= u32::MAX,
        ensures
            match extended_interval_spec(
                self.local_node,
                *latest,
                env_map.0@,
                *quorum_manager,
                kind,
                *ballot,
                boundaries.seq(),
                *old(candidate),
                boundaries.seq().len() as int,
            ) {
                Some(c) => r && *final(candidate) == c,
                None => !r && *final(candidate) == *old(candidate),
            },
    {
        let ghost bs = boundaries.seq();
        let ghost cand0 = *candidate;
        let mut k: usize = boundaries.len();
        while k > 0
            invariant
                k <= bs.len(),
                bs == boundaries.seq(),
                *candidate == cand0,
                cand0 == *old(candidate),
                latest.wf(),
                forall|i: int| 0 <= i < bs.len() ==> #[trigger] bs[i] <= u32::MAX,
                extended_interval_spec(
                    self.local_node,
                    *latest,
                    env_map.0@,
                    *quorum_manager,
                    kind,
                    *ballot,
                    bs,
                    cand0,
                    bs.len() as int,
                ) == extended_interval_spec(
                    self.local_node,
                    *latest,
                    env_map.0@,
                    *quorum_manager,
                    kind,
                    *ballot,
                    bs,
                    cand0,
                    k as int,
                ),
            decreases k,
        {
            let b64 = boundaries.at(k - 1);
            assert(bs[k - 1] <= u32::MAX);
            let b = b64 as u32;
            let cur: (u32, u32) = if candidate.0 == 0 {
                (b, b)
            } else if b > candidate.1 {
                k = k - 1;
                continue;
            } else {
                (b, candidate.1)
            };
            let accepted = match kind {
                CommitCheck::Accept => self.federated_accept(
                    StatementFilter::VotedCommit(*ballot, cur.0, cur.1),
                    StatementFilter::AcceptedCommit(*ballot, cur.0, cur.1),
                    latest,
                    env_map,
                    quorum_manager,
                ),
                CommitCheck::Ratify => self.federated_ratify(
                    &StatementFilter::AcceptedCommit(*ballot, cur.0, cur.1),
                    latest,
                    env_map,
                    quorum_manager,
                ),
            };
            assert(accepted == commit_interval_ok(
                self.local_node,
                *latest,
                env_map.0@,
                *quorum_manager,
                kind,
                *ballot,
                cur.0,
                cur.1,
            ));
            if accepted {
                assert(extended_interval_spec(
                    self.local_node,
                    *latest,
                    env_map.0@,
                    *quorum_manager,
                    kind,
                    *ballot,
                    bs,
                    cand0,
                    k as int,
                ) == Some(cur));
                *candidate = cur;
                return true;
            } else if candidate.0 != 0 {
                return false;
            }
            k = k - 1;
        }
        false
    }
}

} // verus!

verus! {

/// What `process_ballot_envelope` does with the envelope `env_id`, checked
/// as sent by this node when `from_self`: the frames it keeps, when it is
/// refused and leaves everything as it was, and when it is recorded as its
/// sender's latest.
pub open spec fn ballot_envelope_effect(
    od: SlotDriver,
    nd: SlotDriver,
    obs: BallotProtocolState,
    nbs: BallotProtocolState,
    ons: NominationProtocolState,
    nns: NominationProtocolState,
    oem: EnvMap,
    nem: EnvMap,
    oq: Seq<SCPEnvelopeID>,
    nq: Seq<SCPEnvelopeID>,
    qm: QuorumManager,
    env_id: SCPEnvelopeID,
    from_self: bool,
    r: EnvelopeState,
) -> bool {
    &&& (ballot_frame(obs, nbs, oem.0@, nem.0@))
    &&& (nomination_frame(ons, nns))
    &&& (driver_frame(od, nd))
    &&& (latest_kept_except(
        obs,
        nbs,
        oem.0@[env_id].node_id@,
        od.local_node.node_id@,
    ))
    &&& (r == EnvelopeState::Invalid ==> nbs.last_envelope == obs.last_envelope && nq == oq)
    &&& (r == EnvelopeState::Valid ==> crate::scp::statement::nomination_values_spec(
        oem.0@[env_id].statement@,
    ) != Set::<u64>::empty())
    &&& (({
        let env = oem.0@[env_id];
        let stale = obs.latest_envelopes.get_spec(env.node_id@) matches Some(id)
            && oem.0@.contains_key(id) && crate::scp::statement::statement_newer_spec(
            oem.0@[id].statement@,
            env.statement@,
        );
        &&& stale ==> r == EnvelopeState::Invalid && nbs == obs && nem == oem && nns == ons
            && nq == oq && nd == od
        &&& (qm.quorum_set_of(env.statement@) is Some && statement_sane_spec(
            env.statement@,
            from_self,
        ) && !stale && env.node_id@ != od.local_node.node_id@)
            ==> nbs.latest_envelopes.get_spec(env.node_id@) == Some(env_id)
        &&& (qm.quorum_set_of(env.statement@) is Some && statement_sane_spec(
            env.statement@,
            from_self,
        ) && !stale) ==> nbs.latest_envelopes.contains_key(env.node_id@)
    }))
    &&& (({
        let st = oem.0@[env_id].statement@;
        !(qm.quorum_set_of(st) is Some && statement_sane_spec(st, from_self))
            ==> r == EnvelopeState::Invalid && nbs == obs && nem == oem && nns == ons && nq == oq
            && nd == od
    }))
    &&& (obs.phase == SCPPhase::PhaseExternalize ==> (r == EnvelopeState::Valid
        ==> (obs.commit matches Some(c) && c.value == working_ballot_spec(
        oem.0@[env_id].statement@,
    ).value)))
}

impl SlotDriver {
    /// Sends the latest envelope made by this node, unless it was already sent
    /// or the slot's values are not fully validated.
    pub fn maybe_send_latest_envelope<H: HerderDriver>(
        &self,
        state: &mut BallotProtocolState,
        env_map: &mut EnvMap,
        envs_to_emit: &mut VecDeque<SCPEnvelopeID>,
        herder_driver: &H,
    )
        ensures
            final(state).heard_from_quorum == old(state).heard_from_quorum,
            final(state).current_ballot == old(state).current_ballot,
            final(state).prepared == old(state).prepared,
            final(state).prepared_prime == old(state).prepared_prime,
            final(state).high_ballot == old(state).high_ballot,
            final(state).commit == old(state).commit,
            final(state).latest_envelopes == old(state).latest_envelopes,
            final(state).phase == old(state).phase,
            final(state).value_override == old(state).value_override,
            final(state).message_level == old(state).message_level,
            final(state).last_envelope == old(state).last_envelope,
            final(state).current_message_level == old(state).current_message_level,
            forall|k: SCPEnvelopeID| #[trigger]
                old(env_map).0@.contains_key(k) ==> final(env_map).0@.contains_key(k),
            ({
                let sends = old(state).current_message_level == 0 && self.slot_state.fully_validated
                    && (old(state).last_envelope matches Some(last) && !(
                old(state).last_envelope_emitted matches Some(e) && e@ == last@));
                &&& !sends ==> *final(state) == *old(state) && *final(env_map) == *old(env_map)
                    && final(envs_to_emit)@ == old(envs_to_emit)@
                &&& sends ==> {
                    let last = old(state).last_envelope->0;
                    let id = final(envs_to_emit)@.last();
                    &&& final(state).last_envelope_emitted matches Some(e) && e@ == last@
                    &&& final(envs_to_emit)@ == old(envs_to_emit)@.push(id)
                    &&& final(env_map).0@ == old(env_map).0@.insert(id, final(env_map).0@[id])
                    &&& final(env_map).0@[id]@ == last@
                }
            }),
    {
        if state.current_message_level != 0 {
            return;
        }
        if !self.slot_state.fully_validated {
            return;
        }
        let sent_already = match (&state.last_envelope, &state.last_envelope_emitted) {
            (Some(last), Some(emitted)) => emitted.eq_envelope(last),
            (Some(_), None) => false,
            (None, _) => true,
        };
        if sent_already {
            return;
        }
        match &state.last_envelope {
            Some(last) => {
                let copy = last.clone();
                state.last_envelope_emitted = Some(last.clone());
                herder_driver.emit_envelope(&copy);
                let env_id = env_map.add_envelope(copy);
                envs_to_emit.push_back(env_id);
            },
            None => {},
        }
    }

    /// Takes a ballot envelope into account: checks it, records it as the
    /// sender's latest, and advances the slot.
    pub fn process_ballot_envelope<H: HerderDriver>(
        &mut self,
        ballot_state: &mut BallotProtocolState,
        nomination_state: &mut NominationProtocolState,
        env_id: &SCPEnvelopeID,
        from_self: bool,
        env_map: &mut EnvMap,
        envs_to_emit: &mut VecDeque<SCPEnvelopeID>,
        quorum_manager: &QuorumManager,
        herder_driver: &mut H,
    ) -> (r: EnvelopeState)
        requires
            old(ballot_state).latest_envelopes.wf(),
            old(env_map).0@.contains_key(*env_id),
            old(env_map).0@[*env_id].slot_index == old(self).slot_index,
            is_ballot_statement(old(env_map).0@[*env_id].statement@)
                || quorum_manager.quorum_set_of(old(env_map).0@[*env_id].statement@) is None,
        ensures
            ballot_frame(*old(ballot_state), *final(ballot_state), old(env_map).0@, final(env_map).0@),
            nomination_frame(*old(nomination_state), *final(nomination_state)),
            driver_frame(*old(self), *final(self)),
            latest_kept_except(
                *old(ballot_state),
                *final(ballot_state),
                old(env_map).0@[*env_id].node_id@,
                old(self).local_node.node_id@,
            ),
            r == EnvelopeState::Invalid ==> final(ballot_state).last_envelope == old(
                ballot_state,
            ).last_envelope && final(envs_to_emit)@ == old(envs_to_emit)@,
            r == EnvelopeState::Valid ==> crate::scp::statement::nomination_values_spec(
                old(env_map).0@[*env_id].statement@,
            ) != Set::<u64>::empty(),
            ({
                let env = old(env_map).0@[*env_id];
                let stale = old(ballot_state).latest_envelopes.get_spec(env.node_id@) matches Some(id)
                    && old(env_map).0@.contains_key(id) && crate::scp::statement::statement_newer_spec(
                    old(env_map).0@[id].statement@,
                    env.statement@,
                );
                &&& stale ==> r == EnvelopeState::Invalid && *final(ballot_state) == *old(ballot_state)
                    && *final(env_map) == *old(env_map)
                &&& (quorum_manager.quorum_set_of(env.statement@) is Some && statement_sane_spec(
                    env.statement@,
                    from_self,
                ) && !stale && env.node_id@ != old(self).local_node.node_id@)
                    ==> final(ballot_state).latest_envelopes.get_spec(env.node_id@) == Some(*env_id)
                &&& (quorum_manager.quorum_set_of(env.statement@) is Some && statement_sane_spec(
                    env.statement@,
                    from_self,
                ) && !stale) ==> final(ballot_state).latest_envelopes.contains_key(env.node_id@)
            }),
            ({
                let st = old(env_map).0@[*env_id].statement@;
                !(quorum_manager.quorum_set_of(st) is Some && statement_sane_spec(st, from_self))
                    ==> r == EnvelopeState::Invalid && *final(ballot_state) == *old(ballot_state)
                    && *final(env_map) == *old(env_map)
            }),
            old(ballot_state).phase == SCPPhase::PhaseExternalize ==> (r == EnvelopeState::Valid
                ==> (old(ballot_state).commit matches Some(c) && c.value == working_ballot_spec(
                old(env_map).0@[*env_id].statement@,
            ).value)),
            ballot_envelope_effect(
                *old(self),
                *final(self),
                *old(ballot_state),
                *final(ballot_state),
                *old(nomination_state),
                *final(nomination_state),
                *old(env_map),
                *final(env_map),
                old(envs_to_emit)@,
                final(envs_to_emit)@,
                *quorum_manager,
                *env_id,
                from_self,
                r,
            ),
            r == EnvelopeState::Valid ==> values_validation_spec(
                *old(herder_driver),
                crate::scp::statement::nomination_values_spec(old(env_map).0@[*env_id].statement@),
            ) != ValidationLevel::Invalid,
            r == EnvelopeState::Valid ==> forall|v: u64|
                #[trigger] crate::scp::statement::nomination_values_spec(
                    old(env_map).0@[*env_id].statement@,
                ).contains(v) ==> old(herder_driver).validate_value_spec(v, false)
                    != ValidationLevel::Invalid,
        decreases level_fuel(old(ballot_state).message_level), 2nat,
    {
        let envelope = env_map.get(env_id).unwrap();
        let st = envelope.statement.clone();
        let node_id = envelope.node_id.clone();
        if !self.is_statement_sane(&st, from_self, quorum_manager) {
            return EnvelopeState::Invalid;
        }
        if ballot_state.is_newer_statement_for_node(&node_id, &st, env_map) {
            return EnvelopeState::Invalid;
        }
        ballot_state.latest_envelopes.insert(node_id, *env_id);
        let ghost mid = ballot_state.latest_envelopes;
        let validation_level = self.validate_values(&st, herder_driver);
        if validation_level == ValidationLevel::Invalid {
            return EnvelopeState::Invalid;
        }
        if ballot_state.phase != SCPPhase::PhaseExternalize {
            if validation_level != ValidationLevel::FullyValidated {
                self.slot_state.fully_validated = false;
            }
            if ballot_state.message_level < MAXIMUM_ADVANCE_SLOT_RECURSION - 1 {
                self.advance_slot(
                    ballot_state,
                    nomination_state,
                    &st,
                    env_map,
                    envs_to_emit,
                    quorum_manager,
                    herder_driver,
                );
            }
            assert forall|q: Seq<char>| #[trigger] old(ballot_state).latest_envelopes.contains_key(q)
                implies ballot_state.latest_envelopes.contains_key(q) by {
                assert(mid.contains_key(q));
            }
            return EnvelopeState::Valid;
        }
        match &ballot_state.commit {
            Some(c) => {
                if c.value == st.working_ballot().value {
                    EnvelopeState::Valid
                } else {
                    EnvelopeState::Invalid
                }
            },
            None => EnvelopeState::Invalid,
        }
    }

    /// Tries every step of the ballot protocol with `hint` as the latest
    /// statement, then bumps the ballot if a v-blocking set is ahead.
    #[verifier::rlimit(100)]
    pub fn advance_slot<H: HerderDriver>(
        &mut self,
        ballot_state: &mut BallotProtocolState,
        nomination_state: &mut NominationProtocolState,
        hint: &SCPStatement,
        env_map: &mut EnvMap,
        envs_to_emit: &mut VecDeque<SCPEnvelopeID>,
        quorum_manager: &QuorumManager,
        herder_driver: &mut H,
    )
        requires
            old(ballot_state).latest_envelopes.wf(),
            is_ballot_statement(hint@),
            old(ballot_state).message_level < MAXIMUM_ADVANCE_SLOT_RECURSION - 1,
        ensures
            ballot_frame(*old(ballot_state), *final(ballot_state), old(env_map).0@, final(env_map).0@),
            latest_kept_except(*old(ballot_state), *final(ballot_state), old(self).local_node.node_id@, old(self).local_node.node_id@),
            nomination_frame(*old(nomination_state), *final(nomination_state)),
            driver_frame(*old(self), *final(self)),
            (old(ballot_state).phase == SCPPhase::PhasePrepare && (exists|c: SCPBallot|
                #[trigger] accept_prepared_eligible(
                    old(self).local_node,
                    *old(ballot_state),
                    old(env_map).0@,
                    *quorum_manager,
                    hint@,
                    c,
                )) && accept_prepared_work_spec(
                *old(ballot_state),
                accept_prepared_choice(
                    old(self).local_node,
                    *old(ballot_state),
                    old(env_map).0@,
                    *quorum_manager,
                    hint@,
                ),
            )) ==> final(ballot_state).prepared is Some,
            ({
                let s0 = *old(ballot_state);
                let e0 = old(env_map).0@;
                let ln = old(self).local_node;
                let quiet = !accept_prepared_spec(ln, s0, e0, *quorum_manager, hint@)
                    && (s0.phase == SCPPhase::PhaseConfirm || !exists|c: SCPBallot|
                    #[trigger] confirm_prepared_eligible(ln, s0, e0, *quorum_manager, hint@, c));
                &&& (quiet && accept_commit_spec(ln, s0, e0, *quorum_manager, hint@)) ==> phase_rank(
                    final(ballot_state).phase,
                ) >= phase_rank(SCPPhase::PhaseConfirm)
                &&& (quiet && s0.phase == SCPPhase::PhaseConfirm && !accept_commit_spec(
                    ln,
                    s0,
                    e0,
                    *quorum_manager,
                    hint@,
                ) && confirm_commit_spec(ln, s0, e0, *quorum_manager, hint@))
                    ==> final(ballot_state).phase == SCPPhase::PhaseExternalize
                &&& (s0.message_level == 0 && quiet && !accept_commit_spec(ln, s0, e0, *quorum_manager, hint@)
                    && !confirm_commit_spec(ln, s0, e0, *quorum_manager, hint@) && s0.current_ballot is None
                    && bump_gate(ln, s0, e0) && old(nomination_state).latest_composite_candidate is Some)
                    ==> final(ballot_state).current_ballot is Some
            }),
        decreases level_fuel(old(ballot_state).message_level), 1nat,
    {
        ballot_state.message_level = ballot_state.message_level + 1;
        proof {
            let s0 = *old(ballot_state);
            let s1 = *ballot_state;
            let ln = self.local_node;
            let e0 = env_map.0@;
            assert forall|c: SCPBallot|
                #![trigger accept_prepared_eligible(ln, s1, e0, *quorum_manager, hint@, c)]
                #![trigger accept_prepared_eligible(ln, s0, e0, *quorum_manager, hint@, c)]
                accept_prepared_eligible(ln, s1, e0, *quorum_manager, hint@, c)
                    == accept_prepared_eligible(ln, s0, e0, *quorum_manager, hint@, c) by {}
            assert((|c: SCPBallot| accept_prepared_eligible(ln, s1, e0, *quorum_manager, hint@, c))
                =~= (|c: SCPBallot| accept_prepared_eligible(ln, s0, e0, *quorum_manager, hint@, c)));
            let ch = accept_prepared_choice(ln, s0, e0, *quorum_manager, hint@);
            assert(accept_prepared_choice(ln, s1, e0, *quorum_manager, hint@) == ch);
            assert(accept_prepared_work_spec(s1, ch) == accept_prepared_work_spec(s0, ch));
            assert(accept_prepared_spec(ln, s1, e0, *quorum_manager, hint@)
                == accept_prepared_spec(ln, s0, e0, *quorum_manager, hint@));
            assert forall|c: SCPBallot|
                #![trigger confirm_prepared_eligible(ln, s1, e0, *quorum_manager, hint@, c)]
                #![trigger confirm_prepared_eligible(ln, s0, e0, *quorum_manager, hint@, c)]
                confirm_prepared_eligible(ln, s1, e0, *quorum_manager, hint@, c)
                    == confirm_prepared_eligible(ln, s0, e0, *quorum_manager, hint@, c) by {}
            assert(hint_boundaries(s1, e0, hint@) == hint_boundaries(s0, e0, hint@));
            assert(accept_commit_spec(ln, s1, e0, *quorum_manager, hint@)
                == accept_commit_spec(ln, s0, e0, *quorum_manager, hint@));
            assert(confirm_commit_spec(ln, s1, e0, *quorum_manager, hint@)
                == confirm_commit_spec(ln, s0, e0, *quorum_manager, hint@));
            if bump_gate(ln, s0, e0) {
                let c = choose|c: u64| #[trigger] bump_target_ok(ln, s0, e0, c);
                assert(bump_target_ok(ln, s1, e0, c));
            }
        }
        let ghost s1 = *ballot_state;
        let ghost quiet = !accept_prepared_spec(self.local_node, s1, env_map.0@, *quorum_manager, hint@)
            && (s1.phase == SCPPhase::PhaseConfirm || !exists|c: SCPBallot|
            #[trigger] confirm_prepared_eligible(self.local_node, s1, env_map.0@, *quorum_manager, hint@, c));
        let ghost acs = accept_commit_spec(self.local_node, s1, env_map.0@, *quorum_manager, hint@);
        let ghost ccs = confirm_commit_spec(self.local_node, s1, env_map.0@, *quorum_manager, hint@);
        let ghost must_bump = old(ballot_state).message_level == 0 && quiet && !acs && !ccs
            && s1.current_ballot is None && bump_gate(self.local_node, s1, env_map.0@)
            && nomination_state.latest_composite_candidate is Some;
        let a1 = self.attempt_accept_prepared(
            ballot_state,
            nomination_state,
            hint,
            envs_to_emit,
            env_map,
            quorum_manager,
            herder_driver,
        );
        let a2 = self.attempt_confirm_prepared(
            ballot_state,
            nomination_state,
            hint,
            env_map,
            envs_to_emit,
            quorum_manager,
            herder_driver,
        );
        assert(quiet ==> *ballot_state == s1 && env_map.0@ == old(env_map).0@);
        let a3 = self.attempt_accept_commit(
            ballot_state,
            nomination_state,
            hint,
            envs_to_emit,
            env_map,
            quorum_manager,
            herder_driver,
        );
        proof {
            if quiet && !acs {
                let s3 = *ballot_state;
                assert(s3 == (BallotProtocolState { value_override: s3.value_override, ..s1 }));
                assert(hint_boundaries(s3, env_map.0@, hint@) == hint_boundaries(s1, env_map.0@, hint@));
                assert(confirm_commit_spec(self.local_node, s3, env_map.0@, *quorum_manager, hint@) == ccs);
            }
        }
        let a4 = self.attempt_confirm_commit(
            ballot_state,
            nomination_state,
            hint,
            env_map,
            envs_to_emit,
            quorum_manager,
            herder_driver,
        );
        if a4 {
            // The slot has just externalized, which happens once: the phase
            // stays EXTERNALIZE from now on.
            match &ballot_state.commit {
                Some(c) => {
                    crate::scp::scp_driver::SCPDriver::value_externalized(&*self, self.slot_index, &c.value);
                },
                None => {},
            }
        }
        let mut did_work = a1 || a2 || a3 || a4;
        let ghost prepared_set = ballot_state.prepared is Some;
        let ghost mid_rank = phase_rank(ballot_state.phase);
        let ghost mid_ext = ballot_state.phase == SCPPhase::PhaseExternalize;
        assert(quiet && acs ==> mid_rank >= phase_rank(SCPPhase::PhaseConfirm));
        assert(quiet && s1.phase == SCPPhase::PhaseConfirm && !acs && ccs ==> mid_ext);
        proof {
            if must_bump {
                let s4 = *ballot_state;
                assert(s4 == (BallotProtocolState { value_override: s4.value_override, ..s1 }));
                let c = choose|c: u64| #[trigger] bump_target_ok(self.local_node, s1, env_map.0@, c);
                assert(bump_target_ok(self.local_node, s4, env_map.0@, c));
                assert(bump_gate(self.local_node, s4, env_map.0@));
            }
        }
        if ballot_state.message_level == 1 {
            let did_bump = self.bump_while_blocked(
                ballot_state,
                nomination_state,
                env_map,
                envs_to_emit,
                quorum_manager,
                herder_driver,
            );
            did_work = did_bump || did_work;
        }
        ballot_state.message_level = ballot_state.message_level - 1;
        if did_work {
            self.maybe_send_latest_envelope(ballot_state, env_map, envs_to_emit, herder_driver);
        }
    }

    /// Step 9, repeated while it moves to a higher ballot; returns whether it
    /// did.
    #[verifier::rlimit(100)]
    fn bump_while_blocked<H: HerderDriver>(
        &mut self,
        ballot_state: &mut BallotProtocolState,
        nomination_state: &mut NominationProtocolState,
        env_map: &mut EnvMap,
        envs_to_emit: &mut VecDeque<SCPEnvelopeID>,
        quorum_manager: &QuorumManager,
        herder_driver: &mut H,
    ) -> (did_bump: bool)
        requires
            old(ballot_state).latest_envelopes.wf(),
        ensures
            ballot_frame(*old(ballot_state), *final(ballot_state), old(env_map).0@, final(env_map).0@),
            latest_kept_except(*old(ballot_state), *final(ballot_state), old(self).local_node.node_id@, old(self).local_node.node_id@),
            nomination_frame(*old(nomination_state), *final(nomination_state)),
            driver_frame(*old(self), *final(self)),
            (bump_gate(old(self).local_node, *old(ballot_state), old(env_map).0@)
                && old(nomination_state).latest_composite_candidate is Some
                && old(ballot_state).current_ballot is None) ==> final(ballot_state).current_ballot is Some,
        decreases level_fuel(old(ballot_state).message_level), 8nat,
    {
        let ghost must_bump = bump_gate(self.local_node, *ballot_state, env_map.0@)
            && nomination_state.latest_composite_candidate is Some
            && ballot_state.current_ballot is None;
        let ghost mut bumped = false;
        let mut did_work = false;
        let mut rounds: u32 = 0;
        loop
            invariant
                must_bump == (bump_gate(old(self).local_node, *old(ballot_state), old(env_map).0@)
                    && old(nomination_state).latest_composite_candidate is Some
                    && old(ballot_state).current_ballot is None),
                must_bump && !bumped ==> *ballot_state == *old(ballot_state) && env_map.0@ == old(env_map).0@
                    && *nomination_state == *old(nomination_state) && self.local_node == old(self).local_node,
                must_bump && bumped ==> ballot_state.current_ballot is Some,
                ballot_state.latest_envelopes.wf(),
                ballot_frame(*old(ballot_state), *ballot_state, old(env_map).0@, env_map.0@),
                nomination_frame(*old(nomination_state), *nomination_state),
                driver_frame(*old(self), *self),
                latest_kept_except(
                    *old(ballot_state),
                    *ballot_state,
                    old(self).local_node.node_id@,
                    old(self).local_node.node_id@,
                ),
            ensures
                bumped,
            decreases u32::MAX - rounds,
        {
            let ghost pre = *ballot_state;
            let ghost pre_env = env_map.0@;
            let ghost pre_comp = nomination_state.latest_composite_candidate;
            let did_bump = self.attempt_bump(
                ballot_state,
                nomination_state,
                env_map,
                envs_to_emit,
                quorum_manager,
                herder_driver,
            );
            proof {
                if must_bump && !bumped {
                    assert(pre.phase == SCPPhase::PhasePrepare || pre.phase == SCPPhase::PhaseConfirm);
                    assert(pre.current_ballot is None);
                    assert(attempt_bump_spec(self.local_node, pre, pre_env, pre_comp));
                    assert(did_bump);
                }
                bumped = true;
            }
            did_work = did_bump || did_work;
            if !did_bump || rounds == u32::MAX {
                break;
            }
            rounds = rounds + 1;
        }
        did_work
    }
}

} // verus!

verus! {

impl SlotDriver {
    /// Steps 1 and 5 of the protocol: accepts as prepared the first candidate
    /// ballot that federated voting accepts.
    #[verifier::rlimit(90)]
    pub fn attempt_accept_prepared<H: HerderDriver>(
        &mut self,
        state: &mut BallotProtocolState,
        nomination_state: &mut NominationProtocolState,
        hint: &SCPStatement,
        envs_to_emit: &mut VecDeque<SCPEnvelopeID>,
        env_map: &mut EnvMap,
        quorum_manager: &QuorumManager,
        herder_driver: &mut H,
    ) -> (r: bool)
        requires
            old(state).latest_envelopes.wf(),
            is_ballot_statement(hint@),
        ensures
            ballot_frame(*old(state), *final(state), old(env_map).0@, final(env_map).0@),
            latest_kept_except(*old(state), *final(state), old(self).local_node.node_id@, old(self).local_node.node_id@),
            nomination_frame(*old(nomination_state), *final(nomination_state)),
            driver_frame(*old(self), *final(self)),
            old(state).phase == SCPPhase::PhaseExternalize ==> !r && *final(state) == *old(state)
                && *final(env_map) == *old(env_map),
            r ==> exists|c: SCPBallot|
                #[trigger] prepare_candidates_spec(old(state).latest_envelopes, old(env_map).0@, hint@).contains(c)
                    && federated_accept_spec(
                    old(self).local_node,
                    old(state).latest_envelopes,
                    old(env_map).0@,
                    *quorum_manager,
                    StatementFilter::VotedPrepared(c),
                    StatementFilter::HasPrepared(c),
                ),
            old(state).phase == SCPPhase::PhaseConfirm && old(state).prepared is None ==> !r,
            r == accept_prepared_spec(old(self).local_node, *old(state), old(env_map).0@, *quorum_manager, hint@),
            r ==> final(state).prepared is Some,
            !r ==> *final(state) == *old(state) && *final(env_map) == *old(env_map)
                && *final(nomination_state) == *old(nomination_state),
            final(state).last_envelope != old(state).last_envelope ==> (final(state).last_envelope matches Some(e)
                && e.statement@ == create_statement_spec(
                accept_prepared_state(
                    *old(state),
                    accept_prepared_choice(
                        old(self).local_node,
                        *old(state),
                        old(env_map).0@,
                        *quorum_manager,
                        hint@,
                    ),
                ),
                crate::crypto::blake2b_digest(crate::crypto::enc_qset(old(self).local_node.quorum_set@)),
            )),
            old(state).phase != SCPPhase::PhaseExternalize && !(old(state).phase
                == SCPPhase::PhaseConfirm && old(state).prepared is None) ==> r == ((exists|
                c: SCPBallot,
            |
                #[trigger] accept_prepared_eligible(
                    old(self).local_node,
                    *old(state),
                    old(env_map).0@,
                    *quorum_manager,
                    hint@,
                    c,
                )) && accept_prepared_work_spec(
                *old(state),
                accept_prepared_choice(
                    old(self).local_node,
                    *old(state),
                    old(env_map).0@,
                    *quorum_manager,
                    hint@,
                ),
            )),
        decreases level_fuel(old(state).message_level), 5nat,
    {
        if state.phase != SCPPhase::PhasePrepare && state.phase != SCPPhase::PhaseConfirm {
            return false;
        }
        let candidates = state.get_prepare_candidates(hint, env_map);
        let mut i: usize = 0;
        while i < candidates.len()
            invariant
                *state == *old(state),
                *env_map == *old(env_map),
                *nomination_state == *old(nomination_state),
                *self == *old(self),
                state.latest_envelopes.wf(),
                state.phase != SCPPhase::PhaseExternalize,
                i <= candidates.seq().len(),
                candidates@ == prepare_candidates_spec(
                    old(state).latest_envelopes,
                    old(env_map).0@,
                    hint@,
                ),
                candidates.wf(),
                forall|k: int|
                    0 <= k < i ==> !accept_prepared_eligible(
                        self.local_node,
                        *old(state),
                        old(env_map).0@,
                        *quorum_manager,
                        hint@,
                        #[trigger] candidates.seq()[k],
                    ),
            decreases candidates.seq().len() - i,
        {
            let candidate = candidates.at(i);
            i = i + 1;
            if state.phase == SCPPhase::PhaseConfirm {
                match &state.prepared {
                    Some(p) => {
                        if p.less_and_compatible(&candidate) {
                            continue;
                        }
                    },
                    None => {
                        return false;
                    },
                }
            }
            let below_prepared_prime = match &state.prepared_prime {
                Some(pp) => candidate.less_and_compatible(pp),
                None => false,
            };
            if below_prepared_prime {
                continue;
            }
            let below_prepared = match &state.prepared {
                Some(p) => candidate.less_and_compatible(p),
                None => false,
            };
            if below_prepared {
                continue;
            }
            if self.federated_accept(
                StatementFilter::VotedPrepared(candidate),
                StatementFilter::HasPrepared(candidate),
                &state.latest_envelopes,
                env_map,
                quorum_manager,
            ) {
                proof {
                    assert(candidates.seq().contains(candidates.seq()[i - 1]));
                    assert(candidates@.contains(candidate));
                    candidates.lemma_wf_increasing();
                    let pred = |c: SCPBallot|
                        accept_prepared_eligible(
                            self.local_node,
                            *old(state),
                            old(env_map).0@,
                            *quorum_manager,
                            hint@,
                            c,
                        );
                    assert(pred(candidates.seq()[i - 1]));
                    lemma_first_is_least(candidates.seq(), pred, i - 1);
                }
                return self.set_accept_prepared(
                    state,
                    nomination_state,
                    &candidate,
                    env_map,
                    envs_to_emit,
                    quorum_manager,
                    herder_driver,
                );
            }
        }
        proof {
            candidates.lemma_wf_increasing();
            lemma_none_satisfies(
                candidates.seq(),
                |c: SCPBallot|
                    accept_prepared_eligible(
                        self.local_node,
                        *old(state),
                        old(env_map).0@,
                        *quorum_manager,
                        hint@,
                        c,
                    ),
            );
        }
        false
    }

    /// Records `ballot` as accepted prepared and drops `c` if `h` is now
    /// below and incompatible with `p` or `p'`; emits the new state.
    pub fn set_accept_prepared<H: HerderDriver>(
        &mut self,
        state: &mut BallotProtocolState,
        nomination_state: &mut NominationProtocolState,
        ballot: &SCPBallot,
        env_map: &mut EnvMap,
        envs_to_emit: &mut VecDeque<SCPEnvelopeID>,
        quorum_manager: &QuorumManager,
        herder_driver: &mut H,
    ) -> (did_work: bool)
        requires
            old(state).latest_envelopes.wf(),
            old(state).phase != SCPPhase::PhaseExternalize,
        ensures
            ballot_frame(*old(state), *final(state), old(env_map).0@, final(env_map).0@),
            latest_kept_except(*old(state), *final(state), old(self).local_node.node_id@, old(self).local_node.node_id@),
            nomination_frame(*old(nomination_state), *final(nomination_state)),
            driver_frame(*old(self), *final(self)),
            did_work == accept_prepared_work_spec(*old(state), *ballot),
            did_work ==> final(state).prepared is Some,
            did_work && emit_records(
                old(self).local_node,
                accept_prepared_state(*old(state), *ballot),
                old(env_map).0@,
                *quorum_manager,
            ) ==> final(state).latest_envelopes.contains_key(old(self).local_node.node_id@),
            final(state).last_envelope != old(state).last_envelope ==> (final(state).last_envelope matches Some(e)
                && e.statement@ == create_statement_spec(
                accept_prepared_state(*old(state), *ballot),
                crate::crypto::blake2b_digest(crate::crypto::enc_qset(old(self).local_node.quorum_set@)),
            )),
            !did_work ==> *final(state) == *old(state) && *final(env_map) == *old(env_map)
                && final(envs_to_emit)@ == old(envs_to_emit)@ && *final(nomination_state) == *old(
                nomination_state,
            ),
        decreases level_fuel(old(state).message_level), 4nat,
    {
        let did_work = state.accept_prepared(ballot);
        if did_work {
            self.emit_current_state_statement(
                state,
                nomination_state,
                env_map,
                envs_to_emit,
                quorum_manager,
                herder_driver,
            );
        }
        did_work
    }

    /// Steps 2, 3 and 8: confirms as prepared the first candidate that a
    /// quorum has prepared, and the commit ballot below it.
    pub fn attempt_confirm_prepared<H: HerderDriver>(
        &mut self,
        state: &mut BallotProtocolState,
        nomination_state: &mut NominationProtocolState,
        hint: &SCPStatement,
        env_map: &mut EnvMap,
        envs_to_emit: &mut VecDeque<SCPEnvelopeID>,
        quorum_manager: &QuorumManager,
        herder_driver: &mut H,
    ) -> (r: bool)
        requires
            old(state).latest_envelopes.wf(),
            is_ballot_statement(hint@),
        ensures
            ballot_frame(*old(state), *final(state), old(env_map).0@, final(env_map).0@),
            latest_kept_except(*old(state), *final(state), old(self).local_node.node_id@, old(self).local_node.node_id@),
            nomination_frame(*old(nomination_state), *final(nomination_state)),
            driver_frame(*old(self), *final(self)),
            (old(state).phase != SCPPhase::PhasePrepare || old(state).prepared is None) ==> !r
                && *final(state) == *old(state) && *final(env_map) == *old(env_map),
            r ==> exists|c: SCPBallot|
                #[trigger] prepare_candidates_spec(old(state).latest_envelopes, old(env_map).0@, hint@).contains(c)
                    && !(old(state).high_ballot matches Some(h) && ballot_le(c, h))
                    && federated_ratify_spec(
                    old(self).local_node,
                    old(state).latest_envelopes,
                    old(env_map).0@,
                    *quorum_manager,
                    StatementFilter::HasPrepared(c),
                ),
            ({
                let nh = confirm_prepared_choice(
                    old(self).local_node,
                    *old(state),
                    old(env_map).0@,
                    *quorum_manager,
                    hint@,
                );
                let eligible = exists|c: SCPBallot|
                    #[trigger] confirm_prepared_eligible(
                        old(self).local_node,
                        *old(state),
                        old(env_map).0@,
                        *quorum_manager,
                        hint@,
                        c,
                    );
                &&& (old(state).phase == SCPPhase::PhasePrepare && old(state).prepared is Some && eligible)
                    ==> r == confirm_prepared_work_spec(
                    *old(state),
                    confirm_prepared_commit(
                        old(self).local_node,
                        *old(state),
                        old(env_map).0@,
                        *quorum_manager,
                        hint@,
                        nh,
                    ),
                    nh,
                )
                &&& !eligible ==> !r && *final(state) == *old(state) && *final(env_map) == *old(env_map)
                &&& final(state).last_envelope != old(state).last_envelope ==> (
                final(state).last_envelope matches Some(e) && e.statement@ == create_statement_spec(
                    confirm_prepared_state(
                        *old(state),
                        confirm_prepared_commit(
                            old(self).local_node,
                            *old(state),
                            old(env_map).0@,
                            *quorum_manager,
                            hint@,
                            nh,
                        ),
                        nh,
                    ),
                    crate::crypto::blake2b_digest(crate::crypto::enc_qset(old(self).local_node.quorum_set@)),
                ))
            }),
        decreases level_fuel(old(state).message_level), 5nat,
    {
        if state.phase != SCPPhase::PhasePrepare {
            return false;
        }
        if state.prepared.is_none() {
            return false;
        }
        let candidates = state.get_prepare_candidates(hint, env_map);
        let mut found: Option<SCPBallot> = None;
        let mut i: usize = 0;
        while i < candidates.len()
            invariant_except_break
                found is None,
            invariant
                *state == *old(state),
                *env_map == *old(env_map),
                state.latest_envelopes.wf(),
                i <= candidates.seq().len(),
                candidates@ == prepare_candidates_spec(
                    old(state).latest_envelopes,
                    old(env_map).0@,
                    hint@,
                ),
                found matches Some(c) ==> candidates@.contains(c) && !(old(state).high_ballot matches Some(
                    h,
                ) && ballot_le(c, h)) && federated_ratify_spec(
                    self.local_node,
                    old(state).latest_envelopes,
                    old(env_map).0@,
                    *quorum_manager,
                    StatementFilter::HasPrepared(c),
                ),
                *self == *old(self),
                candidates.wf(),
                found is None ==> forall|k: int|
                    0 <= k < i ==> !confirm_prepared_eligible(
                        self.local_node,
                        *old(state),
                        old(env_map).0@,
                        *quorum_manager,
                        hint@,
                        #[trigger] candidates.seq()[k],
                    ),
                found matches Some(c) ==> c == confirm_prepared_choice(
                    self.local_node,
                    *old(state),
                    old(env_map).0@,
                    *quorum_manager,
                    hint@,
                ) && confirm_prepared_eligible(
                    self.local_node,
                    *old(state),
                    old(env_map).0@,
                    *quorum_manager,
                    hint@,
                    c,
                ),
            ensures
                found is None ==> i == candidates.seq().len(),
            decreases candidates.seq().len() - i,
        {
            let candidate = candidates.at(i);
            let higher = match &state.high_ballot {
                Some(hb) => candidate.le(hb),
                None => false,
            };
            if !higher && self.federated_ratify(
                &StatementFilter::HasPrepared(candidate),
                &state.latest_envelopes,
                env_map,
                quorum_manager,
            ) {
                proof {
                    assert(candidates.seq().contains(candidates.seq()[i as int]));
                    candidates.lemma_wf_increasing();
                    let pred = |c: SCPBallot|
                        confirm_prepared_eligible(
                            self.local_node,
                            *old(state),
                            old(env_map).0@,
                            *quorum_manager,
                            hint@,
                            c,
                        );
                    assert(pred(candidates.seq()[i as int]));
                    lemma_first_is_least(candidates.seq(), pred, i as int);
                }
                found = Some(candidate);
                break;
            }
            i = i + 1;
        }
        let new_high = match found {
            Some(h) => h,
            None => {
                proof {
                    candidates.lemma_wf_increasing();
                    lemma_none_satisfies(
                        candidates.seq(),
                        |c: SCPBallot|
                            confirm_prepared_eligible(
                                self.local_node,
                                *old(state),
                                old(env_map).0@,
                                *quorum_manager,
                                hint@,
                                c,
                            ),
                    );
                }
                return false;
            },
        };
        let b = match &state.current_ballot {
            Some(c) => *c,
            None => SCPBallot::default(),
        };
        let mut new_commit = SCPBallot::default();
        let below_p = match &state.prepared {
            Some(p) => new_high.less_and_incompatible(p),
            None => false,
        };
        let below_pp = match &state.prepared_prime {
            Some(pp) => new_high.less_and_incompatible(pp),
            None => false,
        };
        let ghost cs = candidates.seq();
        let ghost walk = commit_walk(
            self.local_node,
            old(state).latest_envelopes,
            old(env_map).0@,
            *quorum_manager,
            cs,
            b,
            new_high,
            0,
            SCPBallot::default_spec(),
        );
        if state.commit.is_none() && !below_p && !below_pp {
            let mut j: usize = 0;
            while j < candidates.len()
                invariant_except_break
                    walk == commit_walk(
                        self.local_node,
                        old(state).latest_envelopes,
                        old(env_map).0@,
                        *quorum_manager,
                        cs,
                        b,
                        new_high,
                        j as int,
                        new_commit,
                    ),
                invariant
                    *state == *old(state),
                    *env_map == *old(env_map),
                    *self == *old(self),
                    state.latest_envelopes.wf(),
                    cs == candidates.seq(),
                    j <= cs.len(),
                ensures
                    walk == new_commit,
                decreases candidates.seq().len() - j,
            {
                let candidate = candidates.at(j);
                j = j + 1;
                if candidate.lt(&b) {
                    break;
                }
                if !candidate.less_and_compatible(&new_high) {
                    continue;
                }
                if self.federated_ratify(
                    &StatementFilter::HasPrepared(candidate),
                    &state.latest_envelopes,
                    env_map,
                    quorum_manager,
                ) {
                    new_commit = candidate;
                } else {
                    break;
                }
            }
        }
        proof {
            candidates.lemma_wf_increasing();
            assert(cs.to_set() == candidates@);
            let q = sorted_ballots(candidates@);
            assert(ballots_increasing(q) && q.to_set() == candidates@);
            lemma_sorted_unique(q, cs);
        }
        self.set_confirm_prepared(
            state,
            nomination_state,
            &new_commit,
            &new_high,
            envs_to_emit,
            env_map,
            quorum_manager,
            herder_driver,
        )
    }

    /// Confirms `new_high` as prepared (and `new_commit`, when not zero, as
    /// the commit ballot), moves `b` up if needed and emits the new state.
    pub fn set_confirm_prepared<H: HerderDriver>(
        &mut self,
        state: &mut BallotProtocolState,
        nomination_state: &mut NominationProtocolState,
        new_commit: &SCPBallot,
        new_high: &SCPBallot,
        envs_to_emit: &mut VecDeque<SCPEnvelopeID>,
        env_map: &mut EnvMap,
        quorum_manager: &QuorumManager,
        herder_driver: &mut H,
    ) -> (did_work: bool)
        requires
            old(state).latest_envelopes.wf(),
            old(state).phase != SCPPhase::PhaseExternalize,
        ensures
            ballot_frame(*old(state), *final(state), old(env_map).0@, final(env_map).0@),
            latest_kept_except(*old(state), *final(state), old(self).local_node.node_id@, old(self).local_node.node_id@),
            nomination_frame(*old(nomination_state), *final(nomination_state)),
            driver_frame(*old(self), *final(self)),
            did_work == confirm_prepared_work_spec(*old(state), *new_commit, *new_high),
            did_work && emit_records(
                old(self).local_node,
                confirm_prepared_state(*old(state), *new_commit, *new_high),
                old(env_map).0@,
                *quorum_manager,
            ) ==> final(state).latest_envelopes.contains_key(old(self).local_node.node_id@),
            final(state).last_envelope != old(state).last_envelope ==> (final(state).last_envelope matches Some(e)
                && e.statement@ == create_statement_spec(
                confirm_prepared_state(*old(state), *new_commit, *new_high),
                crate::crypto::blake2b_digest(crate::crypto::enc_qset(old(self).local_node.quorum_set@)),
            )),
        decreases level_fuel(old(state).message_level), 4nat,
    {
        let did_work = state.confirm_prepared(new_commit, new_high);
        if did_work {
            self.emit_current_state_statement(
                state,
                nomination_state,
                env_map,
                envs_to_emit,
                quorum_manager,
                herder_driver,
            );
        }
        did_work
    }
}

} // verus!

verus! {

/// Every commit boundary is a ballot counter.
pub proof fn lemma_boundaries_bounded(
    m: NodeMap,
    env: Map<SCPEnvelopeID, SCPEnvelope>,
    ballot: SCPBallot,
    n: int,
)
    ensures
        forall|x: u64| #[trigger] boundaries_upto(m, env, ballot, n).contains(x) ==> x <= u32::MAX,
    decreases n,
{
    if n > 0 {
        lemma_boundaries_bounded(m, env, ballot, n - 1);
        match node_statement(m, env, n - 1) {
            Some(s) => {
                assert forall|x: u64| #[trigger] boundaries_of(ballot, s).contains(x) implies x
                    <= u32::MAX by {
                    match s {
                        StatementView::Prepare(st) => {},
                        StatementView::Confirm(st) => {},
                        StatementView::Externalize(st) => {},
                        StatementView::Nominate(_) => {},
                    }
                }
            },
            None => {},
        }
        assert forall|x: u64| #[trigger] boundaries_upto(m, env, ballot, n).contains(x) implies x
            <= u32::MAX by {
            if !boundaries_upto(m, env, ballot, n - 1).contains(x) {
                match node_statement(m, env, n - 1) {
                    Some(s) => {
                        assert(boundaries_of(ballot, s).contains(x));
                    },
                    None => {},
                }
            }
        }
    }
}

proof fn lemma_boundary_seq_bounded(bs: ValueSet, m: NodeMap, env: Map<SCPEnvelopeID, SCPEnvelope>, ballot: SCPBallot)
    requires
        bs@ == boundaries_upto(m, env, ballot, m.keys().len() as int),
    ensures
        forall|i: int| 0 <= i < bs.seq().len() ==> #[trigger] bs.seq()[i] <= u32::MAX,
{
    lemma_boundaries_bounded(m, env, ballot, m.keys().len() as int);
    assert forall|i: int| 0 <= i < bs.seq().len() implies #[trigger] bs.seq()[i] <= u32::MAX by {
        assert(bs.seq().contains(bs.seq()[i]));
        bs.lemma_seq_contains(bs.seq()[i]);
    }
}

/// The ballot a statement carries for the commit steps: its `h` counter
/// with its value.
pub open spec fn hint_ballot_spec(s: StatementView) -> SCPBallot {
    match s {
        StatementView::Prepare(st) => SCPBallot { counter: st.num_high, value: st.ballot.value },
        StatementView::Confirm(st) => SCPBallot { counter: st.num_high, value: st.ballot.value },
        StatementView::Externalize(st) => SCPBallot { counter: st.num_high, value: st.commit.value },
        StatementView::Nominate(_) => SCPBallot::default_spec(),
    }
}

/// A boundary `b` of `bset` at which commit of `ballot`'s value passes
/// `kind` over the interval `[b, b]`.
pub open spec fn commit_boundary_ok(
    local: LocalNodeInfo,
    latest: NodeMap,
    env: Map<SCPEnvelopeID, SCPEnvelope>,
    qm: QuorumManager,
    kind: CommitCheck,
    ballot: SCPBallot,
    bset: Set<u64>,
    b: u64,
) -> bool {
    &&& bset.contains(b)
    &&& b <= u32::MAX
    &&& commit_interval_ok(local, latest, env, qm, kind, ballot, b as u32, b as u32)
}

/// The highest such boundary, when there is one.
pub open spec fn highest_commit_boundary(
    local: LocalNodeInfo,
    latest: NodeMap,
    env: Map<SCPEnvelopeID, SCPEnvelope>,
    qm: QuorumManager,
    kind: CommitCheck,
    ballot: SCPBallot,
    bset: Set<u64>,
) -> u64 {
    choose|b: u64|
        #[trigger] commit_boundary_ok(local, latest, env, qm, kind, ballot, bset, b) && forall|
            d: u64,
        | #[trigger] commit_boundary_ok(local, latest, env, qm, kind, ballot, bset, d) ==> d <= b
}

/// From no candidate, `find_extended_interval` settles on `(b, b)` for the
/// highest boundary `b` among the first `k` at which commit passes, if any.
pub proof fn lemma_extended_interval_from_nothing(
    local: LocalNodeInfo,
    latest: NodeMap,
    env: Map<SCPEnvelopeID, SCPEnvelope>,
    qm: QuorumManager,
    kind: CommitCheck,
    ballot: SCPBallot,
    bs: Seq<u64>,
    k: int,
)
    requires
        crate::utils::value_set::strictly_increasing(bs),
        forall|i: int| 0 <= i < bs.len() ==> #[trigger] bs[i] <= u32::MAX,
        0 <= k <= bs.len(),
    ensures
        extended_interval_spec(local, latest, env, qm, kind, ballot, bs, (0, 0), k) matches Some(c)
            ==> c.0 == c.1 && exists|j: int|
            0 <= j < k && bs[j] == c.0 && commit_interval_ok(
                local,
                latest,
                env,
                qm,
                kind,
                ballot,
                c.0,
                c.1,
            ) && forall|i: int|
                0 <= i < k && commit_interval_ok(
                    local,
                    latest,
                    env,
                    qm,
                    kind,
                    ballot,
                    #[trigger] bs[i] as u32,
                    bs[i] as u32,
                ) ==> bs[i] <= bs[j],
        extended_interval_spec(local, latest, env, qm, kind, ballot, bs, (0, 0), k) is None
            ==> forall|i: int|
            0 <= i < k ==> !commit_interval_ok(
                local,
                latest,
                env,
                qm,
                kind,
                ballot,
                #[trigger] bs[i] as u32,
                bs[i] as u32,
            ),
    decreases k,
{
    if k > 0 {
        lemma_extended_interval_from_nothing(local, latest, env, qm, kind, ballot, bs, k - 1);
        let b = bs[k - 1];
        if commit_interval_ok(local, latest, env, qm, kind, ballot, b as u32, b as u32) {
            assert(bs[k - 1] == (b as u32) as u64);
            assert forall|i: int|
                0 <= i < k && commit_interval_ok(
                    local,
                    latest,
                    env,
                    qm,
                    kind,
                    ballot,
                    #[trigger] bs[i] as u32,
                    bs[i] as u32,
                ) implies bs[i] <= bs[k - 1] by {
                if i < k - 1 {
                    assert(bs[i] < bs[k - 1]);
                }
            }
        }
    }
}

/// What `find_extended_interval` settles on from no candidate, over the
/// set of boundaries walked in increasing order: `(m, m)` for the highest
/// boundary `m` at which commit passes, or nothing when there is none.
pub proof fn lemma_commit_choice(
    local: LocalNodeInfo,
    latest: NodeMap,
    env: Map<SCPEnvelopeID, SCPEnvelope>,
    qm: QuorumManager,
    kind: CommitCheck,
    ballot: SCPBallot,
    bs: Seq<u64>,
    bset: Set<u64>,
)
    requires
        crate::utils::value_set::strictly_increasing(bs),
        forall|i: int| 0 <= i < bs.len() ==> #[trigger] bs[i] <= u32::MAX,
        forall|x: u64| #[trigger] bset.contains(x) <==> bs.contains(x),
    ensures
        match extended_interval_spec(local, latest, env, qm, kind, ballot, bs, (0, 0), bs.len() as int) {
            Some(c) => c.0 == c.1 && (exists|b: u64|
                #[trigger] commit_boundary_ok(local, latest, env, qm, kind, ballot, bset, b))
                && highest_commit_boundary(local, latest, env, qm, kind, ballot, bset) == c.0,
            None => !exists|b: u64|
                #[trigger] commit_boundary_ok(local, latest, env, qm, kind, ballot, bset, b),
        },
{
    lemma_extended_interval_from_nothing(local, latest, env, qm, kind, ballot, bs, bs.len() as int);
    match extended_interval_spec(local, latest, env, qm, kind, ballot, bs, (0, 0), bs.len() as int) {
        Some(c) => {
            let j = choose|j: int|
                0 <= j < bs.len() && bs[j] == c.0 && commit_interval_ok(
                    local,
                    latest,
                    env,
                    qm,
                    kind,
                    ballot,
                    c.0,
                    c.1,
                ) && forall|i: int|
                    0 <= i < bs.len() && commit_interval_ok(
                        local,
                        latest,
                        env,
                        qm,
                        kind,
                        ballot,
                        #[trigger] bs[i] as u32,
                        bs[i] as u32,
                    ) ==> bs[i] <= bs[j];
            assert(bs.contains(bs[j]));
            assert(commit_boundary_ok(local, latest, env, qm, kind, ballot, bset, bs[j]));
            assert forall|d: u64|
                #[trigger] commit_boundary_ok(local, latest, env, qm, kind, ballot, bset, d)
                implies d <= bs[j] by {
                let i = choose|i: int| 0 <= i < bs.len() && bs[i] == d;
                assert(commit_interval_ok(local, latest, env, qm, kind, ballot, bs[i] as u32, bs[i] as u32));
            }
            let m = highest_commit_boundary(local, latest, env, qm, kind, ballot, bset);
            assert(commit_boundary_ok(local, latest, env, qm, kind, ballot, bset, m) && forall|
                d: u64,
            | #[trigger] commit_boundary_ok(local, latest, env, qm, kind, ballot, bset, d) ==> d <= m);
            assert(m <= bs[j] && bs[j] <= m);
        },
        None => {
            if exists|b: u64| #[trigger] commit_boundary_ok(local, latest, env, qm, kind, ballot, bset, b) {
                let b = choose|b: u64|
                    #[trigger] commit_boundary_ok(local, latest, env, qm, kind, ballot, bset, b);
                let i = choose|i: int| 0 <= i < bs.len() && bs[i] == b;
                assert(commit_interval_ok(local, latest, env, qm, kind, ballot, bs[i] as u32, bs[i] as u32));
            }
        },
    }
}

/// The interval `find_extended_interval` settles on passes its check.
pub proof fn lemma_extended_interval_ok(
    local: LocalNodeInfo,
    latest: NodeMap,
    env: Map<SCPEnvelopeID, SCPEnvelope>,
    qm: QuorumManager,
    kind: CommitCheck,
    ballot: SCPBallot,
    bs: Seq<u64>,
    cand: (u32, u32),
    k: int,
)
    ensures
        extended_interval_spec(local, latest, env, qm, kind, ballot, bs, cand, k) matches Some(c)
            ==> commit_interval_ok(local, latest, env, qm, kind, ballot, c.0, c.1),
    decreases k,
{
    if k > 0 && k <= bs.len() {
        lemma_extended_interval_ok(local, latest, env, qm, kind, ballot, bs, cand, k - 1);
    }
}

/// The commit boundaries of `s`'s latest statements for the hint's ballot.
pub open spec fn hint_boundaries(
    s: BallotProtocolState,
    env: Map<SCPEnvelopeID, SCPEnvelope>,
    hint: StatementView,
) -> Set<u64> {
    boundaries_upto(s.latest_envelopes, env, hint_ballot_spec(hint), s.latest_envelopes.keys().len() as int)
}

/// The checks `attempt_accept_commit` makes before looking for an interval:
/// the node is preparing or confirming, the hint names a commit, in CONFIRM
/// `h` agrees with the hint, and some latest statement gives a boundary.
pub open spec fn accept_commit_gate(
    s: BallotProtocolState,
    env: Map<SCPEnvelopeID, SCPEnvelope>,
    hint: StatementView,
) -> bool {
    &&& (s.phase == SCPPhase::PhasePrepare || s.phase == SCPPhase::PhaseConfirm)
    &&& !(hint matches StatementView::Prepare(st) && st.num_commit == 0)
    &&& (s.phase == SCPPhase::PhaseConfirm ==> (s.high_ballot matches Some(h) && compatible_spec(
        h,
        hint_ballot_spec(hint),
    )))
    &&& hint_boundaries(s, env, hint) != Set::<u64>::empty()
}

/// Whether `attempt_accept_commit` accepts commit for the hint: the node is
/// preparing or confirming, the hint names a commit, in CONFIRM the hint
/// agrees with `h`, some boundary passes federated acceptance, and the
/// highest such boundary `m` is a counter that is new (in CONFIRM, above `h`).
pub open spec fn accept_commit_spec(
    local: LocalNodeInfo,
    s: BallotProtocolState,
    env: Map<SCPEnvelopeID, SCPEnvelope>,
    qm: QuorumManager,
    hint: StatementView,
) -> bool {
    let v = hint_ballot_spec(hint);
    let bset = hint_boundaries(s, env, hint);
    let m = highest_commit_boundary(local, s.latest_envelopes, env, qm, CommitCheck::Accept, v, bset);
    &&& (s.phase == SCPPhase::PhasePrepare || s.phase == SCPPhase::PhaseConfirm)
    &&& !(hint matches StatementView::Prepare(st) && st.num_commit == 0)
    &&& (s.phase == SCPPhase::PhaseConfirm ==> (s.high_ballot matches Some(h) && compatible_spec(h, v)))
    &&& exists|b: u64|
        #[trigger] commit_boundary_ok(local, s.latest_envelopes, env, qm, CommitCheck::Accept, v, bset, b)
    &&& m != 0
    &&& (s.phase == SCPPhase::PhasePrepare || (s.high_ballot matches Some(h) && m > h.counter))
}

/// Whether `attempt_confirm_commit` confirms commit for the hint: the node
/// is confirming with `h` and `c` set, the hint is a CONFIRM or EXTERNALIZE
/// statement whose value agrees with `c`, and some boundary passes federated
/// ratification, the highest such boundary being a counter.
pub open spec fn confirm_commit_spec(
    local: LocalNodeInfo,
    s: BallotProtocolState,
    env: Map<SCPEnvelopeID, SCPEnvelope>,
    qm: QuorumManager,
    hint: StatementView,
) -> bool {
    let v = hint_ballot_spec(hint);
    let bset = hint_boundaries(s, env, hint);
    &&& s.phase == SCPPhase::PhaseConfirm
    &&& s.high_ballot is Some
    &&& (s.commit matches Some(c) && compatible_spec(c, v))
    &&& (hint is Confirm || hint is Externalize)
    &&& exists|b: u64|
        #[trigger] commit_boundary_ok(local, s.latest_envelopes, env, qm, CommitCheck::Ratify, v, bset, b)
    &&& highest_commit_boundary(local, s.latest_envelopes, env, qm, CommitCheck::Ratify, v, bset) != 0
}

impl SlotDriver {
    /// Steps 4, 5 and 8 of the protocol: accepts commit of the hint's value
    /// over the widest interval of boundaries that federated voting accepts.
    #[verifier::rlimit(60)]
    pub fn attempt_accept_commit<H: HerderDriver>(
        &mut self,
        state: &mut BallotProtocolState,
        nomination_state: &mut NominationProtocolState,
        hint: &SCPStatement,
        envs_to_emit: &mut VecDeque<SCPEnvelopeID>,
        env_map: &mut EnvMap,
        quorum_manager: &QuorumManager,
        herder_driver: &mut H,
    ) -> (r: bool)
        requires
            old(state).latest_envelopes.wf(),
            is_ballot_statement(hint@),
        ensures
            ballot_frame(*old(state), *final(state), old(env_map).0@, final(env_map).0@),
            latest_kept_except(*old(state), *final(state), old(self).local_node.node_id@, old(self).local_node.node_id@),
            nomination_frame(*old(nomination_state), *final(nomination_state)),
            driver_frame(*old(self), *final(self)),
            old(state).phase == SCPPhase::PhaseExternalize ==> !r && *final(state) == *old(state)
                && *final(env_map) == *old(env_map),
            r == accept_commit_spec(old(self).local_node, *old(state), old(env_map).0@, *quorum_manager, hint@),
            !r ==> *final(state) == (BallotProtocolState { value_override: final(state).value_override, ..*old(state) })
                && *final(env_map) == *old(env_map) && *final(nomination_state) == *old(nomination_state)
                && final(envs_to_emit)@ == old(envs_to_emit)@ && *final(self) == *old(self),
            !accept_commit_gate(*old(state), old(env_map).0@, hint@) ==> !r && *final(state) == *old(state)
                && *final(env_map) == *old(env_map) && *final(nomination_state) == *old(nomination_state)
                && final(envs_to_emit)@ == old(envs_to_emit)@ && *final(self) == *old(self),
            r ==> phase_rank(final(state).phase) >= phase_rank(SCPPhase::PhaseConfirm),
            r ==> ({
                let m = highest_commit_boundary(
                    old(self).local_node,
                    old(state).latest_envelopes,
                    old(env_map).0@,
                    *quorum_manager,
                    CommitCheck::Accept,
                    hint_ballot_spec(hint@),
                    hint_boundaries(*old(state), old(env_map).0@, hint@),
                );
                let c = SCPBallot { counter: m as u32, value: hint_ballot_spec(hint@).value };
                emit_records(old(self).local_node, accept_commit_state(*old(state), c, c), old(env_map).0@, *quorum_manager)
                    ==> final(state).latest_envelopes.contains_key(old(self).local_node.node_id@)
            }),
            r && final(state).last_envelope != old(state).last_envelope ==> ({
                let m = highest_commit_boundary(
                    old(self).local_node,
                    old(state).latest_envelopes,
                    old(env_map).0@,
                    *quorum_manager,
                    CommitCheck::Accept,
                    hint_ballot_spec(hint@),
                    hint_boundaries(*old(state), old(env_map).0@, hint@),
                );
                let c = SCPBallot { counter: m as u32, value: hint_ballot_spec(hint@).value };
                final(state).last_envelope matches Some(e) && e.statement@ == create_statement_spec(
                    accept_commit_state(*old(state), c, c),
                    crate::crypto::blake2b_digest(crate::crypto::enc_qset(old(self).local_node.quorum_set@)),
                ) && (e.statement@ matches StatementView::Confirm(st) && st.num_commit == m
                    && st.num_high == m)
            }),
            r ==> exists|lo: u32, hi: u32|
                lo != 0 && #[trigger] commit_interval_ok(
                    old(self).local_node,
                    old(state).latest_envelopes,
                    old(env_map).0@,
                    *quorum_manager,
                    CommitCheck::Accept,
                    hint_ballot_spec(hint@),
                    lo,
                    hi,
                ),
        decreases level_fuel(old(state).message_level), 5nat,
    {
        if state.phase != SCPPhase::PhasePrepare && state.phase != SCPPhase::PhaseConfirm {
            return false;
        }
        let ballot = match hint {
            SCPStatement::Prepare(st) => {
                if st.num_commit != 0 {
                    st.to_ballot()
                } else {
                    return false;
                }
            },
            SCPStatement::Confirm(st) => st.to_ballot(),
            SCPStatement::Externalize(st) => st.to_ballot(),
            SCPStatement::Nominate(_) => {
                return false;
            },
        };
        if state.phase == SCPPhase::PhaseConfirm {
            let compatible_high = match &state.high_ballot {
                Some(h) => h.compatible(&ballot),
                None => false,
            };
            if !compatible_high {
                return false;
            }
        }
        let boundaries = state.get_commit_boundaries_from_statements(&ballot, env_map);
        if boundaries.is_empty() {
            return false;
        }
        proof {
            lemma_boundary_seq_bounded(boundaries, state.latest_envelopes, env_map.0@, ballot);
        }
        let mut candidate: (u32, u32) = (0, 0);
        let _found = self.find_extended_interval(
            &boundaries,
            &mut candidate,
            CommitCheck::Accept,
            &ballot,
            &state.latest_envelopes,
            env_map,
            quorum_manager,
        );
        proof {
            boundaries.lemma_wf_increasing();
            assert forall|x: u64| #[trigger] boundaries@.contains(x) <==> boundaries.seq().contains(x) by {
                boundaries.lemma_seq_contains(x);
            }
            lemma_commit_choice(
                self.local_node,
                state.latest_envelopes,
                env_map.0@,
                *quorum_manager,
                CommitCheck::Accept,
                ballot,
                boundaries.seq(),
                boundaries@,
            );
        }
        if candidate.0 == 0 {
            return false;
        }
        proof {
            lemma_extended_interval_ok(
                self.local_node,
                state.latest_envelopes,
                env_map.0@,
                *quorum_manager,
                CommitCheck::Accept,
                ballot,
                boundaries.seq(),
                (0, 0),
                boundaries.seq().len() as int,
            );
            assert(commit_interval_ok(
                self.local_node,
                state.latest_envelopes,
                env_map.0@,
                *quorum_manager,
                CommitCheck::Accept,
                hint_ballot_spec(hint@),
                candidate.0,
                candidate.1,
            ));
        }
        let raises_high = match &state.high_ballot {
            Some(h) => candidate.1 > h.counter,
            None => false,
        };
        if state.phase != SCPPhase::PhaseConfirm || raises_high {
            let commit_ballot = SCPBallot { counter: candidate.0, value: ballot.value };
            let high_ballot = SCPBallot { counter: candidate.1, value: ballot.value };
            self.set_accept_commit(
                state,
                nomination_state,
                &commit_ballot,
                &high_ballot,
                env_map,
                envs_to_emit,
                quorum_manager,
                herder_driver,
            )
        } else {
            false
        }
    }

    /// Records commit as accepted over `[commit, high]`, moves to CONFIRM and
    /// emits the new state.
    pub fn set_accept_commit<H: HerderDriver>(
        &mut self,
        state: &mut BallotProtocolState,
        nomination_state: &mut NominationProtocolState,
        commit: &SCPBallot,
        high: &SCPBallot,
        env_map: &mut EnvMap,
        envs_to_emit: &mut VecDeque<SCPEnvelopeID>,
        quorum_manager: &QuorumManager,
        herder_driver: &mut H,
    ) -> (did_work: bool)
        requires
            old(state).latest_envelopes.wf(),
            old(state).phase != SCPPhase::PhaseExternalize,
        ensures
            ballot_frame(*old(state), *final(state), old(env_map).0@, final(env_map).0@),
            latest_kept_except(*old(state), *final(state), old(self).local_node.node_id@, old(self).local_node.node_id@),
            nomination_frame(*old(nomination_state), *final(nomination_state)),
            driver_frame(*old(self), *final(self)),
            did_work == (old(state).high_ballot != Some(*high) || old(state).commit != Some(*commit)
                || old(state).phase == SCPPhase::PhasePrepare),
            phase_rank(final(state).phase) >= phase_rank(SCPPhase::PhaseConfirm),
            did_work && emit_records(
                old(self).local_node,
                accept_commit_state(*old(state), *commit, *high),
                old(env_map).0@,
                *quorum_manager,
            ) ==> final(state).latest_envelopes.contains_key(old(self).local_node.node_id@),
            !did_work ==> *final(state) == accept_commit_state(*old(state), *commit, *high)
                && *final(state) == (BallotProtocolState { value_override: Some(high.value), ..*old(state) })
                && *final(env_map) == *old(env_map) && *final(nomination_state) == *old(nomination_state)
                && final(envs_to_emit)@ == old(envs_to_emit)@ && *final(self) == *old(self),
            final(state).last_envelope != old(state).last_envelope ==> (
            final(state).last_envelope matches Some(e) && e.statement@ == create_statement_spec(
                accept_commit_state(*old(state), *commit, *high),
                crate::crypto::blake2b_digest(crate::crypto::enc_qset(old(self).local_node.quorum_set@)),
            ) && (e.statement@ matches StatementView::Confirm(st)
                && st.num_commit == commit.counter && st.num_high == high.counter)),
        decreases level_fuel(old(state).message_level), 4nat,
    {
        let did_work = state.accept_commit(commit, high);
        if did_work {
            self.emit_current_state_statement(
                state,
                nomination_state,
                env_map,
                envs_to_emit,
                quorum_manager,
                herder_driver,
            );
        }
        did_work
    }

    /// Steps 6 and 7: confirms commit of the hint's value over the widest
    /// interval that a quorum accepts, which externalizes it.
    #[verifier::rlimit(60)]
    pub fn attempt_confirm_commit<H: HerderDriver>(
        &mut self,
        state: &mut BallotProtocolState,
        nomination_state: &mut NominationProtocolState,
        hint: &SCPStatement,
        env_map: &mut EnvMap,
        envs_to_emit: &mut VecDeque<SCPEnvelopeID>,
        quorum_manager: &QuorumManager,
        herder_driver: &mut H,
    ) -> (r: bool)
        requires
            old(state).latest_envelopes.wf(),
            is_ballot_statement(hint@),
        ensures
            ballot_frame(*old(state), *final(state), old(env_map).0@, final(env_map).0@),
            latest_kept_except(*old(state), *final(state), old(self).local_node.node_id@, old(self).local_node.node_id@),
            nomination_frame(*old(nomination_state), *final(nomination_state)),
            driver_frame(*old(self), *final(self)),
            old(state).phase != SCPPhase::PhaseConfirm ==> !r && *final(state) == *old(state)
                && *final(env_map) == *old(env_map),
            r ==> final(state).phase == SCPPhase::PhaseExternalize,
            r == confirm_commit_spec(old(self).local_node, *old(state), old(env_map).0@, *quorum_manager, hint@),
            !r ==> *final(state) == *old(state) && *final(env_map) == *old(env_map)
                && *final(nomination_state) == *old(nomination_state)
                && final(envs_to_emit)@ == old(envs_to_emit)@ && *final(self) == *old(self),
            r ==> !final(nomination_state).nomination_started,
            r ==> ({
                let m = highest_commit_boundary(
                    old(self).local_node,
                    old(state).latest_envelopes,
                    old(env_map).0@,
                    *quorum_manager,
                    CommitCheck::Ratify,
                    hint_ballot_spec(hint@),
                    hint_boundaries(*old(state), old(env_map).0@, hint@),
                );
                let c = SCPBallot { counter: m as u32, value: hint_ballot_spec(hint@).value };
                final(state).commit == Some(c) && final(state).high_ballot == Some(c)
            }),
            r ==> exists|lo: u32, hi: u32|
                lo != 0 && #[trigger] commit_interval_ok(
                    old(self).local_node,
                    old(state).latest_envelopes,
                    old(env_map).0@,
                    *quorum_manager,
                    CommitCheck::Ratify,
                    hint_ballot_spec(hint@),
                    lo,
                    hi,
                ),
        decreases level_fuel(old(state).message_level), 5nat,
    {
        if state.phase != SCPPhase::PhaseConfirm {
            return false;
        }
        if state.high_ballot.is_none() || state.commit.is_none() {
            return false;
        }
        let ballot = match hint {
            SCPStatement::Confirm(st) => st.to_ballot(),
            SCPStatement::Externalize(st) => st.to_ballot(),
            _ => {
                return false;
            },
        };
        let compatible_commit = match &state.commit {
            Some(c) => c.compatible(&ballot),
            None => false,
        };
        if !compatible_commit {
            return false;
        }
        let boundaries = state.get_commit_boundaries_from_statements(&ballot, env_map);
        proof {
            lemma_boundary_seq_bounded(boundaries, state.latest_envelopes, env_map.0@, ballot);
        }
        let mut candidate: (u32, u32) = (0, 0);
        let _found = self.find_extended_interval(
            &boundaries,
            &mut candidate,
            CommitCheck::Ratify,
            &ballot,
            &state.latest_envelopes,
            env_map,
            quorum_manager,
        );
        proof {
            boundaries.lemma_wf_increasing();
            assert forall|x: u64| #[trigger] boundaries@.contains(x) <==> boundaries.seq().contains(x) by {
                boundaries.lemma_seq_contains(x);
            }
            lemma_commit_choice(
                self.local_node,
                state.latest_envelopes,
                env_map.0@,
                *quorum_manager,
                CommitCheck::Ratify,
                ballot,
                boundaries.seq(),
                boundaries@,
            );
        }
        if candidate.0 != 0 {
            proof {
                lemma_extended_interval_ok(
                    self.local_node,
                    state.latest_envelopes,
                    env_map.0@,
                    *quorum_manager,
                    CommitCheck::Ratify,
                    ballot,
                    boundaries.seq(),
                    (0, 0),
                    boundaries.seq().len() as int,
                );
                assert(commit_interval_ok(
                    self.local_node,
                    state.latest_envelopes,
                    env_map.0@,
                    *quorum_manager,
                    CommitCheck::Ratify,
                    hint_ballot_spec(hint@),
                    candidate.0,
                    candidate.1,
                ));
            }
            let commit_ballot = SCPBallot { counter: candidate.0, value: ballot.value };
            let high_ballot = SCPBallot { counter: candidate.1, value: ballot.value };
            self.set_confirm_commit(
                state,
                nomination_state,
                &commit_ballot,
                &high_ballot,
                env_map,
                envs_to_emit,
                quorum_manager,
                herder_driver,
            )
        } else {
            false
        }
    }

    /// Externalizes: records `[low, high]` as the confirmed commit interval,
    /// moves to EXTERNALIZE, emits the new state and stops nomination.
    pub fn set_confirm_commit<H: HerderDriver>(
        &mut self,
        state: &mut BallotProtocolState,
        nomination_state: &mut NominationProtocolState,
        low: &SCPBallot,
        high: &SCPBallot,
        env_map: &mut EnvMap,
        envs_to_emit: &mut VecDeque<SCPEnvelopeID>,
        quorum_manager: &QuorumManager,
        herder_driver: &mut H,
    ) -> (r: bool)
        requires
            old(state).latest_envelopes.wf(),
            old(state).phase != SCPPhase::PhaseExternalize,
        ensures
            r,
            ballot_frame(*old(state), *final(state), old(env_map).0@, final(env_map).0@),
            latest_kept_except(*old(state), *final(state), old(self).local_node.node_id@, old(self).local_node.node_id@),
            nomination_frame(*old(nomination_state), *final(nomination_state)),
            !final(nomination_state).nomination_started,
            driver_frame(*old(self), *final(self)),
            final(state).phase == SCPPhase::PhaseExternalize,
            final(state).commit == Some(*low),
            final(state).high_ballot == Some(*high),
        decreases level_fuel(old(state).message_level), 4nat,
    {
        state.commit = Some(*low);
        state.high_ballot = Some(*high);
        let _ = state.update_current_if_needed(high);
        state.phase = SCPPhase::PhaseExternalize;
        self.emit_current_state_statement(
            state,
            nomination_state,
            env_map,
            envs_to_emit,
            quorum_manager,
            herder_driver,
        );
        self.stop_nomination(nomination_state);
        true
    }
}

} // verus!

verus! {

/// The ballot counters above `lc` of the latest statements of the first `n`
/// nodes of `m`.
pub open spec fn counters_above_upto(
    m: NodeMap,
    env: Map<SCPEnvelopeID, SCPEnvelope>,
    lc: u32,
    n: int,
) -> Set<u64>
    decreases n,
{
    if n <= 0 {
        Set::empty()
    } else {
        counters_above_upto(m, env, lc, n - 1) + match node_statement(m, env, n - 1) {
            Some(s) => if crate::scp::statement::ballot_counter_spec(s) > lc {
                set![crate::scp::statement::ballot_counter_spec(s) as u64]
            } else {
                Set::empty()
            },
            None => Set::empty(),
        }
    }
}

/// The ballot carried by the last envelope made, for a PREPARE or CONFIRM.
pub open spec fn emitted_ballot(e: Option<SCPEnvelope>) -> Option<SCPBallot> {
    match e {
        Some(env) => match env.statement@ {
            StatementView::Prepare(st) => Some(st.ballot),
            StatementView::Confirm(st) => Some(st.ballot),
            _ => None,
        },
        None => None,
    }
}

/// The ballot to move to when abandoning for counter `n` with candidate `v`.
pub open spec fn abandon_ballot_target(s: BallotProtocolState, v: u64, n: u32) -> SCPBallot {
    SCPBallot {
        counter: if n == 0 {
            match s.current_ballot {
                Some(c) => c.counter,
                None => 1,
            }
        } else {
            n
        },
        value: match s.value_override {
            Some(o) => o,
            None => v,
        },
    }
}

/// What moving to the ballot `nb` does: the slot keeps its frames; it moves
/// (`updated`) exactly when `update_current_value` allows it; otherwise
/// nothing changes; when it moves, `b` is set and the statement it sends is
/// that of the state with `b` moved to `nb`.
pub open spec fn bump_effect(
    od: SlotDriver,
    nd: SlotDriver,
    os: BallotProtocolState,
    ns: BallotProtocolState,
    oe: Map<SCPEnvelopeID, SCPEnvelope>,
    ne: Map<SCPEnvelopeID, SCPEnvelope>,
    on: NominationProtocolState,
    nn: NominationProtocolState,
    oq: Seq<SCPEnvelopeID>,
    nq: Seq<SCPEnvelopeID>,
    nb: SCPBallot,
    updated: bool,
) -> bool {
    &&& ballot_frame(os, ns, oe, ne)
    &&& latest_kept_except(os, ns, od.local_node.node_id@, od.local_node.node_id@)
    &&& nomination_frame(on, nn)
    &&& driver_frame(od, nd)
    &&& updated == update_current_value_spec(os, nb)
    &&& !updated ==> ns == os && ne == oe && nn == on && nq == oq && nd == od
    &&& updated ==> ns.current_ballot is Some
    &&& updated && ns.last_envelope != os.last_envelope ==> (ns.last_envelope matches Some(e)
        && e.statement@ == create_statement_spec(
        bump_to_ballot_spec(os, nb),
        crate::crypto::blake2b_digest(crate::crypto::enc_qset(od.local_node.quorum_set@)),
    ))
}

/// What `abandon_ballot(n)` does: without a composite candidate, nothing;
/// with candidate `v`, what moving to `abandon_ballot_target(os, v, n)` does.
pub open spec fn abandon_effect(
    od: SlotDriver,
    nd: SlotDriver,
    os: BallotProtocolState,
    ns: BallotProtocolState,
    oe: Map<SCPEnvelopeID, SCPEnvelope>,
    ne: Map<SCPEnvelopeID, SCPEnvelope>,
    on: NominationProtocolState,
    nn: NominationProtocolState,
    oq: Seq<SCPEnvelopeID>,
    nq: Seq<SCPEnvelopeID>,
    n: u32,
    r: bool,
) -> bool {
    match on.latest_composite_candidate {
        None => !r && ns == os && ne == oe && nn == on && nq == oq && nd == od,
        Some(v) => bump_effect(od, nd, os, ns, oe, ne, on, nn, oq, nq, abandon_ballot_target(os, v, n), r),
    }
}

/// Whether abandoning the ballot for counter `n` (0: the current counter,
/// or 1 without a ballot) with the composite candidate changes the ballot:
/// there is a candidate and the new ballot, with the overriding value if
/// there is one, may replace the current one.
pub open spec fn abandon_ballot_spec(s: BallotProtocolState, composite: Option<u64>, n: u32) -> bool {
    match composite {
        None => false,
        Some(v) => update_current_value_spec(s, abandon_ballot_target(s, v, n)),
    }
}

/// The current ballot's counter, 0 without one.
pub open spec fn local_counter_spec(s: BallotProtocolState) -> u32 {
    match s.current_ballot {
        Some(b) => b.counter,
        None => 0,
    }
}

/// Whether the nodes whose latest ballot counter is above `c` form a
/// v-blocking set for the local node.
pub open spec fn ahead_is_v_blocking(
    local: LocalNodeInfo,
    latest: NodeMap,
    env: Map<SCPEnvelopeID, SCPEnvelope>,
    c: u32,
) -> bool {
    is_v_blocking_spec(
        local.quorum_set@,
        selected_nodes(latest, env, StatementFilter::CounterAbove(c), latest.keys().len() as int),
    )
}

/// A counter that some node's latest statement is at, above the local
/// counter, beyond which the nodes are no longer v-blocking.
pub open spec fn bump_target_ok(
    local: LocalNodeInfo,
    s: BallotProtocolState,
    env: Map<SCPEnvelopeID, SCPEnvelope>,
    c: u64,
) -> bool {
    &&& counters_above_upto(
        s.latest_envelopes,
        env,
        local_counter_spec(s),
        s.latest_envelopes.keys().len() as int,
    ).contains(c)
    &&& c <= u32::MAX
    &&& !ahead_is_v_blocking(local, s.latest_envelopes, env, c as u32)
}

/// The least such counter, when there is one.
pub open spec fn bump_target(
    local: LocalNodeInfo,
    s: BallotProtocolState,
    env: Map<SCPEnvelopeID, SCPEnvelope>,
) -> u64 {
    choose|c: u64|
        #[trigger] bump_target_ok(local, s, env, c) && forall|d: u64|
            #[trigger] bump_target_ok(local, s, env, d) ==> c <= d
}

/// Whether `attempt_bump` abandons the ballot at all: the node is preparing
/// or confirming, the nodes ahead of it are v-blocking, and there is a
/// counter beyond which they no longer are.
pub open spec fn bump_gate(local: LocalNodeInfo, s: BallotProtocolState, env: Map<SCPEnvelopeID, SCPEnvelope>) -> bool {
    &&& (s.phase == SCPPhase::PhasePrepare || s.phase == SCPPhase::PhaseConfirm)
    &&& ahead_is_v_blocking(local, s.latest_envelopes, env, local_counter_spec(s))
    &&& exists|c: u64| #[trigger] bump_target_ok(local, s, env, c)
}

/// Whether `attempt_bump` moves to a higher ballot: the node is preparing or
/// confirming, the nodes ahead of it are v-blocking, there is a counter
/// beyond which they no longer are, and abandoning the ballot for the least
/// such counter, with the latest composite candidate, changes the ballot.
pub open spec fn attempt_bump_spec(
    local: LocalNodeInfo,
    s: BallotProtocolState,
    env: Map<SCPEnvelopeID, SCPEnvelope>,
    composite: Option<u64>,
) -> bool {
    &&& (s.phase == SCPPhase::PhasePrepare || s.phase == SCPPhase::PhaseConfirm)
    &&& ahead_is_v_blocking(local, s.latest_envelopes, env, local_counter_spec(s))
    &&& exists|c: u64| #[trigger] bump_target_ok(local, s, env, c)
    &&& match composite {
        None => false,
        Some(v) => update_current_value_spec(
            s,
            SCPBallot {
                counter: bump_target(local, s, env) as u32,
                value: match s.value_override {
                    Some(o) => o,
                    None => v,
                },
            },
        ),
    }
}

/// When emitting the statement of `s` is sure to record it as the local
/// node's latest: `b` is set, the invariants hold, no stored latest envelope
/// is from the local node, and the statement is sane with a known quorum set.
pub open spec fn emit_records(
    local: LocalNodeInfo,
    s: BallotProtocolState,
    env: Map<SCPEnvelopeID, SCPEnvelope>,
    qm: QuorumManager,
) -> bool {
    let st = create_statement_spec(
        s,
        crate::crypto::blake2b_digest(crate::crypto::enc_qset(local.quorum_set@)),
    );
    &&& s.current_ballot is Some
    &&& ballot_invariants(s)
    &&& forall|i: int|
        0 <= i < s.latest_envelopes.vals().len() && #[trigger] env.contains_key(
            s.latest_envelopes.vals()[i],
        ) ==> env[s.latest_envelopes.vals()[i]].node_id@ != local.node_id@
    &&& qm.quorum_set_of(st) is Some
    &&& statement_sane_spec(st, true)
}

impl SlotDriver {
    /// Makes the statement of the current ballot state, takes it into account
    /// as this node's own envelope unless it repeats or is older than the last
    /// one, and sends it.
    pub fn emit_current_state_statement<H: HerderDriver>(
        &mut self,
        state: &mut BallotProtocolState,
        nomination_state: &mut NominationProtocolState,
        env_map: &mut EnvMap,
        envs_to_emit: &mut VecDeque<SCPEnvelopeID>,
        quorum_manager: &QuorumManager,
        herder_driver: &mut H,
    )
        requires
            old(state).latest_envelopes.wf(),
        ensures
            ballot_frame(*old(state), *final(state), old(env_map).0@, final(env_map).0@),
            latest_kept_except(*old(state), *final(state), old(self).local_node.node_id@, old(self).local_node.node_id@),
            nomination_frame(*old(nomination_state), *final(nomination_state)),
            driver_frame(*old(self), *final(self)),
            old(state).current_ballot is None ==> *final(state) == *old(state) && *final(env_map)
                == *old(env_map),
            final(state).last_envelope != old(state).last_envelope ==> {
                &&& ballot_invariants(*old(state))
                &&& final(state).last_envelope matches Some(e) && e.statement@
                    == create_statement_spec(
                    *old(state),
                    crate::crypto::blake2b_digest(
                        crate::crypto::enc_qset(old(self).local_node.quorum_set@),
                    ),
                ) && e.node_id == old(self).local_node.node_id && e.slot_index == old(
                    self,
                ).slot_index
            },
            emit_records(old(self).local_node, *old(state), old(env_map).0@, *quorum_manager)
                ==> final(state).latest_envelopes.contains_key(old(self).local_node.node_id@),
            final(state).last_envelope != old(state).last_envelope && old(state).current_message_level == 0
                && final(self).slot_state.fully_validated ==> (final(state).last_envelope matches Some(
                last) && final(state).last_envelope_emitted matches Some(e) && e@ == last@),
        decreases level_fuel(old(state).message_level), 3nat,
    {
        if state.current_ballot.is_none() {
            return;
        }
        if !state.invariants_hold() {
            return;
        }
        let statement = state.create_statement(self.local_node.quorum_set.hash_value());
        let local_node_id = self.local_node.node_id.clone();
        let envelope = SCPEnvelope::new(statement, local_node_id, self.slot_index, [0u8; 64]);
        let mut i: usize = 0;
        proof {
            state.latest_envelopes.lemma_len();
        }
        while i < state.latest_envelopes.len()
            invariant
                i <= state.latest_envelopes.keys().len(),
                state.latest_envelopes.keys().len() == state.latest_envelopes.vals().len(),
                *state == *old(state),
                *nomination_state == *old(nomination_state),
                *self == *old(self),
                old(state).current_ballot is Some,
                state.latest_envelopes.wf(),
                *env_map == *old(env_map),
                envelope.slot_index == self.slot_index,
                is_ballot_statement(envelope.statement@),
            decreases state.latest_envelopes.keys().len() - i,
        {
            let id = state.latest_envelopes.val_at(i);
            match env_map.get(&id) {
                Some(last) => {
                    if last.node_id == self.local_node.node_id {
                        if last.eq_envelope(&envelope) {
                            return;
                        }
                        if !envelope.statement.is_newer_than(&last.statement) {
                            return;
                        }
                        break;
                    }
                },
                None => {},
            }
            i = i + 1;
        }
        let env_id = env_map.add_envelope(envelope.clone());
        let ghost mid = env_map.0@;
        let res = self.process_ballot_envelope(
            state,
            nomination_state,
            &env_id,
            true,
            env_map,
            envs_to_emit,
            quorum_manager,
            herder_driver,
        );
        assert forall|k: SCPEnvelopeID| #[trigger] old(env_map).0@.contains_key(k)
            implies env_map.0@.contains_key(k) by {
            assert(mid.contains_key(k));
        }
        if res == EnvelopeState::Invalid {
            return;
        }
        state.last_envelope = Some(envelope);
        self.maybe_send_latest_envelope(state, env_map, envs_to_emit, &*herder_driver);
    }

    /// Step 9: when the nodes ahead of the local counter are v-blocking,
    /// abandons the ballot for the lowest counter at which they no longer are.
    #[verifier::rlimit(60)]
    pub fn attempt_bump<H: HerderDriver>(
        &mut self,
        state: &mut BallotProtocolState,
        nomination_state: &mut NominationProtocolState,
        env_map: &mut EnvMap,
        envs_to_emit: &mut VecDeque<SCPEnvelopeID>,
        quorum_manager: &QuorumManager,
        herder_driver: &mut H,
    ) -> (r: bool)
        requires
            old(state).latest_envelopes.wf(),
        ensures
            ballot_frame(*old(state), *final(state), old(env_map).0@, final(env_map).0@),
            latest_kept_except(*old(state), *final(state), old(self).local_node.node_id@, old(self).local_node.node_id@),
            nomination_frame(*old(nomination_state), *final(nomination_state)),
            driver_frame(*old(self), *final(self)),
            old(state).phase == SCPPhase::PhaseExternalize ==> !r && *final(state) == *old(state)
                && *final(env_map) == *old(env_map),
            r ==> is_v_blocking_spec(
                old(self).local_node.quorum_set@,
                selected_nodes(
                    old(state).latest_envelopes,
                    old(env_map).0@,
                    StatementFilter::CounterAbove(
                        match old(state).current_ballot {
                            Some(b) => b.counter,
                            None => 0,
                        },
                    ),
                    old(state).latest_envelopes.keys().len() as int,
                ),
            ),
            r == attempt_bump_spec(
                old(self).local_node,
                *old(state),
                old(env_map).0@,
                old(nomination_state).latest_composite_candidate,
            ),
            r && final(state).last_envelope != old(state).last_envelope ==> (old(
                nomination_state,
            ).latest_composite_candidate matches Some(v) && emitted_ballot(final(state).last_envelope)
                == Some(
                abandon_ballot_target(
                    *old(state),
                    v,
                    bump_target(old(self).local_node, *old(state), old(env_map).0@) as u32,
                ),
            )),
            !r ==> *final(state) == *old(state) && *final(env_map) == *old(env_map),
            !(bump_gate(old(self).local_node, *old(state), old(env_map).0@)
                && old(nomination_state).latest_composite_candidate is Some) ==> !r && *final(state) == *old(state)
                && *final(env_map) == *old(env_map) && *final(nomination_state) == *old(nomination_state)
                && final(envs_to_emit)@ == old(envs_to_emit)@ && *final(self) == *old(self),
            bump_gate(old(self).local_node, *old(state), old(env_map).0@) ==> (old(
                nomination_state,
            ).latest_composite_candidate matches Some(v) ==> bump_effect(
                *old(self),
                *final(self),
                *old(state),
                *final(state),
                old(env_map).0@,
                final(env_map).0@,
                *old(nomination_state),
                *final(nomination_state),
                old(envs_to_emit)@,
                final(envs_to_emit)@,
                abandon_ballot_target(
                    *old(state),
                    v,
                    bump_target(old(self).local_node, *old(state), old(env_map).0@) as u32,
                ),
                r,
            )),
        decreases level_fuel(old(state).message_level), 7nat,
    {
        if state.phase != SCPPhase::PhasePrepare && state.phase != SCPPhase::PhaseConfirm {
            return false;
        }
        let local_counter = match &state.current_ballot {
            Some(b) => b.counter,
            None => 0,
        };
        if !self.has_v_blocking_subset_strictly_ahead_of(
            &state.latest_envelopes,
            local_counter,
            env_map,
        ) {
            return false;
        }
        let mut all_counters = ValueSet::new();
        let mut i: usize = 0;
        proof {
            state.latest_envelopes.lemma_len();
        }
        while i < state.latest_envelopes.len()
            invariant
                i <= state.latest_envelopes.keys().len(),
                state.latest_envelopes.keys().len() == state.latest_envelopes.vals().len(),
                all_counters.wf(),
                envs_to_emit@ == old(envs_to_emit)@,
                forall|x: u64| #[trigger]
                    all_counters@.contains(x) ==> local_counter < x <= u32::MAX,
                all_counters@ == counters_above_upto(
                    state.latest_envelopes,
                    env_map.0@,
                    local_counter,
                    i as int,
                ),
            decreases state.latest_envelopes.keys().len() - i,
        {
            let id = state.latest_envelopes.val_at(i);
            match env_map.get(&id) {
                Some(env) => match &env.statement {
                    SCPStatement::Nominate(_) => {},
                    _ => {
                        let counter = env.statement.ballot_counter();
                        if counter > local_counter {
                            let _ = all_counters.insert(counter as u64);
                        }
                    },
                },
                None => {},
            }
            assert(all_counters@ =~= counters_above_upto(
                state.latest_envelopes,
                env_map.0@,
                local_counter,
                i + 1,
            ));
            i = i + 1;
        }
        let ghost total = counters_above_upto(
            state.latest_envelopes,
            env_map.0@,
            local_counter,
            state.latest_envelopes.keys().len() as int,
        );
        proof {
            all_counters.lemma_wf_increasing();
            assert forall|x: u64| #[trigger] all_counters@.contains(x) <==> all_counters.seq().contains(x) by {
                all_counters.lemma_seq_contains(x);
            }
        }
        let mut j: usize = 0;
        while j < all_counters.len()
            invariant
                *state == *old(state),
                *env_map == *old(env_map),
                *nomination_state == *old(nomination_state),
                *self == *old(self),
                envs_to_emit@ == old(envs_to_emit)@,
                state.latest_envelopes.wf(),
                old(state).phase != SCPPhase::PhaseExternalize,
                forall|x: u64| #[trigger]
                    all_counters@.contains(x) ==> local_counter < x <= u32::MAX,
                all_counters@ == total,
                total == counters_above_upto(
                    old(state).latest_envelopes,
                    old(env_map).0@,
                    local_counter,
                    old(state).latest_envelopes.keys().len() as int,
                ),
                crate::utils::value_set::strictly_increasing(all_counters.seq()),
                forall|x: u64| #[trigger] all_counters@.contains(x) <==> all_counters.seq().contains(x),
                j <= all_counters.seq().len(),
                forall|k: int|
                    0 <= k < j ==> ahead_is_v_blocking(
                        old(self).local_node,
                        old(state).latest_envelopes,
                        old(env_map).0@,
                        #[trigger] all_counters.seq()[k] as u32,
                    ),
                old(state).phase == SCPPhase::PhasePrepare || old(state).phase == SCPPhase::PhaseConfirm,
                local_counter == match old(state).current_ballot {
                    Some(b) => b.counter,
                    None => 0,
                },
                is_v_blocking_spec(
                    self.local_node.quorum_set@,
                    selected_nodes(
                        old(state).latest_envelopes,
                        old(env_map).0@,
                        StatementFilter::CounterAbove(local_counter),
                        old(state).latest_envelopes.keys().len() as int,
                    ),
                ),
            decreases all_counters.seq().len() - j,
        {
            let c64 = all_counters.at(j);
            proof {
                assert(all_counters.seq().contains(c64));
                all_counters.lemma_seq_contains(c64);
            }
            let counter = c64 as u32;
            if !self.has_v_blocking_subset_strictly_ahead_of(
                &state.latest_envelopes,
                counter,
                env_map,
            ) {
                proof {
                    let ls = *old(state);
                    let le = old(env_map).0@;
                    let ln = old(self).local_node;
                    assert(bump_target_ok(ln, ls, le, c64));
                    assert forall|d: u64| #[trigger] bump_target_ok(ln, ls, le, d) implies c64 <= d by {
                        assert(all_counters.seq().contains(d));
                        let k = choose|k: int| 0 <= k < all_counters.seq().len() && all_counters.seq()[k] == d;
                        if k < j {
                            assert(ahead_is_v_blocking(ln, ls.latest_envelopes, le, all_counters.seq()[k] as u32));
                        } else if k > j {
                            assert(all_counters.seq()[j as int] < all_counters.seq()[k]);
                        }
                    }
                    let t = bump_target(ln, ls, le);
                    assert(bump_target_ok(ln, ls, le, t) && forall|d: u64|
                        #[trigger] bump_target_ok(ln, ls, le, d) ==> t <= d);
                    assert(t == c64);
                    assert(t as u32 == counter);
                    assert(bump_gate(ln, ls, le));
                }
                return self.abandon_ballot(
                    state,
                    nomination_state,
                    counter,
                    env_map,
                    envs_to_emit,
                    quorum_manager,
                    herder_driver,
                );
            }
            j = j + 1;
        }
        proof {
            let ls = *old(state);
            let le = old(env_map).0@;
            let ln = old(self).local_node;
            assert forall|c: u64| !#[trigger] bump_target_ok(ln, ls, le, c) by {
                if bump_target_ok(ln, ls, le, c) {
                    assert(all_counters.seq().contains(c));
                    let k = choose|k: int| 0 <= k < all_counters.seq().len() && all_counters.seq()[k] == c;
                    assert(ahead_is_v_blocking(ln, ls.latest_envelopes, le, all_counters.seq()[k] as u32));
                }
            }
        }
        false
    }

    /// Abandons the current ballot for counter `n` (or the next counter when
    /// `n` is 0) with the latest composite candidate.
    pub fn abandon_ballot<H: HerderDriver>(
        &mut self,
        ballot_state: &mut BallotProtocolState,
        nomination_state: &mut NominationProtocolState,
        n: u32,
        env_map: &mut EnvMap,
        envs_to_emit: &mut VecDeque<SCPEnvelopeID>,
        quorum_manager: &QuorumManager,
        herder_driver: &mut H,
    ) -> (r: bool)
        requires
            old(ballot_state).latest_envelopes.wf(),
        ensures
            ballot_frame(*old(ballot_state), *final(ballot_state), old(env_map).0@, final(env_map).0@),
            latest_kept_except(*old(ballot_state), *final(ballot_state), old(self).local_node.node_id@, old(self).local_node.node_id@),
            nomination_frame(*old(nomination_state), *final(nomination_state)),
            driver_frame(*old(self), *final(self)),
            old(nomination_state).latest_composite_candidate is None ==> !r && *final(ballot_state)
                == *old(ballot_state) && *final(env_map) == *old(env_map),
            r == abandon_ballot_spec(
                *old(ballot_state),
                old(nomination_state).latest_composite_candidate,
                n,
            ),
            r ==> final(ballot_state).current_ballot is Some,
            !r ==> *final(ballot_state) == *old(ballot_state) && *final(env_map) == *old(env_map),
            r && final(ballot_state).last_envelope != old(ballot_state).last_envelope ==> (old(
                nomination_state,
            ).latest_composite_candidate matches Some(v) && emitted_ballot(final(ballot_state).last_envelope)
                == Some(abandon_ballot_target(*old(ballot_state), v, n))),
            old(ballot_state).phase == SCPPhase::PhaseExternalize ==> !r && *final(ballot_state)
                == *old(ballot_state),
            old(nomination_state).latest_composite_candidate is None ==> final(envs_to_emit)@ == old(
                envs_to_emit,
            )@ && *final(nomination_state) == *old(nomination_state) && *final(self) == *old(self),
            old(nomination_state).latest_composite_candidate matches Some(v) ==> bump_effect(
                *old(self),
                *final(self),
                *old(ballot_state),
                *final(ballot_state),
                old(env_map).0@,
                final(env_map).0@,
                *old(nomination_state),
                *final(nomination_state),
                old(envs_to_emit)@,
                final(envs_to_emit)@,
                abandon_ballot_target(*old(ballot_state), v, n),
                r,
            ),
            abandon_effect(
                *old(self),
                *final(self),
                *old(ballot_state),
                *final(ballot_state),
                old(env_map).0@,
                final(env_map).0@,
                *old(nomination_state),
                *final(nomination_state),
                old(envs_to_emit)@,
                final(envs_to_emit)@,
                n,
                r,
            ),
        decreases level_fuel(old(ballot_state).message_level), 6nat,
    {
        match nomination_state.latest_composite_candidate {
            Some(value) => {
                if n == 0 {
                    self.bump_state(
                        ballot_state,
                        nomination_state,
                        &value,
                        true,
                        env_map,
                        envs_to_emit,
                        quorum_manager,
                        herder_driver,
                    )
                } else {
                    self.bump_state_with_counter(
                        ballot_state,
                        nomination_state,
                        &value,
                        n,
                        env_map,
                        envs_to_emit,
                        quorum_manager,
                        herder_driver,
                    )
                }
            },
            None => false,
        }
    }

    /// Moves to a ballot with the current counter (1 when there is none, which
    /// only `force` allows) and the given value, unless a value overrides it.
    pub fn bump_state<H: HerderDriver>(
        &mut self,
        state: &mut BallotProtocolState,
        nomination_state: &mut NominationProtocolState,
        nomination_value: &u64,
        force: bool,
        env_map: &mut EnvMap,
        envs_to_emit: &mut VecDeque<SCPEnvelopeID>,
        quorum_manager: &QuorumManager,
        herder_driver: &mut H,
    ) -> (r: bool)
        requires
            old(state).latest_envelopes.wf(),
        ensures
            ballot_frame(*old(state), *final(state), old(env_map).0@, final(env_map).0@),
            latest_kept_except(*old(state), *final(state), old(self).local_node.node_id@, old(self).local_node.node_id@),
            nomination_frame(*old(nomination_state), *final(nomination_state)),
            driver_frame(*old(self), *final(self)),
            (!force && old(state).current_ballot is None) ==> !r && *final(state) == *old(state)
                && *final(env_map) == *old(env_map),
            r == ((force || old(state).current_ballot is Some) && update_current_value_spec(
                *old(state),
                SCPBallot {
                    counter: match old(state).current_ballot {
                        Some(c) => c.counter,
                        None => 1,
                    },
                    value: match old(state).value_override {
                        Some(v) => v,
                        None => *nomination_value,
                    },
                },
            )),
            old(state).phase == SCPPhase::PhaseExternalize ==> !r && *final(state) == *old(state),
            r ==> final(state).current_ballot is Some,
            !r ==> *final(state) == *old(state) && *final(env_map) == *old(env_map),
            r && final(state).last_envelope != old(state).last_envelope ==> emitted_ballot(
                final(state).last_envelope,
            ) == Some(
                SCPBallot {
                    counter: match old(state).current_ballot {
                        Some(c) => c.counter,
                        None => 1,
                    },
                    value: match old(state).value_override {
                        Some(v) => v,
                        None => *nomination_value,
                    },
                },
            ),
            (force || old(state).current_ballot is Some) ==> bump_effect(
                *old(self),
                *final(self),
                *old(state),
                *final(state),
                old(env_map).0@,
                final(env_map).0@,
                *old(nomination_state),
                *final(nomination_state),
                old(envs_to_emit)@,
                final(envs_to_emit)@,
                SCPBallot {
                    counter: match old(state).current_ballot {
                        Some(c) => c.counter,
                        None => 1,
                    },
                    value: match old(state).value_override {
                        Some(v) => v,
                        None => *nomination_value,
                    },
                },
                r,
            ),
            (!force && old(state).current_ballot is None) ==> final(envs_to_emit)@ == old(envs_to_emit)@
                && *final(nomination_state) == *old(nomination_state) && *final(self) == *old(self),
        decreases level_fuel(old(state).message_level), 5nat,
    {
        if !force && state.current_ballot.is_none() {
            false
        } else {
            let n = match &state.current_ballot {
                Some(c) => c.counter,
                None => 1,
            };
            self.bump_state_with_counter(
                state,
                nomination_state,
                nomination_value,
                n,
                env_map,
                envs_to_emit,
                quorum_manager,
                herder_driver,
            )
        }
    }

    /// Moves to the ballot `<n, x>`, where `x` is the overriding value if
    /// there is one and else `nomination_value`, when that raises the ballot;
    /// then emits the new state and checks whether a quorum is at `n`.
    pub fn bump_state_with_counter<H: HerderDriver>(
        &mut self,
        state: &mut BallotProtocolState,
        nomination_state: &mut NominationProtocolState,
        nomination_value: &u64,
        n: u32,
        env_map: &mut EnvMap,
        envs_to_emit: &mut VecDeque<SCPEnvelopeID>,
        quorum_manager: &QuorumManager,
        herder_driver: &mut H,
    ) -> (updated: bool)
        requires
            old(state).latest_envelopes.wf(),
        ensures
            bump_effect(
                *old(self),
                *final(self),
                *old(state),
                *final(state),
                old(env_map).0@,
                final(env_map).0@,
                *old(nomination_state),
                *final(nomination_state),
                old(envs_to_emit)@,
                final(envs_to_emit)@,
                SCPBallot {
                    counter: n,
                    value: match old(state).value_override {
                        Some(v) => v,
                        None => *nomination_value,
                    },
                },
                updated,
            ),
            !updated ==> *final(state) == *old(state) && *final(env_map) == *old(env_map),
            updated && final(state).last_envelope != old(state).last_envelope ==> emitted_ballot(
                final(state).last_envelope,
            ) == Some(
                SCPBallot {
                    counter: n,
                    value: match old(state).value_override {
                        Some(v) => v,
                        None => *nomination_value,
                    },
                },
            ),
        decreases level_fuel(old(state).message_level), 4nat,
    {
        if state.phase == SCPPhase::PhaseExternalize {
            return false;
        }
        let value = match state.value_override {
            Some(v) => v,
            None => *nomination_value,
        };
        let new_ballot = SCPBallot { counter: n, value };
        let updated = self.update_current_value(state, &new_ballot);
        if updated {
            self.emit_current_state_statement(
                state,
                nomination_state,
                env_map,
                envs_to_emit,
                quorum_manager,
                herder_driver,
            );
            self.check_heard_from_quorum(state, env_map, quorum_manager, &*herder_driver);
        }
        updated
    }
}

} // verus!

verus! {

/// Ballots are totally ordered: of `a < b`, `a == b` and `b < a` exactly one
/// holds.
pub proof fn law_ballot_order_total(a: SCPBallot, b: SCPBallot)
    ensures
        ballot_lt(a, b) || a == b || ballot_lt(b, a),
        !(ballot_lt(a, b) && ballot_lt(b, a)),
        !ballot_lt(a, a),
{
}

/// The ballot order is transitive.
pub proof fn law_ballot_order_transitive(a: SCPBallot, b: SCPBallot, c: SCPBallot)
    requires
        ballot_lt(a, b),
        ballot_lt(b, c),
    ensures
        ballot_lt(a, c),
{
}

/// Compatibility (carrying the same value) is an equivalence.
pub proof fn law_compatible_equivalence(a: SCPBallot, b: SCPBallot, c: SCPBallot)
    ensures
        compatible_spec(a, a),
        compatible_spec(a, b) == compatible_spec(b, a),
        compatible_spec(a, b) && compatible_spec(b, c) ==> compatible_spec(a, c),
{
}

/// `≲` (below and compatible) orders ballots partially, and no ballot is
/// both `≲` and `⋦` another.
pub proof fn law_less_and_compatible_order(a: SCPBallot, b: SCPBallot, c: SCPBallot)
    ensures
        less_and_compatible_spec(a, a),
        less_and_compatible_spec(a, b) && less_and_compatible_spec(b, c)
            ==> less_and_compatible_spec(a, c),
        less_and_compatible_spec(a, b) && less_and_compatible_spec(b, a) ==> a == b,
        !(less_and_compatible_spec(a, b) && less_and_incompatible_spec(a, b)),
{
}

/// A ballot below and incompatible with one ballot is below and incompatible
/// with every compatible ballot above it (how `p'` stays below `p`).
pub proof fn law_less_and_incompatible_upward(a: SCPBallot, b: SCPBallot, c: SCPBallot)
    requires
        less_and_incompatible_spec(a, b),
        less_and_compatible_spec(b, c),
    ensures
        less_and_incompatible_spec(a, c),
{
}

/// Accepting the same ballot as prepared a second time is no work: once
/// `ballot` is recorded in `p` or `p'`, recording it again changes nothing.
pub proof fn law_accept_prepared_idempotent(s: BallotProtocolState, ballot: SCPBallot)
    requires
        accept_prepared_work_spec(s, ballot),
    ensures
        !accept_prepared_work_spec(accept_prepared_state(s, ballot), ballot),
{
}

/// Accepting `b` as prepared keeps the highest prepared ballot in `p` and,
/// below it, a prepared ballot with another value in `p'`: `p` becomes the
/// higher of `p` and `b`; when `b` stays below `p` with another value, `p'`
/// becomes `b` unless it already holds a ballot at least as high (so a lower
/// ballot with another value is never lost while `p'` is unset); and the call
/// reports work exactly when `p` or `p'` changed.
pub proof fn law_set_prepared_keeps_highest(p: Option<SCPBallot>, pp: Option<SCPBallot>, b: SCPBallot)
    ensures
        ({
            let (np, npp, w) = set_prepared_spec(p, pp, b);
            &&& np == Some(
                match p {
                    Some(q) => if ballot_lt(q, b) {
                        b
                    } else {
                        q
                    },
                    None => b,
                },
            )
            &&& (p matches Some(q) && ballot_lt(b, q) && !compatible_spec(q, b)) ==> (npp matches Some(
                r,
            ) && ballot_le(b, r) && (pp matches Some(o) ==> ballot_le(o, r)))
            &&& (p matches Some(q) && ballot_lt(b, q) && !compatible_spec(q, b) && pp is None)
                ==> npp == Some(b)
            &&& (p matches Some(q) && ballot_lt(q, b) && !compatible_spec(q, b)) ==> npp == p
            &&& (p matches Some(q) && ballot_lt(q, b) && compatible_spec(q, b)) ==> npp == pp
            &&& w == (np != p || npp != pp)
        }),
{
}

/// Accepting commit over `[c, h]` records `c` and `h`, makes `h`'s value the
/// overriding one and keeps `p`; a node still preparing moves to CONFIRM,
/// forgets `p'` and ends with a ballot no lower than `h`; a node past
/// PREPARE keeps its phase and `p'`.
pub proof fn law_accept_commit_records(s: BallotProtocolState, c: SCPBallot, h: SCPBallot)
    ensures
        ({
            let t = accept_commit_state(s, c, h);
            &&& t.commit == Some(c)
            &&& t.high_ballot == Some(h)
            &&& t.value_override == Some(h.value)
            &&& t.prepared == s.prepared
            &&& t.latest_envelopes == s.latest_envelopes
            &&& s.phase == SCPPhase::PhasePrepare ==> t.phase == SCPPhase::PhaseConfirm
                && t.prepared_prime is None && t.current_ballot is Some && !ballot_lt(
                t.current_ballot->0,
                h,
            )
            &&& s.phase != SCPPhase::PhasePrepare ==> t.phase == s.phase && t.prepared_prime
                == s.prepared_prime
        }),
{
}

/// Accepting `b` as prepared moves `p` and `p'` as `set_prepared` does,
/// keeps the ballot, `h` and the phase, and drops `c` exactly when `c` is set
/// and `h` lies below the new `p` or `p'` with another value.
pub proof fn law_accept_prepared_records(s: BallotProtocolState, b: SCPBallot)
    ensures
        ({
            let t = accept_prepared_state(s, b);
            let (np, npp, w) = set_prepared_spec(s.prepared, s.prepared_prime, b);
            let h_below = s.high_ballot is Some && ((np is Some && ballot_le(
                s.high_ballot->0,
                np->0,
            ) && (s.high_ballot->0).value != (np->0).value) || (npp is Some && ballot_le(
                s.high_ballot->0,
                npp->0,
            ) && (s.high_ballot->0).value != (npp->0).value));
            &&& t.prepared == np
            &&& t.prepared_prime == npp
            &&& (s.commit is Some && h_below) ==> t.commit is None
            &&& !(s.commit is Some && h_below) ==> t.commit == s.commit
            &&& t.current_ballot == s.current_ballot
            &&& t.high_ballot == s.high_ballot
            &&& t.phase == s.phase
        }),
{
}

/// Confirming `[nc, nh]` as prepared makes `nh`'s value the overriding one and
/// keeps `p`, `p'` and the phase. With the ballot absent or of `nh`'s value, a
/// non-zero `nc` becomes `c` (and `h` when none was set), and a set `h` becomes
/// `nh` unless `nc` is above it; when nothing was recorded and the ballot is
/// not above `nh`, the ballot moves to `nh`.
pub proof fn law_confirm_prepared_records(s: BallotProtocolState, nc: SCPBallot, nh: SCPBallot)
    ensures
        ({
            let t = confirm_prepared_state(s, nc, nh);
            let compat = s.current_ballot is None || (s.current_ballot->0).value == nh.value;
            &&& t.value_override == Some(nh.value)
            &&& t.prepared == s.prepared
            &&& t.prepared_prime == s.prepared_prime
            &&& t.phase == s.phase
            &&& (compat && nc.counter != 0) ==> t.commit == Some(nc)
            &&& (compat && nc.counter != 0 && s.high_ballot is None) ==> t.high_ballot == Some(nc)
            &&& (compat && s.high_ballot is Some && (nc.counter == 0 || (ballot_le(nc, nh) && nc.value
                == nh.value))) ==> t.high_ballot == Some(nh)
            &&& (compat && (s.high_ballot is Some || nc.counter != 0)) ==> t.current_ballot
                == s.current_ballot
            &&& (!(compat && (s.high_ballot is Some || nc.counter != 0)) && !(s.current_ballot is Some
                && ballot_lt(nh, s.current_ballot->0))) ==> t.current_ballot == Some(nh)
            &&& (!compat && s.current_ballot is Some && ballot_lt(nh, s.current_ballot->0)) ==> t
                == (BallotProtocolState { value_override: Some(nh.value), ..s })
        }),
{
}

/// The interval that the search for commit settles on passes the check and
/// starts at one of the boundaries searched: from no candidate, a single
/// boundary; from a candidate `(lo, hi)`, an interval ending at `hi` and
/// starting at or below it. When the search from no candidate finds nothing,
/// no boundary searched passes the check on its own.
pub proof fn law_extended_interval(
    local: LocalNodeInfo,
    latest: NodeMap,
    env: Map<SCPEnvelopeID, SCPEnvelope>,
    qm: QuorumManager,
    kind: CommitCheck,
    ballot: SCPBallot,
    bs: Seq<u64>,
    cand: (u32, u32),
    k: int,
)
    requires
        0 <= k <= bs.len(),
    ensures
        match extended_interval_spec(local, latest, env, qm, kind, ballot, bs, cand, k) {
            Some((lo, hi)) => {
                &&& commit_interval_ok(local, latest, env, qm, kind, ballot, lo, hi)
                &&& exists|j: int| 0 <= j < k && #[trigger] bs[j] as u32 == lo
                &&& cand.0 == 0 ==> lo == hi
                &&& cand.0 != 0 ==> hi == cand.1 && lo <= cand.1
            },
            None => cand.0 == 0 ==> forall|j: int|
                0 <= j < k ==> !commit_interval_ok(
                    local,
                    latest,
                    env,
                    qm,
                    kind,
                    ballot,
                    #[trigger] bs[j] as u32,
                    bs[j] as u32,
                ),
        },
    decreases k,
{
    if k > 0 {
        law_extended_interval(local, latest, env, qm, kind, ballot, bs, cand, k - 1);
        let b = bs[k - 1] as u32;
        assert(bs[k - 1] as u32 == b);
    }
}

/// The statement made of a ballot state describes it: while preparing, a
/// PREPARE of `b`, `p` and `p'` with the counters of `c` and `h` (0 when
/// unset); while confirming, a CONFIRM of `b` with the counters of `p`, `c`
/// and `h`; once externalized, an EXTERNALIZE of `c` with `h`'s counter.
pub proof fn law_create_statement_describes_state(s: BallotProtocolState, hash: Seq<u8>)
    ensures
        s.phase == SCPPhase::PhasePrepare ==> (create_statement_spec(s, hash) matches StatementView::Prepare(
            st,
        ) && (s.current_ballot is Some ==> st.ballot == s.current_ballot->0) && st.prepared
            == s.prepared && st.prepared_prime == s.prepared_prime && st.num_commit == (if s.commit is Some {
            (s.commit->0).counter
        } else {
            0
        }) && st.num_high == (if s.high_ballot is Some {
            (s.high_ballot->0).counter
        } else {
            0
        }) && st.quorum_set_hash == hash),
        (s.phase == SCPPhase::PhaseConfirm && s.current_ballot is Some && s.prepared is Some
            && s.commit is Some && s.high_ballot is Some) ==> (create_statement_spec(
            s,
            hash,
        ) matches StatementView::Confirm(st) && st.ballot == s.current_ballot->0 && st.num_prepared
            == (s.prepared->0).counter && st.num_commit == (s.commit->0).counter && st.num_high
            == (s.high_ballot->0).counter && st.quorum_set_hash == hash),
        (s.phase == SCPPhase::PhaseExternalize && s.commit is Some && s.high_ballot is Some) ==> (
        create_statement_spec(s, hash) matches StatementView::Externalize(st) && st.commit
            == s.commit->0 && st.num_high == (s.high_ballot->0).counter && st.commit_quorum_set_hash
            == hash),
{
}

/// Moving to `ballot` makes it the current ballot, keeps `p`, `p'`, the
/// phase and the latest envelopes, drops `h` and `c` exactly when `h` is set
/// with another value, and keeps having heard from a quorum only at the same
/// counter.
pub proof fn law_bump_to_ballot(s: BallotProtocolState, ballot: SCPBallot)
    ensures
        ({
            let t = bump_to_ballot_spec(s, ballot);
            let drop = s.high_ballot is Some && (s.high_ballot->0).value != ballot.value;
            &&& t.current_ballot == Some(ballot)
            &&& t.prepared == s.prepared
            &&& t.prepared_prime == s.prepared_prime
            &&& t.phase == s.phase
            &&& t.latest_envelopes == s.latest_envelopes
            &&& drop ==> t.high_ballot is None && t.commit is None
            &&& !drop ==> t.high_ballot == s.high_ballot && t.commit == s.commit
            &&& t.heard_from_quorum == (s.heard_from_quorum && s.current_ballot is Some && (
            s.current_ballot->0).counter == ballot.counter)
        }),
{
}

/// The ballot may move to `ballot` exactly when the slot has not
/// externalized and either there is no ballot yet, or the current one is
/// lower and `ballot` carries the value of `c` when `c` is set.
pub proof fn law_update_current_value(s: BallotProtocolState, ballot: SCPBallot)
    ensures
        s.phase == SCPPhase::PhaseExternalize ==> !update_current_value_spec(s, ballot),
        (s.phase != SCPPhase::PhaseExternalize && s.current_ballot is None) ==> update_current_value_spec(
            s,
            ballot,
        ),
        (s.phase != SCPPhase::PhaseExternalize && s.current_ballot is Some) ==> (
        update_current_value_spec(s, ballot) <==> (ballot_lt(s.current_ballot->0, ballot) && (
        s.commit is Some ==> (s.commit->0).value == ballot.value))),
{
}

/// The ballots a hint points at: a PREPARE its `b`, `p` and `p'`; a CONFIRM
/// `(p, x)` and `(infinity, x)` for its value `x`; an EXTERNALIZE
/// `(infinity, x)` for its commit's value `x`; and no others.
pub proof fn law_hint_ballots(hint: StatementView, t: SCPBallot)
    ensures
        hint matches StatementView::Prepare(st) ==> (hint_ballots_spec(hint).contains(t) <==> (t
            == st.ballot || st.prepared == Some(t) || st.prepared_prime == Some(t))),
        hint matches StatementView::Confirm(st) ==> (hint_ballots_spec(hint).contains(t) <==> (t.value
            == st.ballot.value && (t.counter == st.num_prepared || t.counter == u32::MAX))),
        hint matches StatementView::Externalize(st) ==> (hint_ballots_spec(hint).contains(t) <==> (
        t.value == st.commit.value && t.counter == u32::MAX)),
        hint is Nominate ==> !hint_ballots_spec(hint).contains(t),
{
}

/// The ballots below `top` that a statement may have prepared: of a PREPARE,
/// those of its `b`, `p` and `p'` that are at most `top` with `top`'s value;
/// of a CONFIRM with `top`'s value, `top` and, when its prepared counter is
/// below `top`'s, that counter with `top`'s value; of an EXTERNALIZE with
/// `top`'s value, `top`; and no others.
pub proof fn law_candidates_of(top: SCPBallot, s: StatementView, b: SCPBallot)
    ensures
        s matches StatementView::Prepare(st) ==> (candidates_of(top, s).contains(b) <==> ((b
            == st.ballot || st.prepared == Some(b) || st.prepared_prime == Some(b)) && ballot_le(b, top)
            && b.value == top.value)),
        s matches StatementView::Confirm(st) ==> (candidates_of(top, s).contains(b) <==> (
        st.ballot.value == top.value && (b == top || (st.num_prepared < top.counter && b
            == SCPBallot { counter: st.num_prepared, value: top.value })))),
        s matches StatementView::Externalize(st) ==> (candidates_of(top, s).contains(b) <==> (
        st.commit.value == top.value && b == top)),
        s is Nominate ==> !candidates_of(top, s).contains(b),
{
}

/// Every node whose latest statement shares `ballot`'s value contributes its
/// counters as commit boundaries (a PREPARE with a commit its `c` and `h`, a
/// CONFIRM its `c` and `h`, an EXTERNALIZE its `c`, its `h` and infinity),
/// and every commit boundary comes from such a statement.
pub proof fn law_commit_boundaries(
    m: NodeMap,
    env: Map<SCPEnvelopeID, SCPEnvelope>,
    ballot: SCPBallot,
    n: int,
)
    ensures
        forall|i: int|
            #![trigger node_statement(m, env, i)]
            0 <= i < n ==> match node_statement(m, env, i) {
                Some(StatementView::Prepare(st)) => (st.ballot.value == ballot.value && st.num_commit
                    > 0) ==> boundaries_upto(m, env, ballot, n).contains(st.num_commit as u64)
                    && boundaries_upto(m, env, ballot, n).contains(st.num_high as u64),
                Some(StatementView::Confirm(st)) => st.ballot.value == ballot.value ==> boundaries_upto(
                    m,
                    env,
                    ballot,
                    n,
                ).contains(st.num_commit as u64) && boundaries_upto(m, env, ballot, n).contains(
                    st.num_high as u64,
                ),
                Some(StatementView::Externalize(st)) => st.commit.value == ballot.value
                    ==> boundaries_upto(m, env, ballot, n).contains(st.commit.counter as u64)
                    && boundaries_upto(m, env, ballot, n).contains(st.num_high as u64)
                    && boundaries_upto(m, env, ballot, n).contains(u32::MAX as u64),
                _ => true,
            },
        forall|x: u64|
            #[trigger] boundaries_upto(m, env, ballot, n).contains(x) ==> exists|i: int|
                0 <= i < n && match #[trigger] node_statement(m, env, i) {
                    Some(StatementView::Prepare(st)) => st.ballot.value == ballot.value
                        && st.num_commit > 0 && (x == st.num_commit as u64 || x == st.num_high as u64),
                    Some(StatementView::Confirm(st)) => st.ballot.value == ballot.value && (x
                        == st.num_commit as u64 || x == st.num_high as u64),
                    Some(StatementView::Externalize(st)) => st.commit.value == ballot.value && (x
                        == st.commit.counter as u64 || x == st.num_high as u64 || x == u32::MAX as u64),
                    _ => false,
                },
{
    lemma_boundaries_upto_members(m, env, ballot, n);
    assert forall|i: int|
        #![trigger node_statement(m, env, i)]
        0 <= i < n implies match node_statement(m, env, i) {
            Some(StatementView::Prepare(st)) => (st.ballot.value == ballot.value && st.num_commit > 0)
                ==> boundaries_upto(m, env, ballot, n).contains(st.num_commit as u64)
                && boundaries_upto(m, env, ballot, n).contains(st.num_high as u64),
            Some(StatementView::Confirm(st)) => st.ballot.value == ballot.value ==> boundaries_upto(
                m,
                env,
                ballot,
                n,
            ).contains(st.num_commit as u64) && boundaries_upto(m, env, ballot, n).contains(
                st.num_high as u64,
            ),
            Some(StatementView::Externalize(st)) => st.commit.value == ballot.value ==> boundaries_upto(
                m,
                env,
                ballot,
                n,
            ).contains(st.commit.counter as u64) && boundaries_upto(m, env, ballot, n).contains(
                st.num_high as u64,
            ) && boundaries_upto(m, env, ballot, n).contains(u32::MAX as u64),
            _ => true,
        } by {
        match node_statement(m, env, i) {
            Some(StatementView::Prepare(st)) => {
                if st.ballot.value == ballot.value && st.num_commit > 0 {
                    assert(node_contributes(m, env, ballot, i, st.num_commit as u64));
                    assert(node_contributes(m, env, ballot, i, st.num_high as u64));
                }
            },
            Some(StatementView::Confirm(st)) => {
                if st.ballot.value == ballot.value {
                    assert(node_contributes(m, env, ballot, i, st.num_commit as u64));
                    assert(node_contributes(m, env, ballot, i, st.num_high as u64));
                }
            },
            Some(StatementView::Externalize(st)) => {
                if st.commit.value == ballot.value {
                    assert(node_contributes(m, env, ballot, i, st.commit.counter as u64));
                    assert(node_contributes(m, env, ballot, i, st.num_high as u64));
                    assert(node_contributes(m, env, ballot, i, u32::MAX as u64));
                }
            },
            _ => {},
        }
    }
    assert forall|x: u64| #[trigger] boundaries_upto(m, env, ballot, n).contains(x) implies exists|i: int|
        0 <= i < n && match #[trigger] node_statement(m, env, i) {
            Some(StatementView::Prepare(st)) => st.ballot.value == ballot.value && st.num_commit > 0
                && (x == st.num_commit as u64 || x == st.num_high as u64),
            Some(StatementView::Confirm(st)) => st.ballot.value == ballot.value && (x
                == st.num_commit as u64 || x == st.num_high as u64),
            Some(StatementView::Externalize(st)) => st.commit.value == ballot.value && (x
                == st.commit.counter as u64 || x == st.num_high as u64 || x == u32::MAX as u64),
            _ => false,
        } by {
        let i = choose|i: int| 0 <= i < n && #[trigger] node_contributes(m, env, ballot, i, x);
        assert(0 <= i < n);
    }
}

/// The `i`-th node of `m` has a stored statement that contributes `x` as a
/// commit boundary for `ballot`.
pub open spec fn node_contributes(
    m: NodeMap,
    env: Map<SCPEnvelopeID, SCPEnvelope>,
    ballot: SCPBallot,
    i: int,
    x: u64,
) -> bool {
    match node_statement(m, env, i) {
        Some(s) => boundaries_of(ballot, s).contains(x),
        None => false,
    }
}

/// Each node's boundaries are among those of the first `n` nodes, and each of
/// those is one of some node's.
pub proof fn lemma_boundaries_upto_members(
    m: NodeMap,
    env: Map<SCPEnvelopeID, SCPEnvelope>,
    ballot: SCPBallot,
    n: int,
)
    ensures
        forall|i: int, x: u64|
            0 <= i < n && #[trigger] node_contributes(m, env, ballot, i, x) ==> boundaries_upto(
                m,
                env,
                ballot,
                n,
            ).contains(x),
        forall|x: u64|
            #[trigger] boundaries_upto(m, env, ballot, n).contains(x) ==> exists|i: int|
                0 <= i < n && #[trigger] node_contributes(m, env, ballot, i, x),
    decreases n,
{
    if n > 0 {
        lemma_boundaries_upto_members(m, env, ballot, n - 1);
        assert forall|x: u64| #[trigger] boundaries_upto(m, env, ballot, n).contains(x) implies exists|i: int|
            0 <= i < n && #[trigger] node_contributes(m, env, ballot, i, x) by {
            if !boundaries_upto(m, env, ballot, n - 1).contains(x) {
                assert(node_contributes(m, env, ballot, n - 1, x));
            }
        }
    }
}

/// The slot externalizes at most once: commit is confirmed (and the
/// externalize callback made) only in the CONFIRM phase, confirming it moves
/// to EXTERNALIZE, and no processing leaves EXTERNALIZE, so a slot that has
/// externalized never confirms commit again.
pub proof fn law_externalize_once(
    local: LocalNodeInfo,
    s: BallotProtocolState,
    t: BallotProtocolState,
    oe: Map<SCPEnvelopeID, SCPEnvelope>,
    ne: Map<SCPEnvelopeID, SCPEnvelope>,
    qm: QuorumManager,
    hint: StatementView,
)
    requires
        s.phase == SCPPhase::PhaseExternalize,
        ballot_frame(s, t, oe, ne),
    ensures
        !confirm_commit_spec(local, s, oe, qm, hint),
        !confirm_commit_spec(local, t, ne, qm, hint),
{
}

/// Accepting commit over the same interval a second time is no work.
pub proof fn law_accept_commit_idempotent(s: BallotProtocolState, commit: SCPBallot, high: SCPBallot)
    ensures
        ({
            let t = accept_commit_state(s, commit, high);
            !(t.high_ballot != Some(high) || t.commit != Some(commit) || t.phase == SCPPhase::PhasePrepare)
        }),
{
}

} // verus!
