use vstd::prelude::*;

use crate::application::quorum::{eq_opt_qset, opt_qset_view, QuorumSet, QuorumSetView};
use crate::scp::ballot_protocol::{
    ballot_lt, opt_ballot_less, opt_ballot_lt, SCPBallot,
};
use crate::scp::scp_driver::HashValue;
use crate::utils::value_set::ValueSet;

verus! {

/// The kind of a statement, ordered Nominate < Prepare < Confirm < Externalize.
#[derive(PartialEq, Eq, Structural, Debug, Clone, Copy)]
pub enum SCPStatementType {
    Nominate,
    Prepare,
    Confirm,
    Externalize,
}

pub open spec fn statement_type_rank(t: SCPStatementType) -> u64 {
    match t {
        SCPStatementType::Nominate => 0,
        SCPStatementType::Prepare => 1,
        SCPStatementType::Confirm => 2,
        SCPStatementType::Externalize => 3,
    }
}

impl SCPStatementType {
    pub fn value(&self) -> (r: u64)
        ensures
            r == statement_type_rank(*self),
    {
        match self {
            SCPStatementType::Nominate => 0,
            SCPStatementType::Prepare => 1,
            SCPStatementType::Confirm => 2,
            SCPStatementType::Externalize => 3,
        }
    }
}

pub struct SCPStatementNominate {
    pub node_id: String,
    pub quorum_set_hash: HashValue,
    pub votes: Vec<u64>,
    pub accepted: Vec<u64>,
    pub quorum_set: Option<QuorumSet>,
}

pub struct SCPStatementPrepare {
    pub quorum_set_hash: HashValue,
    pub ballot: SCPBallot,
    pub prepared: Option<SCPBallot>,
    pub prepared_prime: Option<SCPBallot>,
    pub num_commit: u32,
    pub num_high: u32,
    pub quorum_set: Option<QuorumSet>,
}

pub struct SCPStatementConfirm {
    pub quorum_set_hash: HashValue,
    pub ballot: SCPBallot,
    pub num_prepared: u32,
    pub num_commit: u32,
    pub num_high: u32,
    pub quorum_set: Option<QuorumSet>,
}

pub struct SCPStatementExternalize {
    pub commit_quorum_set_hash: HashValue,
    pub commit: SCPBallot,
    pub num_high: u32,
    pub commit_quorum_set: Option<QuorumSet>,
}

pub enum SCPStatement {
    Prepare(SCPStatementPrepare),
    Confirm(SCPStatementConfirm),
    Externalize(SCPStatementExternalize),
    Nominate(SCPStatementNominate),
}

pub struct NominateView {
    pub node_id: Seq<char>,
    pub quorum_set_hash: Seq<u8>,
    pub votes: Seq<u64>,
    pub accepted: Seq<u64>,
    pub quorum_set: Option<QuorumSetView>,
}

pub struct PrepareView {
    pub quorum_set_hash: Seq<u8>,
    pub ballot: SCPBallot,
    pub prepared: Option<SCPBallot>,
    pub prepared_prime: Option<SCPBallot>,
    pub num_commit: u32,
    pub num_high: u32,
    pub quorum_set: Option<QuorumSetView>,
}

pub struct ConfirmView {
    pub quorum_set_hash: Seq<u8>,
    pub ballot: SCPBallot,
    pub num_prepared: u32,
    pub num_commit: u32,
    pub num_high: u32,
    pub quorum_set: Option<QuorumSetView>,
}

pub struct ExternalizeView {
    pub commit_quorum_set_hash: Seq<u8>,
    pub commit: SCPBallot,
    pub num_high: u32,
    pub commit_quorum_set: Option<QuorumSetView>,
}

pub enum StatementView {
    Prepare(PrepareView),
    Confirm(ConfirmView),
    Externalize(ExternalizeView),
    Nominate(NominateView),
}

impl View for SCPStatementNominate {
    type V = NominateView;

    open spec fn view(&self) -> NominateView {
        NominateView {
            node_id: self.node_id@,
            quorum_set_hash: self.quorum_set_hash@,
            votes: self.votes@,
            accepted: self.accepted@,
            quorum_set: opt_qset_view(self.quorum_set),
        }
    }
}

impl View for SCPStatementPrepare {
    type V = PrepareView;

    open spec fn view(&self) -> PrepareView {
        PrepareView {
            quorum_set_hash: self.quorum_set_hash@,
            ballot: self.ballot,
            prepared: self.prepared,
            prepared_prime: self.prepared_prime,
            num_commit: self.num_commit,
            num_high: self.num_high,
            quorum_set: opt_qset_view(self.quorum_set),
        }
    }
}

impl View for SCPStatementConfirm {
    type V = ConfirmView;

    open spec fn view(&self) -> ConfirmView {
        ConfirmView {
            quorum_set_hash: self.quorum_set_hash@,
            ballot: self.ballot,
            num_prepared: self.num_prepared,
            num_commit: self.num_commit,
            num_high: self.num_high,
            quorum_set: opt_qset_view(self.quorum_set),
        }
    }
}

impl View for SCPStatementExternalize {
    type V = ExternalizeView;

    open spec fn view(&self) -> ExternalizeView {
        ExternalizeView {
            commit_quorum_set_hash: self.commit_quorum_set_hash@,
            commit: self.commit,
            num_high: self.num_high,
            commit_quorum_set: opt_qset_view(self.commit_quorum_set),
        }
    }
}

impl View for SCPStatement {
    type V = StatementView;

    open spec fn view(&self) -> StatementView {
        match self {
            SCPStatement::Prepare(st) => StatementView::Prepare(st@),
            SCPStatement::Confirm(st) => StatementView::Confirm(st@),
            SCPStatement::Externalize(st) => StatementView::Externalize(st@),
            SCPStatement::Nominate(st) => StatementView::Nominate(st@),
        }
    }
}

} // verus!

verus! {

pub open spec fn statement_type_spec(s: StatementView) -> SCPStatementType {
    match s {
        StatementView::Nominate(_) => SCPStatementType::Nominate,
        StatementView::Prepare(_) => SCPStatementType::Prepare,
        StatementView::Confirm(_) => SCPStatementType::Confirm,
        StatementView::Externalize(_) => SCPStatementType::Externalize,
    }
}

/// The ballot a statement of the ballot protocol works on.
pub open spec fn working_ballot_spec(s: StatementView) -> SCPBallot {
    match s {
        StatementView::Prepare(st) => st.ballot,
        StatementView::Confirm(st) => SCPBallot { counter: st.num_commit, value: st.ballot.value },
        StatementView::Externalize(st) => st.commit,
        StatementView::Nominate(_) => arbitrary(),
    }
}

/// The values that a statement of the ballot protocol mentions.
pub open spec fn nomination_values_spec(s: StatementView) -> Set<u64> {
    match s {
        StatementView::Prepare(st) => {
            let a = if st.ballot.counter != 0 {
                set![st.ballot.value]
            } else {
                Set::empty()
            };
            let b = match st.prepared {
                Some(p) => a.insert(p.value),
                None => a,
            };
            match st.prepared_prime {
                Some(p) => b.insert(p.value),
                None => b,
            }
        },
        StatementView::Confirm(st) => set![st.ballot.value],
        StatementView::Externalize(st) => set![st.commit.value],
        StatementView::Nominate(_) => Set::empty(),
    }
}

/// PREPARE statements are ordered lexicographically by `(b, p, p', h)`, a
/// missing ballot coming first.
pub open spec fn prepare_newer_spec(a: PrepareView, b: PrepareView) -> bool {
    if ballot_lt(b.ballot, a.ballot) {
        true
    } else if b.ballot == a.ballot {
        if opt_ballot_lt(b.prepared, a.prepared) {
            true
        } else if b.prepared == a.prepared {
            if opt_ballot_lt(b.prepared_prime, a.prepared_prime) {
                true
            } else if b.prepared_prime == a.prepared_prime {
                b.num_high < a.num_high
            } else {
                false
            }
        } else {
            false
        }
    } else {
        false
    }
}

/// CONFIRM statements are ordered by `(b, p, h)`.
pub open spec fn confirm_newer_spec(a: ConfirmView, b: ConfirmView) -> bool {
    if ballot_lt(b.ballot, a.ballot) {
        true
    } else if b.ballot == a.ballot {
        if b.num_prepared == a.num_prepared {
            b.num_high < a.num_high
        } else {
            b.num_prepared < a.num_prepared
        }
    } else {
        false
    }
}

/// `(is_subset, grown)`: whether every member of `left` is in `right` (and
/// `left` is not longer), and whether they are not the same size subset.
pub open spec fn is_subset_spec(left: Seq<u64>, right: Seq<u64>) -> (bool, bool) {
    let sub = left.len() <= right.len() && (forall|i: int|
        0 <= i < left.len() ==> right.contains(#[trigger] left[i]));
    let equal = sub && left.len() == right.len();
    (sub, !equal)
}

/// A nomination is older than another when its votes are strictly contained
/// in the other's, or, with the same votes, its accepted values are strictly
/// contained in the other's.
pub open spec fn nominate_older_spec(a: NominateView, b: NominateView) -> bool {
    let (sub_votes, grown_votes) = is_subset_spec(a.votes, b.votes);
    let (sub_acc, grown_acc) = is_subset_spec(a.accepted, b.accepted);
    sub_votes && (grown_votes || (sub_acc && grown_acc))
}

/// `a` is newer than `b`: a later kind of statement, or the same kind and
/// newer by that kind's order; an EXTERNALIZE is never newer than another.
pub open spec fn statement_newer_spec(a: StatementView, b: StatementView) -> bool {
    match (a, b) {
        (StatementView::Nominate(x), StatementView::Nominate(y)) => !nominate_older_spec(x, y),
        (StatementView::Prepare(x), StatementView::Prepare(y)) => prepare_newer_spec(x, y),
        (StatementView::Confirm(x), StatementView::Confirm(y)) => confirm_newer_spec(x, y),
        (StatementView::Externalize(_), StatementView::Externalize(_)) => false,
        _ => statement_type_rank(statement_type_spec(a)) > statement_type_rank(
            statement_type_spec(b),
        ),
    }
}

pub open spec fn quorum_set_hash_spec(s: StatementView) -> Seq<u8> {
    match s {
        StatementView::Prepare(st) => st.quorum_set_hash,
        StatementView::Confirm(st) => st.quorum_set_hash,
        StatementView::Externalize(st) => st.commit_quorum_set_hash,
        StatementView::Nominate(st) => st.quorum_set_hash,
    }
}

pub open spec fn quorum_set_spec(s: StatementView) -> Option<QuorumSetView> {
    match s {
        StatementView::Prepare(st) => st.quorum_set,
        StatementView::Confirm(st) => st.quorum_set,
        StatementView::Externalize(st) => st.commit_quorum_set,
        StatementView::Nominate(st) => st.quorum_set,
    }
}

pub open spec fn is_ballot_statement(s: StatementView) -> bool {
    !(s is Nominate)
}

/// The ballot counter of a statement of the ballot protocol; an EXTERNALIZE
/// has an implicitly infinite counter, the highest there is.
pub open spec fn ballot_counter_spec(s: StatementView) -> u32 {
    match s {
        StatementView::Prepare(st) => st.ballot.counter,
        StatementView::Confirm(st) => st.ballot.counter,
        StatementView::Externalize(_) => u32::MAX,
        StatementView::Nominate(_) => 0,
    }
}

/// The well-formedness rules of ballot statements.
pub open spec fn statement_sane_spec(s: StatementView, from_self: bool) -> bool {
    match s {
        StatementView::Prepare(st) => {
            &&& (from_self || st.ballot.counter > 0)
            &&& (match (st.prepared, st.prepared_prime) {
                (Some(p), Some(pp)) => crate::scp::ballot_protocol::less_and_incompatible_spec(
                    pp,
                    p,
                ),
                _ => true,
            })
            &&& (st.num_high == 0 || match st.prepared {
                Some(p) => st.num_high <= p.counter,
                None => false,
            })
            &&& (st.num_commit == 0 || (st.num_high != 0 && st.ballot.counter >= st.num_high
                && st.num_high >= st.num_commit))
        },
        StatementView::Confirm(st) => {
            st.ballot.counter > 0 && st.num_high <= st.ballot.counter && st.num_commit
                <= st.num_high
        },
        StatementView::Externalize(st) => st.commit.counter > 0 && st.num_high
            >= st.commit.counter,
        StatementView::Nominate(_) => false,
    }
}

pub fn clone_values(v: &Vec<u64>) -> (r: Vec<u64>)
    ensures
        r@ == v@,
{
    let mut r: Vec<u64> = Vec::new();
    let mut i: usize = 0;
    while i < v.len()
        invariant
            i <= v@.len(),
            r@ == v@.subrange(0, i as int),
        decreases v@.len() - i,
    {
        r.push(v[i]);
        i = i + 1;
        assert(r@ =~= v@.subrange(0, i as int));
    }
    assert(v@.subrange(0, i as int) =~= v@);
    r
}

pub fn values_eq(a: &Vec<u64>, b: &Vec<u64>) -> (r: bool)
    ensures
        r == (a@ == b@),
{
    if a.len() != b.len() {
        return false;
    }
    let mut i: usize = 0;
    while i < a.len()
        invariant
            i <= a@.len(),
            a@.len() == b@.len(),
            forall|j: int| 0 <= j < i ==> a@[j] == b@[j],
        decreases a@.len() - i,
    {
        if a[i] != b[i] {
            return false;
        }
        i = i + 1;
    }
    assert(a@ =~= b@);
    true
}

pub fn hash_eq(a: &HashValue, b: &HashValue) -> (r: bool)
    ensures
        r == (a@ == b@),
{
    let mut i: usize = 0;
    while i < 64
        invariant
            i <= 64,
            a@.len() == 64,
            b@.len() == 64,
            forall|j: int| 0 <= j < i ==> a@[j] == b@[j],
        decreases 64 - i,
    {
        if a[i] != b[i] {
            return false;
        }
        i = i + 1;
    }
    assert(a@ =~= b@);
    true
}

impl Clone for SCPStatementNominate {
    fn clone(&self) -> (r: Self)
        ensures
            r@ == self@,
    {
        SCPStatementNominate {
            node_id: self.node_id.clone(),
            quorum_set_hash: self.quorum_set_hash,
            votes: clone_values(&self.votes),
            accepted: clone_values(&self.accepted),
            quorum_set: crate::application::quorum::clone_opt_qset(&self.quorum_set),
        }
    }
}

impl Clone for SCPStatementPrepare {
    fn clone(&self) -> (r: Self)
        ensures
            r@ == self@,
    {
        SCPStatementPrepare {
            quorum_set_hash: self.quorum_set_hash,
            ballot: self.ballot,
            prepared: self.prepared,
            prepared_prime: self.prepared_prime,
            num_commit: self.num_commit,
            num_high: self.num_high,
            quorum_set: crate::application::quorum::clone_opt_qset(&self.quorum_set),
        }
    }
}

impl Clone for SCPStatementConfirm {
    fn clone(&self) -> (r: Self)
        ensures
            r@ == self@,
    {
        SCPStatementConfirm {
            quorum_set_hash: self.quorum_set_hash,
            ballot: self.ballot,
            num_prepared: self.num_prepared,
            num_commit: self.num_commit,
            num_high: self.num_high,
            quorum_set: crate::application::quorum::clone_opt_qset(&self.quorum_set),
        }
    }
}

impl Clone for SCPStatementExternalize {
    fn clone(&self) -> (r: Self)
        ensures
            r@ == self@,
    {
        SCPStatementExternalize {
            commit_quorum_set_hash: self.commit_quorum_set_hash,
            commit: self.commit,
            num_high: self.num_high,
            commit_quorum_set: crate::application::quorum::clone_opt_qset(&self.commit_quorum_set),
        }
    }
}

impl Clone for SCPStatement {
    fn clone(&self) -> (r: Self)
        ensures
            r@ == self@,
    {
        match self {
            SCPStatement::Prepare(st) => SCPStatement::Prepare(st.clone()),
            SCPStatement::Confirm(st) => SCPStatement::Confirm(st.clone()),
            SCPStatement::Externalize(st) => SCPStatement::Externalize(st.clone()),
            SCPStatement::Nominate(st) => SCPStatement::Nominate(st.clone()),
        }
    }
}

} // verus!

verus! {

impl SCPStatement {
    pub fn statement_type(&self) -> (t: SCPStatementType)
        ensures
            t == statement_type_spec(self@),
    {
        match self {
            SCPStatement::Nominate(_) => SCPStatementType::Nominate,
            SCPStatement::Prepare(_) => SCPStatementType::Prepare,
            SCPStatement::Confirm(_) => SCPStatementType::Confirm,
            SCPStatement::Externalize(_) => SCPStatementType::Externalize,
        }
    }

    /// The ballot of a statement of the ballot protocol; a NOMINATE statement has none.
    pub fn working_ballot(&self) -> (b: SCPBallot)
        requires
            is_ballot_statement(self@),
        ensures
            b == working_ballot_spec(self@),
    {
        match self {
            SCPStatement::Prepare(st) => st.ballot,
            SCPStatement::Confirm(st) => SCPBallot::new(st.num_commit, st.ballot.value),
            SCPStatement::Externalize(st) => st.commit,
            SCPStatement::Nominate(_) => SCPBallot::default(),
        }
    }

    /// The values mentioned by a statement of the ballot protocol.
    pub fn get_nomination_values(&self) -> (r: ValueSet)
        ensures
            r.wf(),
            r@ == nomination_values_spec(self@),
    {
        let mut ret = ValueSet::new();
        match self {
            SCPStatement::Prepare(st) => {
                if st.ballot.counter != 0 {
                    ret.insert(st.ballot.value);
                }
                if let Some(prepared) = &st.prepared {
                    ret.insert(prepared.value);
                }
                if let Some(prepared_prime) = &st.prepared_prime {
                    ret.insert(prepared_prime.value);
                }
            },
            SCPStatement::Confirm(st) => {
                ret.insert(st.ballot.value);
            },
            SCPStatement::Externalize(st) => {
                ret.insert(st.commit.value);
            },
            SCPStatement::Nominate(_) => {},
        }
        proof {
            assert(ret@ =~= nomination_values_spec(self@));
        }
        ret
    }

    pub fn as_nominate_statement(&self) -> (r: &SCPStatementNominate)
        requires
            self is Nominate,
        ensures
            *self == SCPStatement::Nominate(*r),
    {
        match self {
            SCPStatement::Nominate(st) => st,
            _ => { proof { assert(false); } unreached() },
        }
    }

    pub fn as_prepare_statement(&self) -> (r: &SCPStatementPrepare)
        requires
            self is Prepare,
        ensures
            *self == SCPStatement::Prepare(*r),
    {
        match self {
            SCPStatement::Prepare(st) => st,
            _ => { proof { assert(false); } unreached() },
        }
    }

    pub fn as_confirm_statement(&self) -> (r: &SCPStatementConfirm)
        requires
            self is Confirm,
        ensures
            *self == SCPStatement::Confirm(*r),
    {
        match self {
            SCPStatement::Confirm(st) => st,
            _ => { proof { assert(false); } unreached() },
        }
    }

    pub fn as_externalize_statement(&self) -> (r: &SCPStatementExternalize)
        requires
            self is Externalize,
        ensures
            *self == SCPStatement::Externalize(*r),
    {
        match self {
            SCPStatement::Externalize(st) => st,
            _ => { proof { assert(false); } unreached() },
        }
    }

    /// Whether this statement supersedes `other` from the same node.
    pub fn is_newer_than(&self, other: &Self) -> (r: bool)
        ensures
            r == statement_newer_spec(self@, other@),
    {
        let self_type = self.statement_type();
        let other_type = other.statement_type();
        if self_type != other_type {
            return self_type.value() > other_type.value();
        }
        match (self, other) {
            (SCPStatement::Nominate(a), SCPStatement::Nominate(b)) => !a.is_older_than(b),
            (SCPStatement::Prepare(a), SCPStatement::Prepare(b)) => a.is_newer_than(b),
            (SCPStatement::Confirm(a), SCPStatement::Confirm(b)) => a.is_newer_than(b),
            _ => false,
        }
    }

    pub fn quorum_set_hash_value(&self) -> (h: HashValue)
        ensures
            h@ == quorum_set_hash_spec(self@),
    {
        match self {
            SCPStatement::Prepare(st) => st.quorum_set_hash,
            SCPStatement::Confirm(st) => st.quorum_set_hash,
            SCPStatement::Externalize(st) => st.commit_quorum_set_hash,
            SCPStatement::Nominate(st) => st.quorum_set_hash,
        }
    }

    pub fn quorum_set(&self) -> (q: Option<&QuorumSet>)
        ensures
            match q {
                Some(q) => quorum_set_spec(self@) == Some(q@),
                None => quorum_set_spec(self@) is None,
            },
    {
        match self {
            SCPStatement::Prepare(st) => st.quorum_set.as_ref(),
            SCPStatement::Confirm(st) => st.quorum_set.as_ref(),
            SCPStatement::Externalize(st) => st.commit_quorum_set.as_ref(),
            SCPStatement::Nominate(st) => st.quorum_set.as_ref(),
        }
    }

    /// The ballot counter of a statement of the ballot protocol.
    pub fn ballot_counter(&self) -> (c: u32)
        requires
            is_ballot_statement(self@),
        ensures
            c == ballot_counter_spec(self@),
    {
        match self {
            SCPStatement::Prepare(st) => st.ballot.counter,
            SCPStatement::Confirm(st) => st.ballot.counter,
            SCPStatement::Externalize(_) => 0xffff_ffffu32,
            SCPStatement::Nominate(_) => 0,
        }
    }

    /// Whether a statement of the ballot protocol is well formed; one that
    /// the local node made may still have counter 0.
    pub fn is_statement_sane(&self, from_self: bool) -> (r: bool)
        requires
            is_ballot_statement(self@),
        ensures
            r == statement_sane_spec(self@, from_self),
    {
        match self {
            SCPStatement::Prepare(st) => {
                if !(from_self || st.ballot.counter > 0) {
                    return false;
                }
                if let Some(prepared) = st.prepared.as_ref() {
                    if let Some(prepared_prime) = st.prepared_prime.as_ref() {
                        if !prepared_prime.less_and_incompatible(prepared) {
                            return false;
                        }
                    }
                }
                let high_ok = st.num_high == 0 || match st.prepared.as_ref() {
                    Some(prepared) => st.num_high <= prepared.counter,
                    None => false,
                };
                if !high_ok {
                    return false;
                }
                st.num_commit == 0 || (st.num_high != 0 && st.ballot.counter >= st.num_high
                    && st.num_high >= st.num_commit)
            },
            SCPStatement::Confirm(st) => {
                st.ballot.counter > 0 && st.num_high <= st.ballot.counter && st.num_commit
                    <= st.num_high
            },
            SCPStatement::Externalize(st) => {
                st.commit.counter > 0 && st.num_high >= st.commit.counter
            },
            SCPStatement::Nominate(_) => false,
        }
    }

    /// The nomination statement inside a NOMINATE statement.
    pub fn as_nomination_statement(&self) -> (r: &SCPStatementNominate)
        requires
            self is Nominate,
        ensures
            *self == SCPStatement::Nominate(*r),
    {
        self.as_nominate_statement()
    }

    pub fn get_accepted(&self) -> (r: Vec<u64>)
        requires
            self is Nominate,
        ensures
            r@ == self->Nominate_0.accepted@,
    {
        clone_values(&self.as_nominate_statement().accepted)
    }

    pub fn get_votes(&self) -> (r: Vec<u64>)
        requires
            self is Nominate,
        ensures
            r@ == self->Nominate_0.votes@,
    {
        clone_values(&self.as_nominate_statement().votes)
    }

    pub fn eq_statement(&self, other: &Self) -> (r: bool)
        ensures
            r == (self@ == other@),
    {

        match (self, other) {
            (SCPStatement::Prepare(a), SCPStatement::Prepare(b)) => {
                hash_eq(&a.quorum_set_hash, &b.quorum_set_hash) && a.ballot == b.ballot
                    && a.prepared == b.prepared && a.prepared_prime == b.prepared_prime
                    && a.num_commit == b.num_commit && a.num_high == b.num_high && eq_opt_qset(
                    &a.quorum_set,
                    &b.quorum_set,
                )
            },
            (SCPStatement::Confirm(a), SCPStatement::Confirm(b)) => {
                hash_eq(&a.quorum_set_hash, &b.quorum_set_hash) && a.ballot == b.ballot
                    && a.num_prepared == b.num_prepared && a.num_commit == b.num_commit
                    && a.num_high == b.num_high && eq_opt_qset(&a.quorum_set, &b.quorum_set)
            },
            (SCPStatement::Externalize(a), SCPStatement::Externalize(b)) => {
                hash_eq(&a.commit_quorum_set_hash, &b.commit_quorum_set_hash) && a.commit
                    == b.commit && a.num_high == b.num_high && eq_opt_qset(
                    &a.commit_quorum_set,
                    &b.commit_quorum_set,
                )
            },
            (SCPStatement::Nominate(a), SCPStatement::Nominate(b)) => {
                a.node_id == b.node_id && hash_eq(&a.quorum_set_hash, &b.quorum_set_hash)
                    && values_eq(&a.votes, &b.votes) && values_eq(&a.accepted, &b.accepted)
                    && eq_opt_qset(&a.quorum_set, &b.quorum_set)
            },
            _ => false,
        }
    }
}

impl SCPStatementPrepare {
    pub fn is_newer_than(&self, other: &Self) -> (r: bool)
        ensures
            r == prepare_newer_spec(self@, other@),
    {
        if other.ballot.lt(&self.ballot) {
            true
        } else if other.ballot == self.ballot {
            if opt_ballot_less(&other.prepared, &self.prepared) {
                true
            } else if other.prepared == self.prepared {
                if opt_ballot_less(&other.prepared_prime, &self.prepared_prime) {
                    true
                } else if other.prepared_prime == self.prepared_prime {
                    other.num_high < self.num_high
                } else {
                    false
                }
            } else {
                false
            }
        } else {
            false
        }
    }
}

impl SCPStatementConfirm {
    pub fn is_newer_than(&self, other: &Self) -> (r: bool)
        ensures
            r == confirm_newer_spec(self@, other@),
    {
        if other.ballot.lt(&self.ballot) {
            true
        } else if other.ballot == self.ballot {
            if other.num_prepared == self.num_prepared {
                other.num_high < self.num_high
            } else {
                other.num_prepared < self.num_prepared
            }
        } else {
            false
        }
    }
}

pub fn values_contain(v: &Vec<u64>, x: u64) -> (r: bool)
    ensures
        r == v@.contains(x),
{
    let mut i: usize = 0;
    while i < v.len()
        invariant
            i <= v@.len(),
            forall|j: int| 0 <= j < i ==> v@[j] != x,
        decreases v@.len() - i,
    {
        if v[i] == x {
            return true;
        }
        i = i + 1;
    }
    false
}

impl SCPStatementNominate {
    /// A NOMINATE statement with the given votes and accepted values for a
    /// node whose quorum set is `quorum_set`; the node id is left empty.
    pub fn new(quorum_set: &QuorumSet, votes: Vec<u64>, accepted: Vec<u64>) -> (st: Self)
        ensures
            st.quorum_set_hash@ == crate::crypto::blake2b_digest(crate::crypto::enc_qset(quorum_set@)),
            st.votes@ == votes@,
            st.accepted@ == accepted@,
            opt_qset_view(st.quorum_set) == Some(quorum_set@),
            st.node_id@ == Seq::<char>::empty(),
    {
        SCPStatementNominate {
            quorum_set_hash: quorum_set.hash_value(),
            votes,
            accepted,
            quorum_set: Some(quorum_set.clone()),
            node_id: String::new(),
        }
    }

    /// `(is_subset, grown)` of `left` against `right`.
    pub fn is_subset(left: &Vec<u64>, right: &Vec<u64>) -> (r: (bool, bool))
        ensures
            r == is_subset_spec(left@, right@),
    {
        let mut is_subset = false;
        let mut equal = false;
        if left.len() <= right.len() {
            let mut all = true;
            let mut i: usize = 0;
            while i < left.len()
                invariant
                    i <= left@.len(),
                    all == (forall|j: int| 0 <= j < i ==> right@.contains(#[trigger] left@[j])),
                decreases left@.len() - i,
            {
                if !values_contain(right, left[i]) {
                    all = false;
                }
                i = i + 1;
            }
            is_subset = all;
            equal = is_subset && left.len() == right.len();
        }
        (is_subset, !equal)
    }

    /// Whether this nomination is superseded by `other`.
    pub fn is_older_than(&self, other: &Self) -> (r: bool)
        ensures
            r == nominate_older_spec(self@, other@),
    {
        let mut ret = false;
        let (is_subset_votes, equal_votes_grown) = Self::is_subset(&self.votes, &other.votes);
        if is_subset_votes {
            if equal_votes_grown {
                ret = true;
            } else {
                let (is_subset_accepted, equal_accepted_grown) = Self::is_subset(
                    &self.accepted,
                    &other.accepted,
                );
                ret = is_subset_accepted && equal_accepted_grown;
            }
        }
        ret
    }
}

} // verus!

verus! {

/// "Older than" orders nominations strictly: no nomination is older than
/// itself, none is both older and newer than another, and being older is
/// transitive.
pub proof fn law_nominate_older_strict_order(a: NominateView, b: NominateView, c: NominateView)
    ensures
        !nominate_older_spec(a, a),
        nominate_older_spec(a, b) ==> !nominate_older_spec(b, a),
        nominate_older_spec(a, b) && nominate_older_spec(b, c) ==> nominate_older_spec(a, c),
{
    if nominate_older_spec(a, b) && nominate_older_spec(b, c) {
        assert forall|i: int| 0 <= i < a.votes.len() implies c.votes.contains(
            #[trigger] a.votes[i],
        ) by {
            assert(b.votes.contains(a.votes[i]));
            let j = choose|j: int| 0 <= j < b.votes.len() && b.votes[j] == a.votes[i];
            assert(c.votes.contains(b.votes[j]));
        }
        if is_subset_spec(a.accepted, b.accepted).0 && is_subset_spec(b.accepted, c.accepted).0 {
            assert forall|i: int| 0 <= i < a.accepted.len() implies c.accepted.contains(
                #[trigger] a.accepted[i],
            ) by {
                assert(b.accepted.contains(a.accepted[i]));
                let j = choose|j: int| 0 <= j < b.accepted.len() && b.accepted[j] == a.accepted[i];
                assert(c.accepted.contains(b.accepted[j]));
            }
        }
    }
}

/// No ballot statement is newer than itself, so a ballot envelope that
/// repeats the stored statement of its sender is not refused as stale.
pub proof fn law_ballot_statement_not_newer_than_itself(s: StatementView)
    requires
        is_ballot_statement(s),
    ensures
        !statement_newer_spec(s, s),
{
}

/// PREPARE statements are ordered lexicographically by `(b, p, p', h)`, a
/// missing `p` or `p'` coming before any ballot: a higher `b` makes a
/// statement newer; with `b` equal, a higher `p`; with `b` and `p` equal, a
/// higher `p'`, whatever `h` is; with all three equal, exactly a higher `h`.
/// The order is strict.
pub proof fn law_prepare_newer_lexicographic(a: PrepareView, b: PrepareView, c: PrepareView)
    ensures
        ballot_lt(b.ballot, a.ballot) ==> prepare_newer_spec(a, b),
        ballot_lt(a.ballot, b.ballot) ==> !prepare_newer_spec(a, b),
        (b.ballot == a.ballot && b.prepared is None && a.prepared is Some) ==> prepare_newer_spec(a, b),
        (b.ballot == a.ballot && b.prepared is Some && a.prepared is Some && ballot_lt(
            b.prepared->0,
            a.prepared->0,
        )) ==> prepare_newer_spec(a, b),
        (b.ballot == a.ballot && b.prepared == a.prepared && b.prepared_prime is None
            && a.prepared_prime is Some) ==> prepare_newer_spec(a, b),
        (b.ballot == a.ballot && b.prepared == a.prepared && b.prepared_prime is Some
            && a.prepared_prime is Some && ballot_lt(b.prepared_prime->0, a.prepared_prime->0))
            ==> prepare_newer_spec(a, b),
        (b.ballot == a.ballot && b.prepared == a.prepared && a.prepared_prime is None
            && b.prepared_prime is Some) ==> !prepare_newer_spec(a, b),
        (b.ballot == a.ballot && b.prepared == a.prepared && b.prepared_prime == a.prepared_prime)
            ==> (prepare_newer_spec(a, b) <==> b.num_high < a.num_high),
        !prepare_newer_spec(a, a),
        prepare_newer_spec(a, b) ==> !prepare_newer_spec(b, a),
        prepare_newer_spec(a, b) && prepare_newer_spec(b, c) ==> prepare_newer_spec(a, c),
{
}

/// CONFIRM statements are ordered lexicographically by `(b, p, h)`: a higher
/// `b` makes a statement newer; with `b` equal, a higher prepared counter,
/// whatever `h` is; with both equal, exactly a higher `h`.
pub proof fn law_confirm_newer_lexicographic(a: ConfirmView, b: ConfirmView)
    ensures
        ballot_lt(b.ballot, a.ballot) ==> confirm_newer_spec(a, b),
        ballot_lt(a.ballot, b.ballot) ==> !confirm_newer_spec(a, b),
        (b.ballot == a.ballot && b.num_prepared < a.num_prepared) ==> confirm_newer_spec(a, b),
        (b.ballot == a.ballot && a.num_prepared < b.num_prepared) ==> !confirm_newer_spec(a, b),
        (b.ballot == a.ballot && b.num_prepared == a.num_prepared) ==> (confirm_newer_spec(a, b)
            <==> b.num_high < a.num_high),
{
}

/// Between ballot statements of different kinds the later kind is newer:
/// PREPARE, then CONFIRM, then EXTERNALIZE; an EXTERNALIZE is never newer than
/// another EXTERNALIZE, and a NOMINATE is never newer than a ballot statement.
pub proof fn law_statement_kinds_ordered(a: StatementView, b: StatementView)
    ensures
        (a is Confirm && b is Prepare) ==> statement_newer_spec(a, b),
        (a is Externalize && (b is Prepare || b is Confirm)) ==> statement_newer_spec(a, b),
        (a is Prepare && (b is Confirm || b is Externalize)) ==> !statement_newer_spec(a, b),
        (a is Confirm && b is Externalize) ==> !statement_newer_spec(a, b),
        (a is Externalize && b is Externalize) ==> !statement_newer_spec(a, b),
        (a is Nominate && !(b is Nominate)) ==> !statement_newer_spec(a, b),
{
}

/// A nomination is older than another exactly in these cases: all its votes
/// are among the other's and it has fewer of them; or, with as many votes all
/// among the other's, all its accepted values are among the other's and it
/// has fewer of them. A nomination with a vote the other lacks is never
/// older.
pub proof fn law_nominate_older_meaning(a: NominateView, b: NominateView)
    ensures
        ((forall|i: int| 0 <= i < a.votes.len() ==> b.votes.contains(#[trigger] a.votes[i]))
            && a.votes.len() < b.votes.len()) ==> nominate_older_spec(a, b),
        ((forall|i: int| 0 <= i < a.votes.len() ==> b.votes.contains(#[trigger] a.votes[i]))
            && a.votes.len() == b.votes.len() && (forall|i: int|
            0 <= i < a.accepted.len() ==> b.accepted.contains(#[trigger] a.accepted[i]))
            && a.accepted.len() < b.accepted.len()) ==> nominate_older_spec(a, b),
        (exists|i: int| 0 <= i < a.votes.len() && !b.votes.contains(#[trigger] a.votes[i]))
            ==> !nominate_older_spec(a, b),
        a.votes.len() > b.votes.len() ==> !nominate_older_spec(a, b),
        (a.votes.len() == b.votes.len() && a.accepted.len() >= b.accepted.len())
            ==> !nominate_older_spec(a, b),
{
}

/// A ballot statement is sane exactly when its counters are consistent: a
/// PREPARE has a counter above 0 (unless the local node made it), `p'` below
/// `p` with another value when both are set, `h` at most `p`'s counter (and 0
/// without `p`), and `c` at most `h`, which is at most `b`'s counter, when `c`
/// is set; a CONFIRM has `0 < b`'s counter, `c <= h <= b`'s counter; an
/// EXTERNALIZE has `0 < c`'s counter `<= h`. A NOMINATE is never a sane ballot
/// statement, and what is sane from another node is sane from the local one.
pub proof fn law_statement_sanity(s: StatementView, from_self: bool)
    ensures
        s matches StatementView::Prepare(st) ==> (statement_sane_spec(s, from_self) <==> ((from_self
            || st.ballot.counter > 0) && (st.prepared is Some && st.prepared_prime is Some ==> (
        crate::scp::ballot_protocol::ballot_le(st.prepared_prime->0, st.prepared->0) && (st.prepared_prime->0).value != (
        st.prepared->0).value)) && (st.num_high != 0 ==> (st.prepared is Some && st.num_high <= (
        st.prepared->0).counter)) && (st.num_commit != 0 ==> (st.num_high != 0 && st.num_commit
            <= st.num_high && st.num_high <= st.ballot.counter)))),
        s matches StatementView::Confirm(st) ==> (statement_sane_spec(s, from_self) <==> (0
            < st.ballot.counter && st.num_commit <= st.num_high && st.num_high <= st.ballot.counter)),
        s matches StatementView::Externalize(st) ==> (statement_sane_spec(s, from_self) <==> (0
            < st.commit.counter && st.commit.counter <= st.num_high)),
        s is Nominate ==> !statement_sane_spec(s, from_self),
        statement_sane_spec(s, false) ==> statement_sane_spec(s, true),
{
}

/// CONFIRM statements are ordered strictly: no statement is newer than
/// itself, and being newer is transitive.
pub proof fn law_confirm_newer_strict_order(a: ConfirmView, b: ConfirmView, c: ConfirmView)
    ensures
        !confirm_newer_spec(a, a),
        confirm_newer_spec(a, b) ==> !confirm_newer_spec(b, a),
        confirm_newer_spec(a, b) && confirm_newer_spec(b, c) ==> confirm_newer_spec(a, c),
{
}

} // verus!

verus! {

/// Made by whoever holds what a new statement needs (the local node id, its
/// quorum set or its hash).
pub trait MakeStatement {
    /// A NOMINATE statement for `vote`.
    fn new_nominate_statement(&self, vote: u64) -> SCPStatementNominate;
}

} // verus!
