use vstd::prelude::*;

use crate::scp::ballot_protocol::{compatible_spec, less_and_compatible_spec, SCPBallot};
use crate::scp::statement::{values_contain, SCPStatement, StatementView};

verus! {

/// The conditions on a node's latest statement that federated voting asks
/// about. A condition on ballot statements does not hold of a NOMINATE
/// statement, and one on NOMINATE statements does not hold of others.
pub enum StatementFilter {
    /// Every statement.
    Any,
    /// A ballot statement whose ballot counter is above the given one; an
    /// EXTERNALIZE counts as an infinite counter (the highest one).
    CounterAbove(u32),
    /// A statement showing that the node has reached the given counter: a
    /// PREPARE at that counter or above, a CONFIRM or an EXTERNALIZE.
    HeardFrom(u32),
    /// A NOMINATE statement voting for the value.
    VotedNomination(u64),
    /// A NOMINATE statement accepting the value.
    AcceptedNomination(u64),
    /// A vote to prepare the ballot: a PREPARE or CONFIRM whose ballot is
    /// compatible and not lower, or an EXTERNALIZE of its value.
    VotedPrepared(SCPBallot),
    /// A statement that accepts the ballot as prepared.
    HasPrepared(SCPBallot),
    /// A vote to commit the ballot's value at every counter of the interval.
    VotedCommit(SCPBallot, u32, u32),
    /// A statement that accepts commit of the ballot's value over the interval.
    AcceptedCommit(SCPBallot, u32, u32),
    /// Either condition.
    Or(Box<StatementFilter>, Box<StatementFilter>),
}

/// `ballot` is accepted as prepared by the statement.
pub open spec fn has_prepared_ballot_spec(ballot: SCPBallot, s: StatementView) -> bool {
    match s {
        StatementView::Prepare(st) => {
            (st.prepared matches Some(p) && less_and_compatible_spec(ballot, p)) || (
            st.prepared_prime matches Some(pp) && less_and_compatible_spec(ballot, pp))
        },
        StatementView::Confirm(st) => less_and_compatible_spec(
            ballot,
            SCPBallot { counter: st.num_prepared, value: st.ballot.value },
        ),
        StatementView::Externalize(st) => compatible_spec(ballot, st.commit),
        StatementView::Nominate(_) => false,
    }
}

/// The statement accepts commit of `ballot`'s value over `[lo, hi]`; a
/// CONFIRM is judged on its `h` against both ends.
pub open spec fn commit_predicate_spec(ballot: SCPBallot, lo: u32, hi: u32, s: StatementView) -> bool {
    match s {
        StatementView::Prepare(_) => false,
        StatementView::Confirm(st) => compatible_spec(ballot, st.ballot) && st.num_high <= lo && hi
            <= st.num_high,
        StatementView::Externalize(st) => compatible_spec(ballot, st.commit) && st.commit.counter
            <= lo,
        StatementView::Nominate(_) => false,
    }
}

pub open spec fn filter_holds(f: StatementFilter, s: StatementView) -> bool
    decreases f,
{
    match f {
        StatementFilter::Any => true,
        StatementFilter::CounterAbove(n) => match s {
            StatementView::Prepare(st) => st.ballot.counter > n,
            StatementView::Confirm(st) => st.ballot.counter > n,
            StatementView::Externalize(_) => n < u32::MAX,
            StatementView::Nominate(_) => false,
        },
        StatementFilter::HeardFrom(n) => match s {
            StatementView::Prepare(st) => n <= st.ballot.counter,
            StatementView::Confirm(_) => true,
            StatementView::Externalize(_) => true,
            StatementView::Nominate(_) => false,
        },
        StatementFilter::VotedNomination(v) => match s {
            StatementView::Nominate(st) => st.votes.contains(v),
            _ => false,
        },
        StatementFilter::AcceptedNomination(v) => match s {
            StatementView::Nominate(st) => st.accepted.contains(v),
            _ => false,
        },
        StatementFilter::VotedPrepared(b) => match s {
            StatementView::Prepare(st) => less_and_compatible_spec(b, st.ballot),
            StatementView::Confirm(st) => less_and_compatible_spec(b, st.ballot),
            StatementView::Externalize(st) => compatible_spec(b, st.commit),
            StatementView::Nominate(_) => false,
        },
        StatementFilter::HasPrepared(b) => has_prepared_ballot_spec(b, s),
        StatementFilter::VotedCommit(b, lo, hi) => match s {
            StatementView::Prepare(st) => compatible_spec(b, st.ballot) && st.num_commit != 0
                && st.num_commit <= lo && hi <= st.num_high,
            StatementView::Confirm(st) => compatible_spec(b, st.ballot) && st.num_commit <= lo,
            StatementView::Externalize(st) => compatible_spec(b, st.commit) && st.commit.counter
                <= lo,
            StatementView::Nominate(_) => false,
        },
        StatementFilter::AcceptedCommit(b, lo, hi) => commit_predicate_spec(b, lo, hi, s),
        StatementFilter::Or(a, b) => filter_holds(*a, s) || filter_holds(*b, s),
    }
}

/// Whether `ballot` is accepted as prepared by the statement.
pub fn has_prepared_ballot(ballot: &SCPBallot, statement: &SCPStatement) -> (r: bool)
    ensures
        r == has_prepared_ballot_spec(*ballot, statement@),
{
    match statement {
        SCPStatement::Prepare(st) => {
            (match &st.prepared {
                Some(p) => ballot.less_and_compatible(p),
                None => false,
            }) || (match &st.prepared_prime {
                Some(pp) => ballot.less_and_compatible(pp),
                None => false,
            })
        },
        SCPStatement::Confirm(st) => ballot.less_and_compatible(
            &SCPBallot::new(st.num_prepared, st.ballot.value),
        ),
        SCPStatement::Externalize(st) => ballot.compatible(&st.commit),
        SCPStatement::Nominate(_) => false,
    }
}

/// Whether the statement accepts commit of `ballot`'s value over `check`.
pub fn commit_predicate(ballot: &SCPBallot, check: &(u32, u32), statement: &SCPStatement) -> (r:
    bool)
    ensures
        r == commit_predicate_spec(*ballot, check.0, check.1, statement@),
{
    match statement {
        SCPStatement::Prepare(_) => false,
        SCPStatement::Confirm(st) => {
            if ballot.compatible(&st.ballot) {
                st.num_high <= check.0 && check.1 <= st.num_high
            } else {
                false
            }
        },
        SCPStatement::Externalize(st) => {
            if ballot.compatible(&st.commit) {
                st.commit.counter <= check.0
            } else {
                false
            }
        },
        SCPStatement::Nominate(_) => false,
    }
}

impl StatementFilter {
    /// Whether the condition holds of the statement.
    pub fn holds(&self, s: &SCPStatement) -> (r: bool)
        ensures
            r == filter_holds(*self, s@),
        decreases self,
    {
        match self {
            StatementFilter::Any => true,
            StatementFilter::CounterAbove(n) => match s {
                SCPStatement::Prepare(st) => st.ballot.counter > *n,
                SCPStatement::Confirm(st) => st.ballot.counter > *n,
                SCPStatement::Externalize(_) => *n < 0xffff_ffffu32,
                SCPStatement::Nominate(_) => false,
            },
            StatementFilter::HeardFrom(n) => match s {
                SCPStatement::Prepare(st) => *n <= st.ballot.counter,
                SCPStatement::Confirm(_) => true,
                SCPStatement::Externalize(_) => true,
                SCPStatement::Nominate(_) => false,
            },
            StatementFilter::VotedNomination(v) => match s {
                SCPStatement::Nominate(st) => values_contain(&st.votes, *v),
                _ => false,
            },
            StatementFilter::AcceptedNomination(v) => match s {
                SCPStatement::Nominate(st) => values_contain(&st.accepted, *v),
                _ => false,
            },
            StatementFilter::VotedPrepared(b) => match s {
                SCPStatement::Prepare(st) => b.less_and_compatible(&st.ballot),
                SCPStatement::Confirm(st) => b.less_and_compatible(&st.ballot),
                SCPStatement::Externalize(st) => b.compatible(&st.commit),
                SCPStatement::Nominate(_) => false,
            },
            StatementFilter::HasPrepared(b) => has_prepared_ballot(b, s),
            StatementFilter::VotedCommit(b, lo, hi) => match s {
                SCPStatement::Prepare(st) => b.compatible(&st.ballot) && st.num_commit != 0
                    && st.num_commit <= *lo && *hi <= st.num_high,
                SCPStatement::Confirm(st) => b.compatible(&st.ballot) && st.num_commit <= *lo,
                SCPStatement::Externalize(st) => b.compatible(&st.commit) && st.commit.counter
                    <= *lo,
                SCPStatement::Nominate(_) => false,
            },
            StatementFilter::AcceptedCommit(b, lo, hi) => commit_predicate(b, &(*lo, *hi), s),
            StatementFilter::Or(a, b) => a.holds(s) || b.holds(s),
        }
    }
}

/// `accept_predicate`: the statement is a NOMINATE that accepts `value`.
pub fn accept_predicate(value: &u64, statement: &SCPStatement) -> (r: bool)
    ensures
        r == filter_holds(StatementFilter::AcceptedNomination(*value), statement@),
{
    match statement {
        SCPStatement::Nominate(st) => values_contain(&st.accepted, *value),
        _ => false,
    }
}

} // verus!
