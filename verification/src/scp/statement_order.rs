use vstd::prelude::*;

use std::cmp::Ordering;

use crate::scp::statement::{statement_type_rank, SCPStatementType};

verus! {

/// Statement kinds are ordered by their rank.
pub open spec fn statement_type_order(a: SCPStatementType, b: SCPStatementType) -> Option<Ordering> {
    if statement_type_rank(a) < statement_type_rank(b) {
        Some(Ordering::Less)
    } else if statement_type_rank(a) == statement_type_rank(b) {
        Some(Ordering::Equal)
    } else {
        Some(Ordering::Greater)
    }
}

impl PartialOrd for SCPStatementType {
    fn partial_cmp(&self, other: &Self) -> (r: Option<Ordering>) {
        let a = self.value();
        let b = other.value();
        if a < b {
            Some(Ordering::Less)
        } else if a == b {
            Some(Ordering::Equal)
        } else {
            Some(Ordering::Greater)
        }
    }
}

impl vstd::std_specs::cmp::PartialOrdSpecImpl for SCPStatementType {
    open spec fn obeys_partial_cmp_spec() -> bool {
        true
    }

    open spec fn partial_cmp_spec(&self, other: &Self) -> Option<Ordering> {
        statement_type_order(*self, *other)
    }
}

} // verus!
