//! Symbolic references to trace cells.

use vstd::prelude::*;
use crate::symbolic_expression::{SymbolicExpression, spec_add, spec_sub, spec_mul};

verus! {

/// Where a symbolic variable lives. `offset` is `0` for the current row and `1`
/// for the next row of the two-row window.
#[derive(Clone, Copy, Debug, PartialEq, Eq, Structural, Hash)]
pub enum Entry {
    Preprocessed { offset: usize },
    Main { offset: usize },
    Permutation { offset: usize },
    Public,
    Challenge,
}

/// A variable within the evaluation window: a column of a table, at a row offset.
#[derive(Clone, Copy, Debug, PartialEq, Eq, Structural, Hash)]
pub struct SymbolicVariable {
    pub entry: Entry,
    pub index: usize,
}

/// Degree contribution of a variable: one for trace columns, none for public
/// values and challenges.
pub open spec fn entry_degree(e: Entry) -> nat {
    match e {
        Entry::Preprocessed { .. } | Entry::Main { .. } | Entry::Permutation { .. } => 1,
        Entry::Public | Entry::Challenge => 0,
    }
}

impl SymbolicVariable {
    pub fn new(entry: Entry, index: usize) -> (r: SymbolicVariable)
        ensures
            r.entry == entry,
            r.index == index,
    {
        SymbolicVariable { entry, index }
    }

    pub fn degree_multiple(&self) -> (r: usize)
        ensures
            r == entry_degree(self.entry),
    {
        match self.entry {
            Entry::Preprocessed { .. } | Entry::Main { .. } | Entry::Permutation { .. } => 1,
            Entry::Public | Entry::Challenge => 0,
        }
    }
}

impl SymbolicVariable {
    /// `self + rhs`, simplified.
    pub fn add(self, rhs: SymbolicExpression) -> (r: SymbolicExpression)
        requires
            rhs.wf(),
        ensures
            r == spec_add(SymbolicExpression::Variable(self), rhs),
            r.wf(),
    {
        SymbolicExpression::Variable(self).add(rhs)
    }

    /// `self - rhs`, simplified.
    pub fn sub(self, rhs: SymbolicExpression) -> (r: SymbolicExpression)
        requires
            rhs.wf(),
        ensures
            r == spec_sub(SymbolicExpression::Variable(self), rhs),
            r.wf(),
    {
        SymbolicExpression::Variable(self).sub(rhs)
    }

    /// `self * rhs`, simplified.
    pub fn mul(self, rhs: SymbolicExpression) -> (r: SymbolicExpression)
        requires
            rhs.wf(),
            rhs.degree() < usize::MAX,
        ensures
            r == spec_mul(SymbolicExpression::Variable(self), rhs),
            r.wf(),
    {
        SymbolicExpression::Variable(self).mul(rhs)
    }
}

} // verus!
