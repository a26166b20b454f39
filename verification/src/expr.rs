//! Key expressions.
//!
//! The shuffle writer's hash partitioning evaluates a list of key expressions
//! against each batch. The expressions the core consumes are column
//! references: an expression names a column and its index in the batch.
use vstd::prelude::*;

verus! {

/// A reference to one column of a batch.
#[derive(Debug, PartialEq, Eq)]
pub struct ColumnExpr {
    pub name: String,
    pub index: usize,
}

impl ColumnExpr {
    /// Builds a reference to the column called `name` at position `index`.
    pub fn new(name: String, index: usize) -> (r: ColumnExpr)
        ensures
            r.name == name,
            r.index == index,
    {
        ColumnExpr { name, index }
    }
}

impl Clone for ColumnExpr {
    fn clone(&self) -> (r: Self)
        ensures
            r == *self,
    {
        ColumnExpr { name: self.name.clone(), index: self.index }
    }
}

} // verus!
