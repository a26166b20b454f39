use vstd::prelude::*;

verus! {

/// The error surface of the engine excerpt.
///
/// `Execution` aborts the running partition (I/O, child stream, take or hash
/// failures), `Plan` reports an invalid plan (bad partitioning scheme, bad
/// data type for an aggregate), and `Internal` marks an implementation bug.
#[derive(Debug)]
pub enum EngineError {
    Execution(String),
    Plan(String),
    Internal(String),
}

impl EngineError {
    /// The human-readable message carried by the error.
    pub fn message(&self) -> (r: &String)
        ensures
            *r == self.spec_message(),
    {
        match self {
            EngineError::Execution(m) => m,
            EngineError::Plan(m) => m,
            EngineError::Internal(m) => m,
        }
    }

    pub open spec fn spec_message(&self) -> String {
        match self {
            EngineError::Execution(m) => *m,
            EngineError::Plan(m) => *m,
            EngineError::Internal(m) => *m,
        }
    }

    pub fn is_execution(&self) -> (r: bool)
        ensures
            r == (self is Execution),
    {
        matches!(self, EngineError::Execution(_))
    }

    pub fn is_plan(&self) -> (r: bool)
        ensures
            r == (self is Plan),
    {
        matches!(self, EngineError::Plan(_))
    }

    pub fn is_internal(&self) -> (r: bool)
        ensures
            r == (self is Internal),
    {
        matches!(self, EngineError::Internal(_))
    }
}

} // verus!
