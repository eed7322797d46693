//! Error translation: every failure of the underlying storage engine is
//! wrapped into one of three domain kinds — setup, write, read — according
//! to the operation during which it struck.

use vstd::prelude::*;

verus! {

/// The operation a store call was performing when a failure occurred.
#[derive(Clone, Copy, Debug, PartialEq, Eq, Structural)]
pub enum Operation {
    /// Parsing the storage location, opening the pool, or applying migrations.
    Setup,
    /// Appending one record to the journal.
    Write,
    /// A point or range lookup.
    Read,
}

/// A domain failure: the kind names the operation that failed, the payload
/// carries the underlying cause's text verbatim.
#[derive(Clone, Debug)]
pub enum StoreError {
    Setup(String),
    Write(String),
    Read(String),
}

impl StoreError {
    /// Which of the three domain kinds this failure is.
    pub open spec fn kind(self) -> Operation {
        match self {
            StoreError::Setup(_) => Operation::Setup,
            StoreError::Write(_) => Operation::Write,
            StoreError::Read(_) => Operation::Read,
        }
    }

    /// The underlying cause's text, as wrapped.
    pub open spec fn cause(self) -> Seq<char> {
        match self {
            StoreError::Setup(c) => c@,
            StoreError::Write(c) => c@,
            StoreError::Read(c) => c@,
        }
    }

    /// A readable rendering of the failure: its cause text.
    pub fn message(&self) -> (r: &str)
        ensures
            r@ == self.cause(),
    {
        match self {
            StoreError::Setup(c) => c.as_str(),
            StoreError::Write(c) => c.as_str(),
            StoreError::Read(c) => c.as_str(),
        }
    }
}

/// Wrap a low-level cause into the domain kind of the operation that failed:
/// the cause text is kept verbatim, never swallowed.
pub fn translate(op: Operation, cause: String) -> (r: StoreError)
    ensures
        r.kind() == op,
        r.cause() == cause@,
{
    match op {
        Operation::Setup => StoreError::Setup(cause),
        Operation::Write => StoreError::Write(cause),
        Operation::Read => StoreError::Read(cause),
    }
}

} // verus!
