//! Errors of the storage workflows.

use vstd::prelude::*;

verus! {

/// Why a storage workflow failed.
#[derive(Debug, Clone, Copy, PartialEq, Eq, Structural)]
pub enum CrudError {
    /// A row could not be inserted.
    Insertion,
    /// No connection pool could be made.
    Pooling,
    /// A transaction could not be begun, committed or rolled back.
    Transaction,
    /// What the caller handed in is no valid job.
    Validation,
    /// Rows could not be read.
    Read,
}

impl CrudError {
    /// The reason, in words.
    pub open spec fn reason_spec(self) -> Seq<char> {
        match self {
            CrudError::Insertion => "Cannot Insert into Database"@,
            CrudError::Pooling => "Unable to Pool Database"@,
            CrudError::Read => "Unable to Read from Database"@,
            CrudError::Transaction => "Unable to create Transaction"@,
            CrudError::Validation => "Invalid JSON Parameters"@,
        }
    }

    /// The reason, in words.
    pub fn reason(self) -> (r: &'static str)
        ensures
            r@ == self.reason_spec(),
    {
        match self {
            CrudError::Insertion => "Cannot Insert into Database",
            CrudError::Pooling => "Unable to Pool Database",
            CrudError::Read => "Unable to Read from Database",
            CrudError::Transaction => "Unable to create Transaction",
            CrudError::Validation => "Invalid JSON Parameters",
        }
    }

    /// The fields of the error response: the status and the reason, in this
    /// order.
    pub fn map(&self) -> (r: Vec<(&'static str, &'static str)>)
        ensures
            is_error_map(r@, *self),
    {
        error_map(*self)
    }
}

/// Whether `fields` are those of the response to `error`: `status` with the
/// value `error`, then `reason` with the error's reason.
pub open spec fn is_error_map(fields: Seq<(&'static str, &'static str)>, error: CrudError) -> bool {
    &&& fields.len() == 2
    &&& fields[0].0@ == "status"@
    &&& fields[0].1@ == "error"@
    &&& fields[1].0@ == "reason"@
    &&& fields[1].1@ == error.reason_spec()
}

/// The fields of the response to `error`.
pub fn error_map(error: CrudError) -> (r: Vec<(&'static str, &'static str)>)
    ensures
        is_error_map(r@, error),
{
    let mut fields: Vec<(&'static str, &'static str)> = Vec::with_capacity(2);
    fields.push(("status", "error"));
    fields.push(("reason", error.reason()));
    fields
}

} // verus!
