//! Errors and gas accounting for calls that cross into the host's backend.

use vstd::prelude::*;
use vstd::string::StringExecFns;
use crate::text::dec_str;
use crate::text::u64_to_string;

verus! {

/// The errors a backend (host storage) call can report.
#[derive(Debug, PartialEq, Eq)]
pub enum BackendError {
    BadArgument,
    ForeignPanic,
    IteratorDoesNotExist { id: u32 },
    OutOfGas,
    Unknown { msg: String },
    UserErr { msg: String },
}

impl BackendError {
    /// The rendered message of this error.
    pub open spec fn message_of(&self) -> Seq<char> {
        match self {
            BackendError::BadArgument => "bad argument passed to backend"@,
            BackendError::ForeignPanic => "panic in FFI call"@,
            BackendError::IteratorDoesNotExist { id } => "iterator with ID "@ + dec_str(
                *id as nat,
            ) + " does not exist"@,
            BackendError::OutOfGas => "ran out of gas during call into backend"@,
            BackendError::Unknown { msg } => "unknown error: "@ + msg@,
            BackendError::UserErr { msg } => "user error: "@ + msg@,
        }
    }

    pub fn bad_argument() -> (r: Self)
        ensures
            r is BadArgument,
    {
        BackendError::BadArgument
    }

    pub fn foreign_panic() -> (r: Self)
        ensures
            r is ForeignPanic,
    {
        BackendError::ForeignPanic
    }

    pub fn iterator_does_not_exist(id: u32) -> (r: Self)
        ensures
            (r matches BackendError::IteratorDoesNotExist { id: i } && i == id),
    {
        BackendError::IteratorDoesNotExist { id }
    }

    pub fn out_of_gas() -> (r: Self)
        ensures
            r is OutOfGas,
    {
        BackendError::OutOfGas
    }

    pub fn unknown(msg: String) -> (r: Self)
        ensures
            (r matches BackendError::Unknown { msg: m } && m@ == msg@),
    {
        BackendError::Unknown { msg }
    }

    pub fn user_err(msg: String) -> (r: Self)
        ensures
            (r matches BackendError::UserErr { msg: m } && m@ == msg@),
    {
        BackendError::UserErr { msg }
    }

    /// Renders the message of this error.
    pub fn message(&self) -> (r: String)
        ensures
            r@ == self.message_of(),
    {
        match self {
            BackendError::BadArgument => String::from_str("bad argument passed to backend"),
            BackendError::ForeignPanic => String::from_str("panic in FFI call"),
            BackendError::IteratorDoesNotExist { id } => {
                let mut m = String::from_str("iterator with ID ");
                m.append(u64_to_string(*id as u64).as_str());
                m.append(" does not exist");
                m
            },
            BackendError::OutOfGas => String::from_str("ran out of gas during call into backend"),
            BackendError::Unknown { msg } => {
                let mut m = String::from_str("unknown error: ");
                m.append(msg.as_str());
                m
            },
            BackendError::UserErr { msg } => {
                let mut m = String::from_str("user error: ");
                m.append(msg.as_str());
                m
            },
        }
    }
}

/// The gas cost of one backend call. The whole cost of such a call is
/// metered on the host's side, so `externally_used` carries it all.
#[derive(Clone, Copy, Debug, PartialEq, Eq, Structural)]
pub struct GasInfo {
    /// The gas the call costs the instance's budget.
    pub cost: u64,
    /// The part of the cost that the host already metered itself.
    pub externally_used: u64,
}

impl GasInfo {
    /// The cost of a call that never reached the host.
    pub open spec fn spec_free() -> GasInfo {
        GasInfo { cost: 0, externally_used: 0 }
    }

    /// A cost that the host metered in full.
    pub fn with_externally_used(amount: u64) -> (r: GasInfo)
        ensures
            r.cost == amount,
            r.externally_used == amount,
    {
        GasInfo { cost: amount, externally_used: amount }
    }

    /// A call that cost nothing.
    pub fn free() -> (r: GasInfo)
        ensures
            r == GasInfo::spec_free(),
    {
        GasInfo { cost: 0, externally_used: 0 }
    }
}

/// The result of a backend call: the outcome, and what the call cost
/// whether or not it succeeded.
pub type BackendResult<T> = (Result<T, BackendError>, GasInfo);

/// A stored key with its value.
pub type Record = (Vec<u8>, Vec<u8>);

/// The direction of a range scan.
#[derive(Clone, Copy, Debug, PartialEq, Eq, Structural)]
pub enum Order {
    Ascending,
    Descending,
}

impl Order {
    /// The encoding of the direction on the boundary.
    pub fn to_i32(&self) -> (r: i32)
        ensures
            self is Ascending ==> r == 1,
            self is Descending ==> r == 2,
    {
        match self {
            Order::Ascending => 1,
            Order::Descending => 2,
        }
    }
}

} // verus!
