//! The status codes the host returns from its callbacks, and their mapping
//! into backend errors.

use vstd::prelude::*;
use crate::backend::BackendError;
use crate::memory::UnmanagedVector;
use crate::text::lossy_of;
use crate::text::lossy_string;

verus! {

/// The longest error message accepted from the host, in bytes.
pub const MAX_ERROR_LEN: usize = 8192;

/// A status code returned from a host callback. Zero means no error; any
/// code outside the defined set is read as `Other`, never as a fault.
#[derive(Clone, Copy, Debug, PartialEq, Eq, Structural)]
pub enum GoError {
    NoError,
    /// The host panicked for an unexpected reason.
    Panic,
    /// The host received a bad argument from this side.
    BadArgument,
    /// The host ran out of gas while serving the call.
    OutOfGas,
    /// The host failed to serialize data.
    CannotSerialize,
    /// An error during normal operation of a host callback, fed back to the
    /// contract.
    User,
    /// A fallback for any code this side does not know.
    Other,
}

impl GoError {
    /// The status a numeric code on the boundary stands for.
    pub open spec fn code_spec(n: i32) -> GoError {
        if n == 0 {
            GoError::NoError
        } else if n == 1 {
            GoError::Panic
        } else if n == 2 {
            GoError::BadArgument
        } else if n == 3 {
            GoError::OutOfGas
        } else if n == 4 {
            GoError::CannotSerialize
        } else if n == 5 {
            GoError::User
        } else {
            GoError::Other
        }
    }

    /// Reads a numeric code from the boundary.
    pub fn from_code(n: i32) -> (r: GoError)
        ensures
            r == GoError::code_spec(n),
    {
        if n == 0 {
            GoError::NoError
        } else if n == 1 {
            GoError::Panic
        } else if n == 2 {
            GoError::BadArgument
        } else if n == 3 {
            GoError::OutOfGas
        } else if n == 4 {
            GoError::CannotSerialize
        } else if n == 5 {
            GoError::User
        } else {
            GoError::Other
        }
    }

    /// The message carried to the contract: the host's message, truncated
    /// and decoded lossily, or the given default when the host sent none.
    pub open spec fn built_msg(data: Option<Seq<u8>>, default: Seq<char>) -> Seq<char> {
        match data {
            Some(m) => lossy_of(
                if m.len() > MAX_ERROR_LEN {
                    m.take(MAX_ERROR_LEN as int)
                } else {
                    m
                },
            ),
            None => default,
        }
    }

    /// Converts this status into a result, consuming the host's message
    /// buffer exactly once, on every branch.
    ///
    /// A `User` status carries the host's message back to the contract; the
    /// other failures trap. The message is limited to [`MAX_ERROR_LEN`]
    /// bytes and decoded lossily, to be safe against whatever the host sent;
    /// when the host sent none, `default_error_msg` stands in.
    pub fn into_result(self, error_msg: UnmanagedVector, default_error_msg: &str) -> (r: Result<
        (),
        BackendError,
    >)
        ensures
            (r is Ok <==> self is NoError),
            self is Panic ==> (r matches Err(e) && e is ForeignPanic),
            self is BadArgument ==> (r matches Err(e) && e is BadArgument),
            self is OutOfGas ==> (r matches Err(e) && e is OutOfGas),
            self is User ==> (r matches Err(e) && e matches BackendError::UserErr { msg } && msg@
                == GoError::built_msg(error_msg@, default_error_msg@)),
            (self is CannotSerialize || self is Other) ==> (r matches Err(e) && e matches
                BackendError::Unknown { msg } && msg@ == GoError::built_msg(
                error_msg@,
                default_error_msg@,
            )),
    {
        let data = error_msg.consume();
        match self {
            GoError::NoError => Ok(()),
            GoError::Panic => Err(BackendError::foreign_panic()),
            GoError::BadArgument => Err(BackendError::bad_argument()),
            GoError::OutOfGas => Err(BackendError::out_of_gas()),
            GoError::User => Err(BackendError::user_err(build_error_msg(data, default_error_msg))),
            GoError::CannotSerialize => Err(
                BackendError::unknown(build_error_msg(data, default_error_msg)),
            ),
            GoError::Other => Err(BackendError::unknown(build_error_msg(data, default_error_msg))),
        }
    }
}

/// Renders the host's optional message: truncated and decoded lossily, or
/// the default.
fn build_error_msg(data: Option<Vec<u8>>, default_error_msg: &str) -> (r: String)
    ensures
        r@ == GoError::built_msg(
            match data {
                Some(d) => Some(d@),
                None => None,
            },
            default_error_msg@,
        ),
{
    match data {
        Some(mut d) => {
            if d.len() > MAX_ERROR_LEN {
                d.truncate(MAX_ERROR_LEN);
            }
            lossy_string(&d)
        },
        None => default_error_msg.to_owned(),
    }
}

} // verus!
