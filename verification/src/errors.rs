//! The local error taxonomy and the status channel of the boundary.
//!
//! Every boundary call ends by mapping its `Result` through one of the
//! `handle_c_error_*` functions: the value (or a default) is returned, the
//! rendered error message is written into the caller's message slot, and a
//! status is handed back for the caller's process-wide indicator. A call
//! never reports success and a populated message at the same time.

use vstd::prelude::*;
use vstd::string::StrSliceExecFns;
use vstd::string::StringExecFns;
use vstd::utf8::encode_utf8;
use crate::memory::UnmanagedVector;
use crate::text::dec_str;
use crate::text::usize_to_string;

verus! {

/// The errors this library reports across the boundary.
#[derive(Debug)]
pub enum RustError {
    /// An argument was present but empty.
    EmptyArg { name: String },
    /// Bytes that were expected to be UTF-8 text were not.
    InvalidUtf8 { msg: String },
    /// The gas budget of the call ran out.
    OutOfGas,
    /// A fault was caught at the boundary instead of unwinding across it.
    Panic,
    /// An argument was missing altogether.
    UnsetArg { name: String },
    /// The execution engine reported an error.
    VmErr { msg: String },
}

impl RustError {
    /// The rendered message of this error.
    pub open spec fn message_of(&self) -> Seq<char> {
        match self {
            RustError::EmptyArg { name } => "Empty argument: "@ + name@,
            RustError::InvalidUtf8 { msg } => "Cannot decode UTF8 bytes into string: "@ + msg@,
            RustError::OutOfGas => "Ran out of gas"@,
            RustError::Panic => "Caught panic"@,
            RustError::UnsetArg { name } => "Null/Nil argument: "@ + name@,
            RustError::VmErr { msg } => "Error calling the VM: "@ + msg@,
        }
    }

    pub fn empty_arg(name: &str) -> (r: Self)
        ensures
            (r matches RustError::EmptyArg { name: n } && n@ == name@),
    {
        RustError::EmptyArg { name: name.to_owned() }
    }

    pub fn invalid_utf8(msg: &str) -> (r: Self)
        ensures
            (r matches RustError::InvalidUtf8 { msg: m } && m@ == msg@),
    {
        RustError::InvalidUtf8 { msg: msg.to_owned() }
    }

    /// The error for bytes that failed UTF-8 decoding, carrying the message
    /// std renders for the same fault: the index up to which the input was
    /// valid, and the length of the offending sequence, or word of an input
    /// that ended in the middle of a character.
    pub fn invalid_utf8_at(valid_up_to: usize, error_len: Option<usize>) -> (r: Self)
        ensures
            (r matches RustError::InvalidUtf8 { msg: m } && m@ == invalid_utf8_msg(
                valid_up_to as nat,
                match error_len {
                    Some(l) => Some(l as nat),
                    None => None,
                },
            )),
    {
        let mut m: String;
        match error_len {
            Some(l) => {
                m = String::from_str("invalid utf-8 sequence of ");
                m.append(usize_to_string(l).as_str());
                m.append(" bytes from index ");
                m.append(usize_to_string(valid_up_to).as_str());
            },
            None => {
                m = String::from_str("incomplete utf-8 byte sequence from index ");
                m.append(usize_to_string(valid_up_to).as_str());
            },
        }
        RustError::InvalidUtf8 { msg: m }
    }

    pub fn panic() -> (r: Self)
        ensures
            r is Panic,
    {
        RustError::Panic
    }

    pub fn unset_arg(name: &str) -> (r: Self)
        ensures
            (r matches RustError::UnsetArg { name: n } && n@ == name@),
    {
        RustError::UnsetArg { name: name.to_owned() }
    }

    pub fn vm_err(msg: &str) -> (r: Self)
        ensures
            (r matches RustError::VmErr { msg: m } && m@ == msg@),
    {
        RustError::VmErr { msg: msg.to_owned() }
    }

    pub fn vm_err_string(msg: String) -> (r: Self)
        ensures
            (r matches RustError::VmErr { msg: m } && m@ == msg@),
    {
        RustError::VmErr { msg }
    }

    pub fn out_of_gas() -> (r: Self)
        ensures
            r is OutOfGas,
    {
        RustError::OutOfGas
    }

    /// Renders the message of this error.
    pub fn message(&self) -> (r: String)
        ensures
            r@ == self.message_of(),
    {
        match self {
            RustError::EmptyArg { name } => {
                let mut m = String::from_str("Empty argument: ");
                m.append(name.as_str());
                m
            },
            RustError::InvalidUtf8 { msg } => {
                let mut m = String::from_str("Cannot decode UTF8 bytes into string: ");
                m.append(msg.as_str());
                m
            },
            RustError::OutOfGas => String::from_str("Ran out of gas"),
            RustError::Panic => String::from_str("Caught panic"),
            RustError::UnsetArg { name } => {
                let mut m = String::from_str("Null/Nil argument: ");
                m.append(name.as_str());
                m
            },
            RustError::VmErr { msg } => {
                let mut m = String::from_str("Error calling the VM: ");
                m.append(msg.as_str());
                m
            },
        }
    }
}

/// The message std renders for a UTF-8 decoding fault.
pub open spec fn invalid_utf8_msg(valid_up_to: nat, error_len: Option<nat>) -> Seq<char> {
    match error_len {
        Some(l) => "invalid utf-8 sequence of "@ + dec_str(l) + " bytes from index "@ + dec_str(
            valid_up_to,
        ),
        None => "incomplete utf-8 byte sequence from index "@ + dec_str(valid_up_to),
    }
}

/// The process-wide status indicator set after every boundary call.
///
/// Running out of gas is reported apart from every other failure, so the
/// host can bill it differently.
#[derive(Clone, Copy, Debug, PartialEq, Eq, Structural)]
pub enum ErrnoValue {
    Success,
    Other,
    OutOfGas,
}

/// The status reported for an error: out of gas is told apart from the rest.
pub open spec fn errno_for(err: &RustError) -> ErrnoValue {
    if err is OutOfGas {
        ErrnoValue::OutOfGas
    } else {
        ErrnoValue::Other
    }
}

impl ErrnoValue {
    /// The numeric code of this status on the boundary.
    pub fn to_code(&self) -> (r: i32)
        ensures
            self is Success ==> r == 0,
            self is Other ==> r == 1,
            self is OutOfGas ==> r == 2,
    {
        match self {
            ErrnoValue::Success => 0,
            ErrnoValue::Other => 1,
            ErrnoValue::OutOfGas => 2,
        }
    }
}

/// Writes the rendered message of `err` into the caller's message slot and
/// returns the status to report.
pub fn set_error(err: RustError, error_msg: &mut UnmanagedVector) -> (r: ErrnoValue)
    ensures
        final(error_msg)@ == Some(encode_utf8(err.message_of())),
        r == errno_for(&err),
{
    let msg = err.message();
    let bytes = msg.as_str().as_bytes_vec();
    *error_msg = UnmanagedVector::some(bytes);
    match err {
        RustError::OutOfGas => ErrnoValue::OutOfGas,
        _ => ErrnoValue::Other,
    }
}

/// On success, returns the bytes with a clear status and leaves the message
/// slot alone; on failure, returns empty bytes, writes the message, and
/// reports the error's status.
pub fn handle_c_error_binary(result: Result<Vec<u8>, RustError>, error_msg: &mut UnmanagedVector)
    -> (r: (Vec<u8>, ErrnoValue))
    ensures
        (r.1 is Success <==> result is Ok),
        (result matches Ok(v) ==> r.0 == v && *final(error_msg) == *old(error_msg)),
        (result matches Err(e) ==> r.0@ == Seq::<u8>::empty() && r.1 == errno_for(&e)
            && final(error_msg)@ == Some(encode_utf8(e.message_of()))),
{
    match result {
        Ok(value) => (value, ErrnoValue::Success),
        Err(error) => {
            let status = set_error(error, error_msg);
            (Vec::new(), status)
        },
    }
}

/// As [`handle_c_error_binary`], but the value on failure is the type's
/// default.
pub fn handle_c_error_default<T: Default>(
    result: Result<T, RustError>,
    error_msg: &mut UnmanagedVector,
) -> (r: (T, ErrnoValue))
    ensures
        (r.1 is Success <==> result is Ok),
        (result matches Ok(v) ==> r.0 == v && *final(error_msg) == *old(error_msg)),
        (result matches Err(e) ==> r.1 == errno_for(&e)
            && final(error_msg)@ == Some(encode_utf8(e.message_of()))),
{
    match result {
        Ok(value) => (value, ErrnoValue::Success),
        Err(error) => {
            let status = set_error(error, error_msg);
            (T::default(), status)
        },
    }
}

/// As [`handle_c_error_binary`], but for calls that hand back an owned
/// object: the object on success, nothing on failure.
pub fn handle_c_error_ptr<T>(result: Result<T, RustError>, error_msg: &mut UnmanagedVector) -> (r:
    (Option<T>, ErrnoValue))
    ensures
        (r.1 is Success <==> result is Ok),
        (result matches Ok(v) ==> r.0 == Some(v) && *final(error_msg) == *old(error_msg)),
        (result matches Err(e) ==> r.0 is None && r.1 == errno_for(&e) && final(error_msg)@
            == Some(encode_utf8(e.message_of()))),
{
    match result {
        Ok(value) => (Some(value), ErrnoValue::Success),
        Err(error) => {
            let status = set_error(error, error_msg);
            (None, status)
        },
    }
}

} // verus!
