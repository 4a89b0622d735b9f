//! Remote cursors: handles into iterator state the host keeps.

use vstd::prelude::*;
use crate::backend::BackendError;
use crate::backend::BackendResult;
use crate::backend::GasInfo;
use crate::backend::Record;
use crate::db::HostRead;
use crate::db::IteratorVtable;
use crate::db::gas_meter_t;
use crate::go_error::GoError;
use vstd::string::StringExecFns;

verus! {

/// The host's reference to one of its cursors.
#[derive(Clone, Copy, Debug, PartialEq, Eq, Structural)]
#[allow(non_camel_case_types)]
pub struct iterator_t {
    /// An ID the host assigned to this contract call.
    pub call_id: u64,
    /// The cursor's index within the host's tables.
    pub iterator_index: u64,
}

impl iterator_t {
    pub fn empty() -> (r: Self)
        ensures
            r.call_id == 0,
            r.iterator_index == 0,
    {
        iterator_t { call_id: 0, iterator_index: 0 }
    }
}

/// Which cursor operations the host filled in when it opened the scan.
#[derive(Clone, Copy, Debug, PartialEq, Eq, Structural)]
#[allow(non_camel_case_types)]
pub struct Iterator_vtable {
    pub has_next: bool,
    pub has_next_key: bool,
    pub has_next_value: bool,
}

impl Iterator_vtable {
    pub fn empty() -> (r: Self)
        ensures
            !r.has_next,
            !r.has_next_key,
            !r.has_next_value,
    {
        Iterator_vtable { has_next: false, has_next_key: false, has_next_value: false }
    }
}

/// One remote cursor: the host's reference and the operations it supports.
#[derive(Clone, Copy, Debug, PartialEq, Eq, Structural)]
pub struct GoIter {
    pub state: iterator_t,
    pub vtable: Iterator_vtable,
}

/// How a cursor read relates one host response to the bridge's result: the
/// cost is what the host metered, a nonzero status maps as every backend
/// status does, and a missing output is the cursor's end.
pub open spec fn read_outcome_matches(
    r: BackendResult<Option<Vec<u8>>>,
    status: i32,
    output: Option<Seq<u8>>,
    errm: Option<Seq<u8>>,
    gas: u64,
    default: Seq<char>,
) -> bool {
    &&& r.1 == (GasInfo { cost: gas, externally_used: gas })
    &&& match GoError::code_spec(status) {
        GoError::NoError => (r.0 matches Ok(v) && (match v {
            Some(bytes) => output == Some(bytes@),
            None => output is None,
        })),
        code => (r.0 matches Err(e) && backend_error_matches(e, code, errm, default)),
    }
}

/// How a full cursor step relates one host response to the bridge's result:
/// a key without a value is itself a bridge fault, never a silent end.
pub open spec fn next_outcome_matches(
    r: BackendResult<Option<Record>>,
    status: i32,
    key: Option<Seq<u8>>,
    value: Option<Seq<u8>>,
    errm: Option<Seq<u8>>,
    gas: u64,
) -> bool {
    &&& r.1 == (GasInfo { cost: gas, externally_used: gas })
    &&& match GoError::code_spec(status) {
        GoError::NoError => match key {
            Some(k) => match value {
                Some(v) => (r.0 matches Ok(p) && p matches Some(kv) && kv.0@ == k && kv.1@ == v),
                None => (r.0 matches Err(e) && e matches BackendError::Unknown { msg } && msg@
                    == "Failed to read value while reading the next key in the db"@),
            },
            None => (r.0 matches Ok(p) && p is None),
        },
        code => (r.0 matches Err(e) && backend_error_matches(
            e,
            code,
            errm,
            "Failed to fetch next item from iterator"@,
        )),
    }
}

/// How one failing host status maps to a backend error, given the host's
/// optional message and the operation's default message.
pub open spec fn backend_error_matches(
    e: BackendError,
    code: GoError,
    errm: Option<Seq<u8>>,
    default: Seq<char>,
) -> bool {
    match code {
        GoError::NoError => false,
        GoError::Panic => e is ForeignPanic,
        GoError::BadArgument => e is BadArgument,
        GoError::OutOfGas => e is OutOfGas,
        GoError::User => (e matches BackendError::UserErr { msg } && msg@ == GoError::built_msg(
            errm,
            default,
        )),
        _ => (e matches BackendError::Unknown { msg } && msg@ == GoError::built_msg(
            errm,
            default,
        )),
    }
}

impl GoIter {
    pub fn new() -> (r: Self)
        ensures
            r.state.call_id == 0,
            r.state.iterator_index == 0,
            !r.vtable.has_next,
            !r.vtable.has_next_key,
            !r.vtable.has_next_value,
    {
        GoIter { state: iterator_t::empty(), vtable: Iterator_vtable::empty() }
    }

    /// Fetches the cursor's next record. All output buffers of the host's
    /// response are consumed here, whether or not they are needed.
    pub fn next<I: IteratorVtable>(&self, host: &mut I, gas_meter: &mut gas_meter_t) -> (r:
        BackendResult<Option<Record>>)
        ensures
            !self.vtable.has_next ==> (r.0 matches Err(e) && e matches BackendError::Unknown { msg }
                && msg@ == "iterator vtable function 'next' not set"@ && r.1 == GasInfo::spec_free()),
            self.vtable.has_next ==> exists|
                status: i32,
                key: Option<Seq<u8>>,
                value: Option<Seq<u8>>,
                errm: Option<Seq<u8>>,
                gas: u64,
            | next_outcome_matches(r, status, key, value, errm, gas),
    {
        if !self.vtable.has_next {
            let result = Err(
                BackendError::unknown(String::from_str("iterator vtable function 'next' not set")),
            );
            return (result, GasInfo::free());
        }
        let resp = host.next(gas_meter, self.state);
        let ghost status = resp.status;
        let ghost key_view = resp.key@;
        let ghost value_view = resp.value@;
        let ghost errm_view = resp.error_msg@;
        let ghost gas = resp.gas_used;
        let output_key = resp.key.consume();
        let output_value = resp.value.consume();
        let gas_info = GasInfo::with_externally_used(resp.gas_used);

        let go_result = GoError::from_code(resp.status);
        let r: BackendResult<Option<Record>> = match go_result.into_result(
            resp.error_msg,
            "Failed to fetch next item from iterator",
        ) {
            Err(err) => (Err(err), gas_info),
            Ok(()) => {
                let out = match output_key {
                    Some(key) => {
                        match output_value {
                            Some(value) => Ok(Some((key, value))),
                            None => Err(
                                BackendError::unknown(
                                    String::from_str(
                                        "Failed to read value while reading the next key in the db",
                                    ),
                                ),
                            ),
                        }
                    },
                    None => Ok(None),
                };
                (out, gas_info)
            },
        };
        proof {
            assert(next_outcome_matches(r, status, key_view, value_view, errm_view, gas));
        }
        r
    }

    /// Fetches the cursor's next key, leaving the value with the host.
    pub fn next_key<I: IteratorVtable>(&self, host: &mut I, gas_meter: &mut gas_meter_t) -> (r:
        BackendResult<Option<Vec<u8>>>)
        ensures
            !self.vtable.has_next_key ==> (r.0 matches Err(e) && e matches BackendError::Unknown {
                msg,
            } && msg@ == "iterator vtable function 'next_key' not set"@ && r.1
                == GasInfo::spec_free()),
            self.vtable.has_next_key ==> exists|
                status: i32,
                output: Option<Seq<u8>>,
                errm: Option<Seq<u8>>,
                gas: u64,
            |
                read_outcome_matches(
                    r,
                    status,
                    output,
                    errm,
                    gas,
                    "Failed to fetch next item from iterator"@,
                ),
    {
        if !self.vtable.has_next_key {
            let result = Err(
                BackendError::unknown(
                    String::from_str("iterator vtable function 'next_key' not set"),
                ),
            );
            return (result, GasInfo::free());
        }
        let resp = host.next_key(gas_meter, self.state);
        next_key_or_val(resp)
    }

    /// Fetches the cursor's next value, leaving the key with the host.
    pub fn next_value<I: IteratorVtable>(&self, host: &mut I, gas_meter: &mut gas_meter_t) -> (r:
        BackendResult<Option<Vec<u8>>>)
        ensures
            !self.vtable.has_next_value ==> (r.0 matches Err(e) && e matches BackendError::Unknown {
                msg,
            } && msg@ == "iterator vtable function 'next_value' not set"@ && r.1
                == GasInfo::spec_free()),
            self.vtable.has_next_value ==> exists|
                status: i32,
                output: Option<Seq<u8>>,
                errm: Option<Seq<u8>>,
                gas: u64,
            |
                read_outcome_matches(
                    r,
                    status,
                    output,
                    errm,
                    gas,
                    "Failed to fetch next item from iterator"@,
                ),
    {
        if !self.vtable.has_next_value {
            let result = Err(
                BackendError::unknown(
                    String::from_str("iterator vtable function 'next_value' not set"),
                ),
            );
            return (result, GasInfo::free());
        }
        let resp = host.next_value(gas_meter, self.state);
        next_key_or_val(resp)
    }
}

/// Turns one host read response into the bridge's result: consumes the
/// output, wraps the metered gas, and maps the status.
fn next_key_or_val(resp: HostRead) -> (r: BackendResult<Option<Vec<u8>>>)
    ensures
        read_outcome_matches(
            r,
            resp.status,
            resp.output@,
            resp.error_msg@,
            resp.gas_used,
            "Failed to fetch next item from iterator"@,
        ),
{
    let output = resp.output.consume();
    let gas_info = GasInfo::with_externally_used(resp.gas_used);
    let go_result = GoError::from_code(resp.status);
    match go_result.into_result(resp.error_msg, "Failed to fetch next item from iterator") {
        Err(err) => (Err(err), gas_info),
        Ok(()) => (Ok(output), gas_info),
    }
}

} // verus!
