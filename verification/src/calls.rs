//! Instances and the call dispatcher.
//!
//! An instance binds one module to one backend and one gas budget for the
//! life of a single call. The dispatcher resolves the checksum through the
//! cache, runs the entry point the caller supplies, and always writes the
//! gas report before surfacing the result, so gas is accounted for whenever
//! an instance was acquired — whether or not the call succeeded.

use vstd::prelude::*;
use vstd::string::StringExecFns;
use crate::backend::Order;
use crate::backend::Record;
use crate::cache::Checksum;
use crate::cache::cache_t;
use crate::cache::get_instance_model;
use crate::cache::get_instance_ok;
use crate::cache::not_found_msg;
use crate::cache::unset_arg_bytes;
use crate::cache::vm_err_bytes;
use vstd::utf8::encode_utf8;
use crate::db::Db;
use crate::db::IteratorVtable;
use crate::db::StorageVtable;
use crate::errors::ErrnoValue;
use crate::errors::RustError;
use crate::errors::handle_c_error_binary;
use crate::gas_report::GasReport;
use crate::gas_report::report_of;
use crate::memory::ByteSliceView;
use crate::memory::UnmanagedVector;
use crate::storage::GoStorage;

verus! {

/// How a contract call can fail inside the engine.
#[derive(Debug)]
pub enum VmFailure {
    /// The call ran its gas budget dry mid-execution. This variant is kept
    /// apart end to end, so a caller can tell an exhausted budget from a
    /// contract fault.
    GasDepletion,
    /// A backend (storage) call failed and trapped the execution.
    BackendErr { msg: String },
    /// The contract itself reported a failure.
    ContractErr { msg: String },
}

impl VmFailure {
    /// The rendered message of this failure.
    pub open spec fn message_of(&self) -> Seq<char> {
        match self {
            VmFailure::GasDepletion => "Ran out of gas during contract execution"@,
            VmFailure::BackendErr { msg } => "Error calling into the backend: "@ + msg@,
            VmFailure::ContractErr { msg } => "Error executing Wasm: "@ + msg@,
        }
    }

    /// Renders the message of this failure.
    pub fn message(&self) -> (r: String)
        ensures
            r@ == self.message_of(),
    {
        match self {
            VmFailure::GasDepletion => String::from_str("Ran out of gas during contract execution"),
            VmFailure::BackendErr { msg } => {
                let mut m = String::from_str("Error calling into the backend: ");
                m.append(msg.as_str());
                m
            },
            VmFailure::ContractErr { msg } => {
                let mut m = String::from_str("Error executing Wasm: ");
                m.append(msg.as_str());
                m
            },
        }
    }

    /// Carries this failure into the boundary error taxonomy: running out of
    /// gas keeps its own variant, everything else becomes an engine error.
    pub fn into_rust_error(self) -> (r: RustError)
        ensures
            (self is GasDepletion ==> r is OutOfGas),
            (!(self is GasDepletion) ==> (r matches RustError::VmErr { msg } && msg@
                == self.message_of())),
    {
        match self {
            VmFailure::GasDepletion => RustError::out_of_gas(),
            other => RustError::vm_err_string(other.message()),
        }
    }
}

/// Whether a boundary error reports an engine outcome faithfully.
pub open spec fn rust_error_for(e: RustError, f: VmFailure) -> bool {
    if f is GasDepletion {
        e is OutOfGas
    } else {
        (e matches RustError::VmErr { msg } && msg@ == f.message_of())
    }
}

/// Whether a call's outcome is the dedicated out-of-gas failure.
pub open spec fn is_depleted<T>(r: Result<T, VmFailure>) -> bool {
    r matches Err(f) && f is GasDepletion
}

/// How one boundary call's metered cost folds into an instance's books:
/// the amount fits the budget and is added to the externally used gas, or
/// the whole remainder is consumed and the call is out of gas.
pub open spec fn charge_outcome<H>(
    pre: Instance<H>,
    post: Instance<H>,
    gas: u64,
    depleted: bool,
) -> bool {
    &&& post.limit() == pre.limit()
    &&& post.spec_used_internally() == pre.spec_used_internally()
    &&& if gas + pre.spec_used_internally() + pre.spec_used_externally() <= pre.limit() {
        !depleted && post.spec_used_externally() == pre.spec_used_externally() + gas
    } else {
        depleted && post.spec_used_externally() == pre.limit() - pre.spec_used_internally()
    }
}

/// An execution context for one call: a module, a backend, and a gas
/// budget. It is created by instance acquisition, used by exactly one entry
/// point, and discarded when the call's gas report has been taken.
pub struct Instance<H> {
    storage: GoStorage<H>,
    checksum: Checksum,
    module_size: u64,
    gas_limit: u64,
    print_debug: bool,
    used_internally: u64,
    used_externally: u64,
}

impl<H> Instance<H> {
    /// The books balance and the bridge is sound.
    pub closed spec fn wf(&self) -> bool {
        &&& self.used_internally + self.used_externally <= self.gas_limit
        &&& self.storage.wf()
    }

    /// The gas budget this instance was created with.
    pub closed spec fn limit(&self) -> u64 {
        self.gas_limit
    }

    /// The gas spent inside the engine so far.
    pub closed spec fn spec_used_internally(&self) -> u64 {
        self.used_internally
    }

    /// The gas spent in externally metered boundary calls so far.
    pub closed spec fn spec_used_externally(&self) -> u64 {
        self.used_externally
    }

    /// The checksum of the module this instance runs.
    pub closed spec fn spec_checksum(&self) -> Seq<u8> {
        self.checksum@
    }

    /// Whether debug messages are handed to a sink rather than discarded.
    pub closed spec fn spec_print_debug(&self) -> bool {
        self.print_debug
    }

    /// Binds a module to a backend and a gas budget.
    pub fn new(
        checksum: Checksum,
        module_size: u64,
        storage: GoStorage<H>,
        gas_limit: u64,
        print_debug: bool,
    ) -> (r: Self)
        requires
            storage.wf(),
        ensures
            r.wf(),
            r.limit() == gas_limit,
            r.spec_used_internally() == 0,
            r.spec_used_externally() == 0,
            r.spec_checksum() == checksum@,
            r.spec_print_debug() == print_debug,
    {
        Instance {
            storage,
            checksum,
            module_size,
            gas_limit,
            print_debug,
            used_internally: 0,
            used_externally: 0,
        }
    }

    pub fn print_debug(&self) -> (r: bool)
        ensures
            r == self.spec_print_debug(),
    {
        self.print_debug
    }

    /// Spends engine gas. When the budget cannot cover `amount`, the whole
    /// remainder is consumed and the call is out of gas.
    pub fn consume_gas(&mut self, amount: u64) -> (r: Result<(), VmFailure>)
        requires
            old(self).wf(),
        ensures
            final(self).wf(),
            final(self).limit() == old(self).limit(),
            final(self).spec_used_externally() == old(self).spec_used_externally(),
            (r is Ok <==> amount + old(self).spec_used_internally() + old(self).spec_used_externally() <= old(self).limit()),
            (r is Ok ==> final(self).spec_used_internally() == old(self).spec_used_internally()
                + amount),
            (r matches Err(f) ==> f is GasDepletion && final(self).spec_used_internally() == old(self).limit() - old(self).spec_used_externally()),
    {
        let headroom = self.gas_limit - self.used_externally - self.used_internally;
        if amount <= headroom {
            self.used_internally = self.used_internally + amount;
            Ok(())
        } else {
            self.used_internally = self.gas_limit - self.used_externally;
            Err(VmFailure::GasDepletion)
        }
    }

    /// Folds one boundary call's externally metered cost into the books.
    /// When the budget cannot cover it, the whole remainder is consumed and
    /// the call is out of gas.
    fn charge_external(&mut self, amount: u64) -> (r: Result<(), VmFailure>)
        requires
            old(self).wf(),
        ensures
            final(self).wf(),
            final(self).limit() == old(self).limit(),
            final(self).spec_used_internally() == old(self).spec_used_internally(),
            final(self).storage == old(self).storage,
            (r is Ok <==> amount + old(self).spec_used_internally() + old(self).spec_used_externally() <= old(self).limit()),
            (r is Ok ==> final(self).spec_used_externally() == old(self).spec_used_externally()
                + amount),
            (r matches Err(f) ==> f is GasDepletion && final(self).spec_used_externally() == old(self).limit() - old(self).spec_used_internally()),
    {
        let headroom = self.gas_limit - self.used_externally - self.used_internally;
        if amount <= headroom {
            self.used_externally = self.used_externally + amount;
            Ok(())
        } else {
            self.used_externally = self.gas_limit - self.used_internally;
            Err(VmFailure::GasDepletion)
        }
    }

    /// The call's gas report. Writing it is total: whatever state the call
    /// ended in, the report balances the whole budget.
    pub fn create_gas_report(&self) -> (r: GasReport)
        ensures
            r == report_of(self.limit(), self.spec_used_externally(), self.spec_used_internally()),
            r.limit == self.limit(),
            r.used_externally + r.used_internally + r.remaining == r.limit,
    {
        let ue = if self.used_externally <= self.gas_limit {
            self.used_externally
        } else {
            self.gas_limit
        };
        let ui = if self.used_internally <= self.gas_limit - ue {
            self.used_internally
        } else {
            self.gas_limit - ue
        };
        GasReport {
            limit: self.gas_limit,
            remaining: self.gas_limit - ue - ui,
            used_externally: ue,
            used_internally: ui,
        }
    }
}

impl<H: StorageVtable + IteratorVtable> Instance<H> {
    /// Reads a value through the bridge, folding the metered cost into the
    /// books.
    pub fn storage_get(&mut self, key: &Vec<u8>) -> (r: Result<Option<Vec<u8>>, VmFailure>)
        requires
            old(self).wf(),
        ensures
            final(self).wf(),
            final(self).limit() == old(self).limit(),
            final(self).spec_used_internally() == old(self).spec_used_internally(),
            (r matches Err(f) ==> f is GasDepletion || f matches VmFailure::BackendErr { .. }),
            exists|gas: u64| #[trigger] charge_outcome(
                *old(self),
                *final(self),
                gas,
                is_depleted(r),
            ),
    {
        let (res, gas_info) = self.storage.get(key);
        let ghost charged = gas_info.externally_used;
        let out = match self.charge_external(gas_info.externally_used) {
            Err(f) => Err(f),
            Ok(()) => match res {
                Ok(v) => Ok(v),
                Err(e) => Err(VmFailure::BackendErr { msg: e.message() }),
            },
        };
        proof {
            assert(charge_outcome(*old(self), *self, charged, is_depleted(out)));
        }
        out
    }

    /// Writes a value through the bridge.
    pub fn storage_set(&mut self, key: &Vec<u8>, value: &Vec<u8>) -> (r: Result<(), VmFailure>)
        requires
            old(self).wf(),
        ensures
            final(self).wf(),
            final(self).limit() == old(self).limit(),
            final(self).spec_used_internally() == old(self).spec_used_internally(),
            (r matches Err(f) ==> f is GasDepletion || f matches VmFailure::BackendErr { .. }),
            exists|gas: u64| #[trigger] charge_outcome(
                *old(self),
                *final(self),
                gas,
                is_depleted(r),
            ),
    {
        let (res, gas_info) = self.storage.set(key, value);
        let ghost charged = gas_info.externally_used;
        let out = match self.charge_external(gas_info.externally_used) {
            Err(f) => Err(f),
            Ok(()) => match res {
                Ok(()) => Ok(()),
                Err(e) => Err(VmFailure::BackendErr { msg: e.message() }),
            },
        };
        proof {
            assert(charge_outcome(*old(self), *self, charged, is_depleted(out)));
        }
        out
    }

    /// Removes a value through the bridge.
    pub fn storage_remove(&mut self, key: &Vec<u8>) -> (r: Result<(), VmFailure>)
        requires
            old(self).wf(),
        ensures
            final(self).wf(),
            final(self).limit() == old(self).limit(),
            final(self).spec_used_internally() == old(self).spec_used_internally(),
            (r matches Err(f) ==> f is GasDepletion || f matches VmFailure::BackendErr { .. }),
            exists|gas: u64| #[trigger] charge_outcome(
                *old(self),
                *final(self),
                gas,
                is_depleted(r),
            ),
    {
        let (res, gas_info) = self.storage.remove(key);
        let ghost charged = gas_info.externally_used;
        let out = match self.charge_external(gas_info.externally_used) {
            Err(f) => Err(f),
            Ok(()) => match res {
                Ok(()) => Ok(()),
                Err(e) => Err(VmFailure::BackendErr { msg: e.message() }),
            },
        };
        proof {
            assert(charge_outcome(*old(self), *self, charged, is_depleted(out)));
        }
        out
    }

    /// Opens a scan through the bridge, yielding a fresh iterator handle.
    pub fn storage_scan(&mut self, start: Option<&Vec<u8>>, end: Option<&Vec<u8>>, order: Order)
        -> (r: Result<u32, VmFailure>)
        requires
            old(self).wf(),
        ensures
            final(self).wf(),
            final(self).limit() == old(self).limit(),
            final(self).spec_used_internally() == old(self).spec_used_internally(),
            (r matches Err(f) ==> f is GasDepletion || f matches VmFailure::BackendErr { .. }),
            exists|gas: u64| #[trigger] charge_outcome(
                *old(self),
                *final(self),
                gas,
                is_depleted(r),
            ),
    {
        let (res, gas_info) = self.storage.scan(start, end, order);
        let ghost charged = gas_info.externally_used;
        let out = match self.charge_external(gas_info.externally_used) {
            Err(f) => Err(f),
            Ok(()) => match res {
                Ok(id) => Ok(id),
                Err(e) => Err(VmFailure::BackendErr { msg: e.message() }),
            },
        };
        proof {
            assert(charge_outcome(*old(self), *self, charged, is_depleted(out)));
        }
        out
    }

    /// Fetches the next record of an iterator through the bridge.
    pub fn storage_next(&mut self, iterator_id: u32) -> (r: Result<Option<Record>, VmFailure>)
        requires
            old(self).wf(),
        ensures
            final(self).wf(),
            final(self).limit() == old(self).limit(),
            final(self).spec_used_internally() == old(self).spec_used_internally(),
            (r matches Err(f) ==> f is GasDepletion || f matches VmFailure::BackendErr { .. }),
            exists|gas: u64| #[trigger] charge_outcome(
                *old(self),
                *final(self),
                gas,
                is_depleted(r),
            ),
    {
        let (res, gas_info) = self.storage.next(iterator_id);
        let ghost charged = gas_info.externally_used;
        let out = match self.charge_external(gas_info.externally_used) {
            Err(f) => Err(f),
            Ok(()) => match res {
                Ok(v) => Ok(v),
                Err(e) => Err(VmFailure::BackendErr { msg: e.message() }),
            },
        };
        proof {
            assert(charge_outcome(*old(self), *self, charged, is_depleted(out)));
        }
        out
    }

    /// Fetches the next key of an iterator through the bridge.
    pub fn storage_next_key(&mut self, iterator_id: u32) -> (r: Result<Option<Vec<u8>>, VmFailure>)
        requires
            old(self).wf(),
        ensures
            final(self).wf(),
            final(self).limit() == old(self).limit(),
            final(self).spec_used_internally() == old(self).spec_used_internally(),
            (r matches Err(f) ==> f is GasDepletion || f matches VmFailure::BackendErr { .. }),
            exists|gas: u64| #[trigger] charge_outcome(
                *old(self),
                *final(self),
                gas,
                is_depleted(r),
            ),
    {
        let (res, gas_info) = self.storage.next_key(iterator_id);
        let ghost charged = gas_info.externally_used;
        let out = match self.charge_external(gas_info.externally_used) {
            Err(f) => Err(f),
            Ok(()) => match res {
                Ok(v) => Ok(v),
                Err(e) => Err(VmFailure::BackendErr { msg: e.message() }),
            },
        };
        proof {
            assert(charge_outcome(*old(self), *self, charged, is_depleted(out)));
        }
        out
    }

    /// Fetches the next value of an iterator through the bridge.
    pub fn storage_next_value(&mut self, iterator_id: u32) -> (r: Result<
        Option<Vec<u8>>,
        VmFailure,
    >)
        requires
            old(self).wf(),
        ensures
            final(self).wf(),
            final(self).limit() == old(self).limit(),
            final(self).spec_used_internally() == old(self).spec_used_internally(),
            (r matches Err(f) ==> f is GasDepletion || f matches VmFailure::BackendErr { .. }),
            exists|gas: u64| #[trigger] charge_outcome(
                *old(self),
                *final(self),
                gas,
                is_depleted(r),
            ),
    {
        let (res, gas_info) = self.storage.next_value(iterator_id);
        let ghost charged = gas_info.externally_used;
        let out = match self.charge_external(gas_info.externally_used) {
            Err(f) => Err(f),
            Ok(()) => match res {
                Ok(v) => Ok(v),
                Err(e) => Err(VmFailure::BackendErr { msg: e.message() }),
            },
        };
        proof {
            assert(charge_outcome(*old(self), *self, charged, is_depleted(out)));
        }
        out
    }
}

/// Runs an entry point taking two opaque arguments. The work between
/// acquiring the instance and writing the report is the caller's entry
/// point `vm_fn`; the dispatcher owes the report whenever the instance was
/// acquired, on success and on failure alike.
pub fn do_call_2_args<H, F>(
    vm_fn: F,
    cache: &mut cache_t,
    checksum: ByteSliceView,
    arg1: ByteSliceView,
    arg2: ByteSliceView,
    db: Db<H>,
    gas_limit: u64,
    print_debug: bool,
    gas_report: &mut GasReport,
) -> (r: Result<Vec<u8>, RustError>) where
    H: StorageVtable + IteratorVtable,
    F: FnOnce(Instance<H>, Vec<u8>, Vec<u8>) -> (Instance<H>, Result<Vec<u8>, VmFailure>),

    requires
        old(cache).wf(),
        forall|i: Instance<H>, a: Vec<u8>, b: Vec<u8>| #[trigger] call_requires(vm_fn, (i, a, b)),
    ensures
        final(cache).wf(),
        (checksum@ is None ==> (r matches Err(e) && e matches RustError::UnsetArg { name } && name@
            == "checksum"@) && *final(gas_report) == *old(gas_report) && *final(cache) == *old(cache)),
        (checksum@ is Some && checksum@.unwrap().len() != 32 ==> (r matches Err(e) && e matches
            RustError::VmErr { msg } && msg@ == "Checksum not of length 32"@) && *final(gas_report)
            == *old(gas_report) && *final(cache) == *old(cache)),
        (checksum@ is Some && checksum@.unwrap().len() == 32 && arg1@ is None ==> (r matches Err(
            e,
        ) && e matches RustError::UnsetArg { name } && name@ == "arg1"@) && *final(gas_report)
            == *old(gas_report) && *final(cache) == *old(cache)),
        (checksum@ is Some && checksum@.unwrap().len() == 32 && arg1@ is Some && arg2@ is None
            ==> (r matches Err(e) && e matches RustError::UnsetArg { name } && name@ == "arg2"@)
            && *final(gas_report) == *old(gas_report) && *final(cache) == *old(cache)),
        (checksum@ is Some && checksum@.unwrap().len() == 32 && arg1@ is Some && arg2@ is Some
            ==> {
            &&& final(cache).model() =~~= get_instance_model(
                old(cache).model(),
                checksum@.unwrap(),
            )
            &&& (!get_instance_ok(old(cache).model(), checksum@.unwrap()) ==> (r matches Err(e)
                && e matches
                RustError::VmErr { msg } && msg@ == not_found_msg()) && *final(gas_report) == *old(gas_report))
            &&& (get_instance_ok(old(cache).model(), checksum@.unwrap()) ==> exists|
                ret: (Instance<H>, Result<Vec<u8>, VmFailure>),
            |
                {
                    &&& #[trigger] call_ensures_holds_2(
                        vm_fn,
                        checksum@.unwrap(),
                        gas_limit,
                        print_debug,
                        arg1@.unwrap(),
                        arg2@.unwrap(),
                        ret,
                    )
                    &&& *final(gas_report) == report_of(
                        ret.0.limit(),
                        ret.0.spec_used_externally(),
                        ret.0.spec_used_internally(),
                    )
                    &&& final(gas_report).used_externally + final(gas_report).used_internally
                        + final(gas_report).remaining == final(gas_report).limit
                    &&& match ret.1 {
                        Ok(bytes) => (r matches Ok(out) && out == bytes),
                        Err(f) => (r matches Err(e) && rust_error_for(e, f)),
                    }
                })
        }),
{
    let checksum_bytes = match checksum.to_owned() {
        None => {
            return Err(RustError::unset_arg("checksum"));
        },
        Some(b) => b,
    };
    let cs = match Checksum::from_vec(checksum_bytes) {
        None => {
            return Err(RustError::vm_err("Checksum not of length 32"));
        },
        Some(cs) => cs,
    };
    let a1 = match arg1.to_owned() {
        None => {
            return Err(RustError::unset_arg("arg1"));
        },
        Some(b) => b,
    };
    let a2 = match arg2.to_owned() {
        None => {
            return Err(RustError::unset_arg("arg2"));
        },
        Some(b) => b,
    };
    let instance = match cache.get_instance(&cs, db, gas_limit, print_debug) {
        Err(e) => {
            return Err(e);
        },
        Ok(instance) => instance,
    };
    let ghost inst0 = instance;
    let ghost ga1 = a1;
    let ghost ga2 = a2;
    let (instance, res) = vm_fn(instance, a1, a2);
    *gas_report = instance.create_gas_report();
    let ghost ret = (instance, res);
    proof {
        assert(call_ensures(vm_fn, (inst0, ga1, ga2), ret));
        assert(call_ensures_holds_2(
            vm_fn,
            checksum@.unwrap(),
            gas_limit,
            print_debug,
            arg1@.unwrap(),
            arg2@.unwrap(),
            ret,
        ));
    }
    match res {
        Ok(bytes) => Ok(bytes),
        Err(f) => Err(f.into_rust_error()),
    }
}

/// Whether `ret` is an outcome the entry point `vm_fn` can produce from a
/// fresh instance of this call's module, budget and arguments.
pub open spec fn call_ensures_holds_2<H, F>(
    vm_fn: F,
    cs: Seq<u8>,
    gas_limit: u64,
    print_debug: bool,
    a1: Seq<u8>,
    a2: Seq<u8>,
    ret: (Instance<H>, Result<Vec<u8>, VmFailure>),
) -> bool where F: FnOnce(Instance<H>, Vec<u8>, Vec<u8>) -> (Instance<H>, Result<Vec<u8>, VmFailure>) {
    exists|inst0: Instance<H>, b1: Vec<u8>, b2: Vec<u8>|
        {
            &&& #[trigger] call_ensures(vm_fn, (inst0, b1, b2), ret)
            &&& inst0.wf()
            &&& inst0.limit() == gas_limit
            &&& inst0.spec_used_internally() == 0
            &&& inst0.spec_used_externally() == 0
            &&& inst0.spec_checksum() == cs
            &&& inst0.spec_print_debug() == print_debug
            &&& b1@ == a1
            &&& b2@ == a2
        }
}


/// Runs an entry point taking three opaque arguments; otherwise exactly as
/// [`do_call_2_args`].
pub fn do_call_3_args<H, F>(
    vm_fn: F,
    cache: &mut cache_t,
    checksum: ByteSliceView,
    arg1: ByteSliceView,
    arg2: ByteSliceView,
    arg3: ByteSliceView,
    db: Db<H>,
    gas_limit: u64,
    print_debug: bool,
    gas_report: &mut GasReport,
) -> (r: Result<Vec<u8>, RustError>) where
    H: StorageVtable + IteratorVtable,
    F: FnOnce(Instance<H>, Vec<u8>, Vec<u8>, Vec<u8>) -> (Instance<H>, Result<Vec<u8>, VmFailure>),

    requires
        old(cache).wf(),
        forall|i: Instance<H>, a: Vec<u8>, b: Vec<u8>, c: Vec<u8>| #[trigger] call_requires(
            vm_fn,
            (i, a, b, c),
        ),
    ensures
        final(cache).wf(),
        (checksum@ is None ==> (r matches Err(e) && e matches RustError::UnsetArg { name } && name@
            == "checksum"@) && *final(gas_report) == *old(gas_report) && *final(cache) == *old(cache)),
        (checksum@ is Some && checksum@.unwrap().len() != 32 ==> (r matches Err(e) && e matches
            RustError::VmErr { msg } && msg@ == "Checksum not of length 32"@) && *final(gas_report)
            == *old(gas_report) && *final(cache) == *old(cache)),
        (checksum@ is Some && checksum@.unwrap().len() == 32 && arg1@ is None ==> (r matches Err(
            e,
        ) && e matches RustError::UnsetArg { name } && name@ == "arg1"@) && *final(gas_report)
            == *old(gas_report) && *final(cache) == *old(cache)),
        (checksum@ is Some && checksum@.unwrap().len() == 32 && arg1@ is Some && arg2@ is None
            ==> (r matches Err(e) && e matches RustError::UnsetArg { name } && name@ == "arg2"@)
            && *final(gas_report) == *old(gas_report) && *final(cache) == *old(cache)),
        (checksum@ is Some && checksum@.unwrap().len() == 32 && arg1@ is Some && arg2@ is Some
            && arg3@ is None ==> (r matches Err(e) && e matches RustError::UnsetArg { name }
            && name@ == "arg3"@) && *final(gas_report) == *old(gas_report) && *final(cache) == *old(cache)),
        (checksum@ is Some && checksum@.unwrap().len() == 32 && arg1@ is Some && arg2@ is Some
            && arg3@ is Some ==> {
            &&& final(cache).model() =~~= get_instance_model(
                old(cache).model(),
                checksum@.unwrap(),
            )
            &&& (!get_instance_ok(old(cache).model(), checksum@.unwrap()) ==> (r matches Err(e)
                && e matches
                RustError::VmErr { msg } && msg@ == not_found_msg()) && *final(gas_report) == *old(gas_report))
            &&& (get_instance_ok(old(cache).model(), checksum@.unwrap()) ==> exists|
                ret: (Instance<H>, Result<Vec<u8>, VmFailure>),
            |
                {
                    &&& #[trigger] call_ensures_holds_3(
                        vm_fn,
                        checksum@.unwrap(),
                        gas_limit,
                        print_debug,
                        arg1@.unwrap(),
                        arg2@.unwrap(),
                        arg3@.unwrap(),
                        ret,
                    )
                    &&& *final(gas_report) == report_of(
                        ret.0.limit(),
                        ret.0.spec_used_externally(),
                        ret.0.spec_used_internally(),
                    )
                    &&& final(gas_report).used_externally + final(gas_report).used_internally
                        + final(gas_report).remaining == final(gas_report).limit
                    &&& match ret.1 {
                        Ok(bytes) => (r matches Ok(out) && out == bytes),
                        Err(f) => (r matches Err(e) && rust_error_for(e, f)),
                    }
                })
        }),
{
    let checksum_bytes = match checksum.to_owned() {
        None => {
            return Err(RustError::unset_arg("checksum"));
        },
        Some(b) => b,
    };
    let cs = match Checksum::from_vec(checksum_bytes) {
        None => {
            return Err(RustError::vm_err("Checksum not of length 32"));
        },
        Some(cs) => cs,
    };
    let a1 = match arg1.to_owned() {
        None => {
            return Err(RustError::unset_arg("arg1"));
        },
        Some(b) => b,
    };
    let a2 = match arg2.to_owned() {
        None => {
            return Err(RustError::unset_arg("arg2"));
        },
        Some(b) => b,
    };
    let a3 = match arg3.to_owned() {
        None => {
            return Err(RustError::unset_arg("arg3"));
        },
        Some(b) => b,
    };
    let instance = match cache.get_instance(&cs, db, gas_limit, print_debug) {
        Err(e) => {
            return Err(e);
        },
        Ok(instance) => instance,
    };
    let ghost inst0 = instance;
    let ghost ga1 = a1;
    let ghost ga2 = a2;
    let ghost ga3 = a3;
    let (instance, res) = vm_fn(instance, a1, a2, a3);
    *gas_report = instance.create_gas_report();
    let ghost ret = (instance, res);
    proof {
        assert(call_ensures(vm_fn, (inst0, ga1, ga2, ga3), ret));
        assert(call_ensures_holds_3(
            vm_fn,
            checksum@.unwrap(),
            gas_limit,
            print_debug,
            arg1@.unwrap(),
            arg2@.unwrap(),
            arg3@.unwrap(),
            ret,
        ));
    }
    match res {
        Ok(bytes) => Ok(bytes),
        Err(f) => Err(f.into_rust_error()),
    }
}

/// Whether `ret` is an outcome the entry point `vm_fn` can produce from a
/// fresh instance of this call's module, budget and arguments.
pub open spec fn call_ensures_holds_3<H, F>(
    vm_fn: F,
    cs: Seq<u8>,
    gas_limit: u64,
    print_debug: bool,
    a1: Seq<u8>,
    a2: Seq<u8>,
    a3: Seq<u8>,
    ret: (Instance<H>, Result<Vec<u8>, VmFailure>),
) -> bool where F: FnOnce(Instance<H>, Vec<u8>, Vec<u8>, Vec<u8>) -> (
    Instance<H>,
    Result<Vec<u8>, VmFailure>,
) {
    exists|inst0: Instance<H>, b1: Vec<u8>, b2: Vec<u8>, b3: Vec<u8>|
        {
            &&& #[trigger] call_ensures(vm_fn, (inst0, b1, b2, b3), ret)
            &&& inst0.wf()
            &&& inst0.limit() == gas_limit
            &&& inst0.spec_used_internally() == 0
            &&& inst0.spec_used_externally() == 0
            &&& inst0.spec_checksum() == cs
            &&& inst0.spec_print_debug() == print_debug
            &&& b1@ == a1
            &&& b2@ == a2
            &&& b3@ == a3
        }
}

/// The boundary form of a two-argument entry point: the result bytes or an
/// empty buffer, with the message slot and status filled in. The gas report
/// slot is written exactly as by [`do_call_2_args`].
pub fn call_2_args<H, F>(
    vm_fn: F,
    cache: &mut cache_t,
    checksum: ByteSliceView,
    arg1: ByteSliceView,
    arg2: ByteSliceView,
    db: Db<H>,
    gas_limit: u64,
    print_debug: bool,
    gas_report: &mut GasReport,
    error_msg: &mut UnmanagedVector,
) -> (r: (UnmanagedVector, ErrnoValue)) where
    H: StorageVtable + IteratorVtable,
    F: FnOnce(Instance<H>, Vec<u8>, Vec<u8>) -> (Instance<H>, Result<Vec<u8>, VmFailure>),

    requires
        old(cache).wf(),
        forall|i: Instance<H>, a: Vec<u8>, b: Vec<u8>| #[trigger] call_requires(vm_fn, (i, a, b)),
    ensures
        final(cache).wf(),
        r.0@ is Some,
        (r.1 is Success ==> *final(error_msg) == *old(error_msg)),
        (!(r.1 is Success) ==> final(error_msg)@ is Some && r.0@ == Some(Seq::<u8>::empty())),
        (checksum@ is None ==> r.1 is Other && *final(gas_report) == *old(gas_report) && *final(cache) == *old(cache) && final(error_msg)@ == unset_arg_bytes("checksum"@)),
        (checksum@ is Some && checksum@.unwrap().len() != 32 ==> r.1 is Other && *final(gas_report)
            == *old(gas_report) && *final(cache) == *old(cache) && final(error_msg)@
            == vm_err_bytes("Checksum not of length 32"@)),
        (checksum@ is Some && checksum@.unwrap().len() == 32 && arg1@ is None ==> r.1 is Other
            && *final(gas_report) == *old(gas_report) && *final(cache) == *old(cache) && final(error_msg)@ == unset_arg_bytes("arg1"@)),
        (checksum@ is Some && checksum@.unwrap().len() == 32 && arg1@ is Some && arg2@ is None
            ==> r.1 is Other && *final(gas_report) == *old(gas_report) && *final(cache) == *old(cache) && final(error_msg)@ == unset_arg_bytes("arg2"@)),
        (checksum@ is Some && checksum@.unwrap().len() == 32 && arg1@ is Some && arg2@ is Some
            ==> {
            &&& final(cache).model() =~~= get_instance_model(
                old(cache).model(),
                checksum@.unwrap(),
            )
            &&& (!get_instance_ok(old(cache).model(), checksum@.unwrap()) ==> r.1 is Other
                && *final(gas_report) == *old(gas_report) && final(error_msg)@ == vm_err_bytes(
                not_found_msg(),
            ))
            &&& (get_instance_ok(old(cache).model(), checksum@.unwrap()) ==> exists|
                ret: (Instance<H>, Result<Vec<u8>, VmFailure>),
            |
                {
                    &&& #[trigger] call_ensures_holds_2(
                        vm_fn,
                        checksum@.unwrap(),
                        gas_limit,
                        print_debug,
                        arg1@.unwrap(),
                        arg2@.unwrap(),
                        ret,
                    )
                    &&& *final(gas_report) == report_of(
                        ret.0.limit(),
                        ret.0.spec_used_externally(),
                        ret.0.spec_used_internally(),
                    )
                    &&& final(gas_report).used_externally + final(gas_report).used_internally
                        + final(gas_report).remaining == final(gas_report).limit
                    &&& match ret.1 {
                        Ok(bytes) => (r.1 is Success && r.0@ == Some(bytes@)),
                        Err(f) => {
                            &&& !(r.1 is Success)
                            &&& r.0@ == Some(Seq::<u8>::empty())
                            &&& (f is GasDepletion ==> r.1 is OutOfGas && final(error_msg)@
                                == Some(encode_utf8("Ran out of gas"@)))
                            &&& (!(f is GasDepletion) ==> r.1 is Other && final(error_msg)@
                                == vm_err_bytes(f.message_of()))
                        },
                    }
                })
        }),
{
    let res = do_call_2_args(
        vm_fn,
        cache,
        checksum,
        arg1,
        arg2,
        db,
        gas_limit,
        print_debug,
        gas_report,
    );
    let ghost gres = res;
    let (data, status) = handle_c_error_binary(res, error_msg);
    proof {
        if checksum@ is Some && checksum@.unwrap().len() == 32 && arg1@ is Some && arg2@ is Some
            && get_instance_ok(old(cache).model(), checksum@.unwrap()) {
            let ret = choose|ret: (Instance<H>, Result<Vec<u8>, VmFailure>)|
                {
                    &&& #[trigger] call_ensures_holds_2(
                        vm_fn,
                        checksum@.unwrap(),
                        gas_limit,
                        print_debug,
                        arg1@.unwrap(),
                        arg2@.unwrap(),
                        ret,
                    )
                    &&& *gas_report == report_of(
                        ret.0.limit(),
                        ret.0.spec_used_externally(),
                        ret.0.spec_used_internally(),
                    )
                    &&& (*gas_report).used_externally + (*gas_report).used_internally + (
                    *gas_report).remaining == (*gas_report).limit
                    &&& match ret.1 {
                        Ok(bytes) => (gres matches Ok(out) && out == bytes),
                        Err(f) => (gres matches Err(e) && rust_error_for(e, f)),
                    }
                };
            assert(match ret.1 {
                Ok(bytes) => (status is Success && data@ == bytes@),
                Err(f) => {
                    &&& !(status is Success)
                    &&& data@ == Seq::<u8>::empty()
                    &&& (f is GasDepletion ==> status is OutOfGas && (*error_msg)@ == Some(
                        encode_utf8("Ran out of gas"@),
                    ))
                    &&& (!(f is GasDepletion) ==> status is Other && (*error_msg)@
                        == vm_err_bytes(f.message_of()))
                },
            });
        }
    }
    (UnmanagedVector::some(data), status)
}

/// The boundary form of a three-argument entry point.
pub fn call_3_args<H, F>(
    vm_fn: F,
    cache: &mut cache_t,
    checksum: ByteSliceView,
    arg1: ByteSliceView,
    arg2: ByteSliceView,
    arg3: ByteSliceView,
    db: Db<H>,
    gas_limit: u64,
    print_debug: bool,
    gas_report: &mut GasReport,
    error_msg: &mut UnmanagedVector,
) -> (r: (UnmanagedVector, ErrnoValue)) where
    H: StorageVtable + IteratorVtable,
    F: FnOnce(Instance<H>, Vec<u8>, Vec<u8>, Vec<u8>) -> (Instance<H>, Result<Vec<u8>, VmFailure>),

    requires
        old(cache).wf(),
        forall|i: Instance<H>, a: Vec<u8>, b: Vec<u8>, c: Vec<u8>| #[trigger] call_requires(
            vm_fn,
            (i, a, b, c),
        ),
    ensures
        final(cache).wf(),
        r.0@ is Some,
        (r.1 is Success ==> *final(error_msg) == *old(error_msg)),
        (!(r.1 is Success) ==> final(error_msg)@ is Some && r.0@ == Some(Seq::<u8>::empty())),
        (checksum@ is None ==> r.1 is Other && *final(gas_report) == *old(gas_report) && *final(cache) == *old(cache) && final(error_msg)@ == unset_arg_bytes("checksum"@)),
        (checksum@ is Some && checksum@.unwrap().len() != 32 ==> r.1 is Other && *final(gas_report)
            == *old(gas_report) && *final(cache) == *old(cache) && final(error_msg)@
            == vm_err_bytes("Checksum not of length 32"@)),
        (checksum@ is Some && checksum@.unwrap().len() == 32 && arg1@ is None ==> r.1 is Other
            && *final(gas_report) == *old(gas_report) && *final(cache) == *old(cache) && final(error_msg)@ == unset_arg_bytes("arg1"@)),
        (checksum@ is Some && checksum@.unwrap().len() == 32 && arg1@ is Some && arg2@ is None
            ==> r.1 is Other && *final(gas_report) == *old(gas_report) && *final(cache) == *old(cache) && final(error_msg)@ == unset_arg_bytes("arg2"@)),
        (checksum@ is Some && checksum@.unwrap().len() == 32 && arg1@ is Some && arg2@ is Some
            && arg3@ is None ==> r.1 is Other && *final(gas_report) == *old(gas_report) && *final(cache) == *old(cache) && final(error_msg)@ == unset_arg_bytes("arg3"@)),
        (checksum@ is Some && checksum@.unwrap().len() == 32 && arg1@ is Some && arg2@ is Some
            && arg3@ is Some ==> {
            &&& final(cache).model() =~~= get_instance_model(
                old(cache).model(),
                checksum@.unwrap(),
            )
            &&& (!get_instance_ok(old(cache).model(), checksum@.unwrap()) ==> r.1 is Other
                && *final(gas_report) == *old(gas_report) && final(error_msg)@ == vm_err_bytes(
                not_found_msg(),
            ))
            &&& (get_instance_ok(old(cache).model(), checksum@.unwrap()) ==> exists|
                ret: (Instance<H>, Result<Vec<u8>, VmFailure>),
            |
                {
                    &&& #[trigger] call_ensures_holds_3(
                        vm_fn,
                        checksum@.unwrap(),
                        gas_limit,
                        print_debug,
                        arg1@.unwrap(),
                        arg2@.unwrap(),
                        arg3@.unwrap(),
                        ret,
                    )
                    &&& *final(gas_report) == report_of(
                        ret.0.limit(),
                        ret.0.spec_used_externally(),
                        ret.0.spec_used_internally(),
                    )
                    &&& final(gas_report).used_externally + final(gas_report).used_internally
                        + final(gas_report).remaining == final(gas_report).limit
                    &&& match ret.1 {
                        Ok(bytes) => (r.1 is Success && r.0@ == Some(bytes@)),
                        Err(f) => {
                            &&& !(r.1 is Success)
                            &&& r.0@ == Some(Seq::<u8>::empty())
                            &&& (f is GasDepletion ==> r.1 is OutOfGas && final(error_msg)@
                                == Some(encode_utf8("Ran out of gas"@)))
                            &&& (!(f is GasDepletion) ==> r.1 is Other && final(error_msg)@
                                == vm_err_bytes(f.message_of()))
                        },
                    }
                })
        }),
{
    let res = do_call_3_args(
        vm_fn,
        cache,
        checksum,
        arg1,
        arg2,
        arg3,
        db,
        gas_limit,
        print_debug,
        gas_report,
    );
    let ghost gres = res;
    let (data, status) = handle_c_error_binary(res, error_msg);
    proof {
        if checksum@ is Some && checksum@.unwrap().len() == 32 && arg1@ is Some && arg2@ is Some
            && arg3@ is Some && get_instance_ok(old(cache).model(), checksum@.unwrap()) {
            let ret = choose|ret: (Instance<H>, Result<Vec<u8>, VmFailure>)|
                {
                    &&& #[trigger] call_ensures_holds_3(
                        vm_fn,
                        checksum@.unwrap(),
                        gas_limit,
                        print_debug,
                        arg1@.unwrap(),
                        arg2@.unwrap(),
                        arg3@.unwrap(),
                        ret,
                    )
                    &&& *gas_report == report_of(
                        ret.0.limit(),
                        ret.0.spec_used_externally(),
                        ret.0.spec_used_internally(),
                    )
                    &&& (*gas_report).used_externally + (*gas_report).used_internally + (
                    *gas_report).remaining == (*gas_report).limit
                    &&& match ret.1 {
                        Ok(bytes) => (gres matches Ok(out) && out == bytes),
                        Err(f) => (gres matches Err(e) && rust_error_for(e, f)),
                    }
                };
            assert(match ret.1 {
                Ok(bytes) => (status is Success && data@ == bytes@),
                Err(f) => {
                    &&& !(status is Success)
                    &&& data@ == Seq::<u8>::empty()
                    &&& (f is GasDepletion ==> status is OutOfGas && (*error_msg)@ == Some(
                        encode_utf8("Ran out of gas"@),
                    ))
                    &&& (!(f is GasDepletion) ==> status is Other && (*error_msg)@
                        == vm_err_bytes(f.message_of()))
                },
            });
        }
    }
    (UnmanagedVector::some(data), status)
}

} // verus!
