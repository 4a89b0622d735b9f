//! The storage bridge: forwards key-value operations to the host, threads
//! gas through every call, and owns the per-call iterator table.
//!
//! Iterator handles are allocated from a strictly increasing counter, never
//! from the table's size, so a handle is never reused within the life of one
//! bridge even if entries were ever dropped. A handle the bridge never
//! issued fails with a dedicated error, not a crash.

use vstd::prelude::*;
use vstd::string::StringExecFns;
use crate::backend::BackendError;
use crate::backend::BackendResult;
use crate::backend::GasInfo;
use crate::backend::Order;
use crate::backend::Record;
use crate::db::Db;
use crate::db::HostAck;
use crate::db::HostRead;
use crate::db::IteratorVtable;
use crate::db::StorageVtable;
use crate::go_error::GoError;
use crate::iterator::GoIter;
use crate::iterator::backend_error_matches;
use crate::iterator::next_outcome_matches;
use crate::iterator::read_outcome_matches;
use crate::text::lossy_of;
use crate::text::lossy_string;

verus! {

/// The default message of a failing read, naming the key (decoded lossily
/// for diagnosability).
pub open spec fn get_default_msg(key: Seq<u8>) -> Seq<char> {
    "Failed to read a key in the db: "@ + lossy_of(key)
}

/// The default message of a failing write.
pub open spec fn set_default_msg(key: Seq<u8>) -> Seq<char> {
    "Failed to set a key in the db: "@ + lossy_of(key)
}

/// The default message of a failing removal.
pub open spec fn remove_default_msg(key: Seq<u8>) -> Seq<char> {
    "Failed to delete a key in the db: "@ + lossy_of(key)
}

/// The view of an optional bound.
pub open spec fn opt_bytes(b: Option<&Vec<u8>>) -> Option<Seq<u8>> {
    match b {
        Some(v) => Some(v@),
        None => None,
    }
}

/// An optional scan bound, rendered lossily for a diagnostic message.
pub open spec fn bound_text(b: Option<Seq<u8>>) -> Seq<char> {
    match b {
        Some(x) => "Some("@ + lossy_of(x) + ")"@,
        None => "None"@,
    }
}

/// The default message of a failing scan, naming both bounds.
pub open spec fn scan_default_msg(start: Option<Seq<u8>>, end: Option<Seq<u8>>) -> Seq<char> {
    "Failed to read the next key between "@ + bound_text(start) + " and "@ + bound_text(end)
}

/// How a write-style operation relates one host response to the bridge's
/// result.
pub open spec fn ack_outcome_matches(
    r: BackendResult<()>,
    status: i32,
    errm: Option<Seq<u8>>,
    gas: u64,
    default: Seq<char>,
) -> bool {
    &&& r.1 == (GasInfo { cost: gas, externally_used: gas })
    &&& match GoError::code_spec(status) {
        GoError::NoError => r.0 is Ok,
        code => (r.0 matches Err(e) && backend_error_matches(e, code, errm, default)),
    }
}

/// How a scan relates one host response to the bridge's result: on host
/// success a handle is issued, unless the handle space is spent; a host
/// failure maps as every backend status does, with the given default
/// message.
pub open spec fn scan_outcome_matches(
    r: BackendResult<u32>,
    next: u32,
    status: i32,
    errm: Option<Seq<u8>>,
    gas: u64,
    default: Seq<char>,
) -> bool {
    &&& r.1 == (GasInfo { cost: gas, externally_used: gas })
    &&& match GoError::code_spec(status) {
        GoError::NoError => if next < u32::MAX {
            r.0 is Ok
        } else {
            r.0 is Err
        },
        code => (r.0 matches Err(e) && backend_error_matches(e, code, errm, default)),
    }
}

/// Renders one optional scan bound for the default message.
fn bound_string(b: Option<&Vec<u8>>) -> (r: String)
    ensures
        r@ == bound_text(opt_bytes(b)),
{
    match b {
        Some(v) => {
            let mut s = String::from_str("Some(");
            s.append(lossy_string(v).as_str());
            s.append(")");
            s
        },
        None => String::from_str("None"),
    }
}

/// Iterator handles are isolated. The bridge's contracts say that a
/// successful scan issues exactly the counter's value and moves the counter
/// up; so two scans in a row are issued distinct handles, every handle
/// issued earlier stays issued, and — since the read operations leave the
/// table and the counter alone — walking one cursor never touches another
/// handle's entry.
pub proof fn lemma_iterator_handles_isolated<H>(
    s0: GoStorage<H>,
    s1: GoStorage<H>,
    s2: GoStorage<H>,
    first: u32,
    second: u32,
)
    requires
        // what `scan` ensures of its first successful call,
        first == s0.next_handle(),
        s1.next_handle() == first + 1,
        forall|other: u32| s0.has_handle(other) ==> s1.has_handle(other),
        s1.has_handle(first),
        // and of a second successful call.
        second == s1.next_handle(),
        s2.next_handle() == second + 1,
        forall|other: u32| s1.has_handle(other) ==> s2.has_handle(other),
        s2.has_handle(second),
    ensures
        first != second,
        s2.has_handle(first),
        s2.has_handle(second),
{
}

/// The storage bridge bound to one host handle.
pub struct GoStorage<H> {
    db: Db<H>,
    iterators: Vec<(u32, GoIter)>,
    next_id: u32,
}

impl<H> GoStorage<H> {
    /// Handles are issued below the counter, in increasing order, so no two
    /// entries share one.
    pub closed spec fn wf(&self) -> bool {
        &&& forall|i: int|
            0 <= i < self.iterators@.len() ==> (#[trigger] self.iterators@[i]).0 < self.next_id
        &&& forall|i: int, j: int|
            0 <= i < j < self.iterators@.len() ==> (#[trigger] self.iterators@[i]).0 < (
            #[trigger] self.iterators@[j]).0
    }

    /// The iterator table: each handle issued by this bridge with its cursor.
    pub closed spec fn table(&self) -> Seq<(u32, GoIter)> {
        self.iterators@
    }

    /// The handle the next scan will be issued.
    pub closed spec fn next_handle(&self) -> u32 {
        self.next_id
    }

    /// Whether this bridge has issued the handle `id`.
    pub open spec fn has_handle(&self, id: u32) -> bool {
        exists|i: int| 0 <= i < self.table().len() && (#[trigger] self.table()[i]).0 == id
    }

    pub fn new(db: Db<H>) -> (r: Self)
        ensures
            r.wf(),
            r.table() == Seq::<(u32, GoIter)>::empty(),
            r.next_handle() == 0,
    {
        GoStorage { db, iterators: Vec::new(), next_id: 0 }
    }

    /// Finds the cursor behind a handle this bridge issued.
    fn find_iterator(&self, iterator_id: u32) -> (r: Option<GoIter>)
        ensures
            r is Some <==> self.has_handle(iterator_id),
    {
        let n = self.iterators.len();
        let mut i: usize = 0;
        while i < n
            invariant
                n == self.iterators@.len(),
                0 <= i <= n,
                forall|j: int| 0 <= j < i ==> (#[trigger] self.iterators@[j]).0 != iterator_id,
            decreases n - i,
        {
            if self.iterators[i].0 == iterator_id {
                proof {
                    assert((self.table()[i as int]).0 == iterator_id);
                }
                return Some(self.iterators[i].1);
            }
            i += 1;
        }
        None
    }
}

impl<H: StorageVtable + IteratorVtable> GoStorage<H> {
    /// Reads the value under `key` from the host.
    pub fn get(&mut self, key: &Vec<u8>) -> (r: BackendResult<Option<Vec<u8>>>)
        requires
            old(self).wf(),
        ensures
            final(self).wf(),
            final(self).table() == old(self).table(),
            final(self).next_handle() == old(self).next_handle(),
            exists|status: i32, output: Option<Seq<u8>>, errm: Option<Seq<u8>>, gas: u64|
                read_outcome_matches(r, status, output, errm, gas, get_default_msg(key@)),
    {
        let resp = self.db.vtable.host.read_db(&mut self.db.gas_meter, key);
        let ghost st = resp.status;
        let ghost outv = resp.output@;
        let ghost errv = resp.error_msg@;
        let ghost g = resp.gas_used;
        let mut default = String::from_str("Failed to read a key in the db: ");
        default.append(lossy_string(key).as_str());
        let r = process_read(resp, default);
        proof {
            assert(read_outcome_matches(r, st, outv, errv, g, get_default_msg(key@)));
        }
        r
    }

    /// Writes `value` under `key` in the host's store.
    pub fn set(&mut self, key: &Vec<u8>, value: &Vec<u8>) -> (r: BackendResult<()>)
        requires
            old(self).wf(),
        ensures
            final(self).wf(),
            final(self).table() == old(self).table(),
            final(self).next_handle() == old(self).next_handle(),
            exists|status: i32, errm: Option<Seq<u8>>, gas: u64|
                ack_outcome_matches(r, status, errm, gas, set_default_msg(key@)),
    {
        let resp = self.db.vtable.host.write_db(&mut self.db.gas_meter, key, value);
        let ghost st = resp.status;
        let ghost errv = resp.error_msg@;
        let ghost g = resp.gas_used;
        let mut default = String::from_str("Failed to set a key in the db: ");
        default.append(lossy_string(key).as_str());
        let r = process_ack(resp, default);
        proof {
            assert(ack_outcome_matches(r, st, errv, g, set_default_msg(key@)));
        }
        r
    }

    /// Removes the value under `key` from the host's store.
    pub fn remove(&mut self, key: &Vec<u8>) -> (r: BackendResult<()>)
        requires
            old(self).wf(),
        ensures
            final(self).wf(),
            final(self).table() == old(self).table(),
            final(self).next_handle() == old(self).next_handle(),
            exists|status: i32, errm: Option<Seq<u8>>, gas: u64|
                ack_outcome_matches(r, status, errm, gas, remove_default_msg(key@)),
    {
        let resp = self.db.vtable.host.remove_db(&mut self.db.gas_meter, key);
        let ghost st = resp.status;
        let ghost errv = resp.error_msg@;
        let ghost g = resp.gas_used;
        let mut default = String::from_str("Failed to delete a key in the db: ");
        default.append(lossy_string(key).as_str());
        let r = process_ack(resp, default);
        proof {
            assert(ack_outcome_matches(r, st, errv, g, remove_default_msg(key@)));
        }
        r
    }

    /// Opens a scan over `[start, end)` in the given order and issues a
    /// fresh handle for its cursor: one the bridge has never handed out, and
    /// never will again.
    pub fn scan(&mut self, start: Option<&Vec<u8>>, end: Option<&Vec<u8>>, order: Order) -> (r:
        BackendResult<u32>)
        requires
            old(self).wf(),
        ensures
            final(self).wf(),
            (r.0 matches Ok(id) ==> {
                &&& id == old(self).next_handle()
                &&& !old(self).has_handle(id)
                &&& final(self).next_handle() == id + 1
                &&& exists|it: GoIter| final(self).table() == old(self).table().push((id, it))
                &&& final(self).has_handle(id)
            }),
            (r.0 is Err ==> final(self).table() == old(self).table() && final(self).next_handle()
                == old(self).next_handle()),
            forall|other: u32| old(self).has_handle(other) ==> final(self).has_handle(other),
            exists|status: i32, errm: Option<Seq<u8>>, gas: u64|
                scan_outcome_matches(
                    r,
                    old(self).next_handle(),
                    status,
                    errm,
                    gas,
                    scan_default_msg(opt_bytes(start), opt_bytes(end)),
                ),
    {
                let resp = self.db.vtable.host.scan_db(
            &mut self.db.gas_meter,
            start,
            end,
            order.to_i32(),
        );
        let ghost status = resp.status;
        let ghost errm_view = resp.error_msg@;
        let ghost gas = resp.gas_used;
        let gas_info = GasInfo::with_externally_used(resp.gas_used);
        let go_result = GoError::from_code(resp.status);
        let mut default = String::from_str("Failed to read the next key between ");
        default.append(bound_string(start).as_str());
        default.append(" and ");
        default.append(bound_string(end).as_str());
        match go_result.into_result(resp.error_msg, default.as_str()) {
            Err(err) => {
                let r: BackendResult<u32> = (Err(err), gas_info);
                proof {
                    assert(scan_outcome_matches(
                        r,
                        old(self).next_handle(),
                        status,
                        errm_view,
                        gas,
                        scan_default_msg(opt_bytes(start), opt_bytes(end)),
                    ));
                    assert forall|other: u32| old(self).has_handle(other) implies self.has_handle(
                        other,
                    ) by {
                        let i = choose|i: int|
                            0 <= i < old(self).table().len() && (#[trigger] old(self).table()[i]).0
                                == other;
                        assert((self.table()[i]).0 == other);
                    }
                }
                r
            },
            Ok(()) => {
                if self.next_id == u32::MAX {
                    let r: BackendResult<u32> = (
                        Err(
                            BackendError::unknown(
                                String::from_str("iterator handle space exhausted"),
                            ),
                        ),
                        gas_info,
                    );
                    proof {
                        assert(scan_outcome_matches(
                        r,
                        old(self).next_handle(),
                        status,
                        errm_view,
                        gas,
                        scan_default_msg(opt_bytes(start), opt_bytes(end)),
                    ));
                        assert forall|other: u32|
                            old(self).has_handle(other) implies self.has_handle(other) by {
                            let i = choose|i: int|
                                0 <= i < old(self).table().len() && (#[trigger] old(
                                    self,
                                ).table()[i]).0 == other;
                            assert((self.table()[i]).0 == other);
                        }
                    }
                    return r;
                }
                let id = self.next_id;
                self.next_id = id + 1;
                self.iterators.push((id, resp.iterator));
                let r: BackendResult<u32> = (Ok(id), gas_info);
                proof {
                    let ghost itw = resp.iterator;
                    assert(self.iterators@ == old(self).iterators@.push((id, itw)));
                    assert(scan_outcome_matches(
                        r,
                        old(self).next_handle(),
                        status,
                        errm_view,
                        gas,
                        scan_default_msg(opt_bytes(start), opt_bytes(end)),
                    ));
                    assert forall|other: u32| old(self).has_handle(other) implies self.has_handle(
                        other,
                    ) by {
                        let i = choose|i: int|
                            0 <= i < old(self).table().len() && (#[trigger] old(self).table()[i]).0
                                == other;
                        assert((self.table()[i]).0 == other);
                    }
                    assert((self.table()[self.table().len() - 1]).0 == id);
                }
                r
            },
        }
    }

    /// Fetches the next record of the cursor behind `iterator_id`. A handle
    /// this bridge never issued fails with a dedicated error and costs
    /// nothing; no handle's cursor is touched by another handle's call.
    pub fn next(&mut self, iterator_id: u32) -> (r: BackendResult<Option<Record>>)
        requires
            old(self).wf(),
        ensures
            final(self).wf(),
            final(self).table() == old(self).table(),
            final(self).next_handle() == old(self).next_handle(),
            !old(self).has_handle(iterator_id) ==> (r.0 matches Err(e) && (e matches
                BackendError::IteratorDoesNotExist { id } && id == iterator_id) && r.1
                == GasInfo::spec_free()),
            old(self).has_handle(iterator_id) ==> ((r.0 matches Err(e) && e matches
                BackendError::Unknown { msg } && msg@ == "iterator vtable function 'next' not set"@
                && r.1 == GasInfo::spec_free()) || exists|
                status: i32,
                key: Option<Seq<u8>>,
                value: Option<Seq<u8>>,
                errm: Option<Seq<u8>>,
                gas: u64,
            | next_outcome_matches(r, status, key, value, errm, gas)),
    {
        match self.find_iterator(iterator_id) {
            None => (Err(BackendError::iterator_does_not_exist(iterator_id)), GasInfo::free()),
            Some(iterator) => iterator.next(&mut self.db.vtable.host, &mut self.db.gas_meter),
        }
    }

    /// Fetches the next key of the cursor behind `iterator_id`.
    pub fn next_key(&mut self, iterator_id: u32) -> (r: BackendResult<Option<Vec<u8>>>)
        requires
            old(self).wf(),
        ensures
            final(self).wf(),
            final(self).table() == old(self).table(),
            final(self).next_handle() == old(self).next_handle(),
            !old(self).has_handle(iterator_id) ==> (r.0 matches Err(e) && (e matches
                BackendError::IteratorDoesNotExist { id } && id == iterator_id) && r.1
                == GasInfo::spec_free()),
            old(self).has_handle(iterator_id) ==> ((r.0 matches Err(e) && e matches
                BackendError::Unknown { msg } && msg@
                == "iterator vtable function 'next_key' not set"@ && r.1 == GasInfo::spec_free())
                || exists|status: i32, output: Option<Seq<u8>>, errm: Option<Seq<u8>>, gas: u64|
                read_outcome_matches(
                    r,
                    status,
                    output,
                    errm,
                    gas,
                    "Failed to fetch next item from iterator"@,
                )),
    {
        match self.find_iterator(iterator_id) {
            None => (Err(BackendError::iterator_does_not_exist(iterator_id)), GasInfo::free()),
            Some(iterator) => iterator.next_key(&mut self.db.vtable.host, &mut self.db.gas_meter),
        }
    }

    /// Fetches the next value of the cursor behind `iterator_id`.
    pub fn next_value(&mut self, iterator_id: u32) -> (r: BackendResult<Option<Vec<u8>>>)
        requires
            old(self).wf(),
        ensures
            final(self).wf(),
            final(self).table() == old(self).table(),
            final(self).next_handle() == old(self).next_handle(),
            !old(self).has_handle(iterator_id) ==> (r.0 matches Err(e) && (e matches
                BackendError::IteratorDoesNotExist { id } && id == iterator_id) && r.1
                == GasInfo::spec_free()),
            old(self).has_handle(iterator_id) ==> ((r.0 matches Err(e) && e matches
                BackendError::Unknown { msg } && msg@
                == "iterator vtable function 'next_value' not set"@ && r.1 == GasInfo::spec_free())
                || exists|status: i32, output: Option<Seq<u8>>, errm: Option<Seq<u8>>, gas: u64|
                read_outcome_matches(
                    r,
                    status,
                    output,
                    errm,
                    gas,
                    "Failed to fetch next item from iterator"@,
                )),
    {
        match self.find_iterator(iterator_id) {
            None => (Err(BackendError::iterator_does_not_exist(iterator_id)), GasInfo::free()),
            Some(iterator) => iterator.next_value(&mut self.db.vtable.host, &mut self.db.gas_meter),
        }
    }
}

/// Turns one host read response into the bridge's result, with the given
/// default message.
fn process_read(resp: HostRead, default_error_msg: String) -> (r: BackendResult<Option<Vec<u8>>>)
    ensures
        read_outcome_matches(
            r,
            resp.status,
            resp.output@,
            resp.error_msg@,
            resp.gas_used,
            default_error_msg@,
        ),
{
    let output = resp.output.consume();
    let gas_info = GasInfo::with_externally_used(resp.gas_used);
    let go_result = GoError::from_code(resp.status);
    match go_result.into_result(resp.error_msg, default_error_msg.as_str()) {
        Err(err) => (Err(err), gas_info),
        Ok(()) => (Ok(output), gas_info),
    }
}

/// Turns one host acknowledgement into the bridge's result, with the given
/// default message.
fn process_ack(resp: HostAck, default_error_msg: String) -> (r: BackendResult<()>)
    ensures
        ack_outcome_matches(r, resp.status, resp.error_msg@, resp.gas_used, default_error_msg@),
{
    let gas_info = GasInfo::with_externally_used(resp.gas_used);
    let go_result = GoError::from_code(resp.status);
    match go_result.into_result(resp.error_msg, default_error_msg.as_str()) {
        Err(err) => (Err(err), gas_info),
        Ok(()) => (Ok(()), gas_info),
    }
}

} // verus!
