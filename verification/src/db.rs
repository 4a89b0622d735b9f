//! The host storage interface: what the remote side of the boundary offers,
//! and an in-memory host used to exercise the bridge in-process.
//!
//! A host call never unwinds: it reports a status code, optional output
//! buffers, an optional error message, and the gas it metered. Nothing is
//! assumed about the values a host returns; the bridge states what holds of
//! every outcome.

use vstd::prelude::*;
use vstd::slice::slice_to_vec;
use crate::iterator::GoIter;
use crate::iterator::Iterator_vtable;
use crate::iterator::iterator_t;
use crate::memory::UnmanagedVector;

verus! {

/// The host's gas meter: the cost the host has billed so far.
#[allow(non_camel_case_types)]
pub struct gas_meter_t {
    pub used: u64,
}

impl gas_meter_t {
    pub fn new() -> (r: Self)
        ensures
            r.used == 0,
    {
        gas_meter_t { used: 0 }
    }

    /// Bills `amount` more gas, holding at the maximum when the meter is
    /// full.
    pub fn charge(&mut self, amount: u64)
        ensures
            final(self).used == if old(self).used + amount <= u64::MAX {
                old(self).used + amount
            } else {
                u64::MAX as int
            },
    {
        if self.used <= u64::MAX - amount {
            self.used = self.used + amount;
        } else {
            self.used = u64::MAX;
        }
    }
}

/// What the host returns from a read: a status, the value found (absent when
/// the key has none), an optional error message, and the gas metered.
pub struct HostRead {
    pub status: i32,
    pub output: UnmanagedVector,
    pub error_msg: UnmanagedVector,
    pub gas_used: u64,
}

/// What the host returns from a write or a removal.
pub struct HostAck {
    pub status: i32,
    pub error_msg: UnmanagedVector,
    pub gas_used: u64,
}

/// What the host returns from opening a scan: a cursor referencing host-side
/// iterator state.
pub struct HostScan {
    pub status: i32,
    pub iterator: GoIter,
    pub error_msg: UnmanagedVector,
    pub gas_used: u64,
}

/// What the host returns from advancing a cursor: both buffers absent means
/// the cursor is done.
pub struct HostNext {
    pub status: i32,
    pub key: UnmanagedVector,
    pub value: UnmanagedVector,
    pub error_msg: UnmanagedVector,
    pub gas_used: u64,
}

/// The storage operations the host side supplies: the dispatch table of the
/// boundary, as a trait.
pub trait StorageVtable {
    fn read_db(&mut self, gas_meter: &mut gas_meter_t, key: &Vec<u8>) -> HostRead;

    fn write_db(&mut self, gas_meter: &mut gas_meter_t, key: &Vec<u8>, value: &Vec<u8>) -> HostAck;

    fn remove_db(&mut self, gas_meter: &mut gas_meter_t, key: &Vec<u8>) -> HostAck;

    /// Opens a scan over `[start, end)` in the given order (`1` ascending,
    /// `2` descending); an absent bound is open.
    fn scan_db(
        &mut self,
        gas_meter: &mut gas_meter_t,
        start: Option<&Vec<u8>>,
        end: Option<&Vec<u8>>,
        order: i32,
    ) -> HostScan;
}

/// The iterator operations the host side supplies.
pub trait IteratorVtable {
    fn next(&mut self, gas_meter: &mut gas_meter_t, iter: iterator_t) -> HostNext;

    fn next_key(&mut self, gas_meter: &mut gas_meter_t, iter: iterator_t) -> HostRead;

    fn next_value(&mut self, gas_meter: &mut gas_meter_t, iter: iterator_t) -> HostRead;
}

/// The dispatch table bound to one host: where the original design held raw
/// function pointers, this holds the value whose trait impl supplies the
/// operations.
#[allow(non_camel_case_types)]
pub struct Db_vtable<H> {
    pub host: H,
}

/// The host storage handle bound to one call: the host's state and dispatch
/// table, and the gas meter threaded through every operation on it.
pub struct Db<H> {
    pub gas_meter: gas_meter_t,
    pub vtable: Db_vtable<H>,
}

impl<H> Db<H> {
    pub fn new(host: H) -> (r: Self)
        ensures
            r.gas_meter.used == 0,
            r.vtable.host == host,
    {
        Db { gas_meter: gas_meter_t::new(), vtable: Db_vtable { host } }
    }
}

/// An in-memory host: a key-value store with cursor state, standing in for
/// the remote side so the bridge can be driven entirely in-process. Every
/// operation succeeds and bills a flat cost per call.
#[allow(non_camel_case_types)]
pub struct db_t {
    records: Vec<(Vec<u8>, Vec<u8>)>,
    iterators: Vec<InMemIter>,
    op_cost: u64,
}

struct InMemIter {
    items: Vec<(Vec<u8>, Vec<u8>)>,
    pos: usize,
}

impl db_t {
    /// An empty store whose operations each report `op_cost` gas.
    pub fn new(op_cost: u64) -> db_t {
        db_t { records: Vec::new(), iterators: Vec::new(), op_cost }
    }

    /// Where `key` is, or where it would be inserted to keep the records
    /// sorted.
    fn position_for(&self, key: &Vec<u8>) -> (r: usize)
        ensures
            r <= self.records@.len(),
    {
        let n = self.records.len();
        let mut i: usize = 0;
        while i < n
            invariant
                n == self.records@.len(),
                0 <= i <= n,
            decreases n - i,
        {
            if !crate::bytes_util::bytes_lt(&self.records[i].0, key) {
                return i;
            }
            i += 1;
        }
        n
    }

    fn lookup(&self, key: &Vec<u8>) -> Option<Vec<u8>> {
        let i = self.position_for(key);
        if i < self.records.len() && crate::bytes_util::bytes_eq(&self.records[i].0, key) {
            Some(slice_to_vec(self.records[i].1.as_slice()))
        } else {
            None
        }
    }

    fn store(&mut self, key: &Vec<u8>, value: &Vec<u8>) {
        let i = self.position_for(key);
        if i < self.records.len() && crate::bytes_util::bytes_eq(&self.records[i].0, key) {
            let _ = self.records.remove(i);
        }
        self.records.insert(i, (slice_to_vec(key.as_slice()), slice_to_vec(value.as_slice())));
    }

    fn erase(&mut self, key: &Vec<u8>) {
        let i = self.position_for(key);
        if i < self.records.len() && crate::bytes_util::bytes_eq(&self.records[i].0, key) {
            let _ = self.records.remove(i);
        }
    }

    /// The records in `[start, end)`, ascending; an absent bound is open.
    fn select_range(&self, start: Option<&Vec<u8>>, end: Option<&Vec<u8>>) -> Vec<
        (Vec<u8>, Vec<u8>),
    > {
        let mut out: Vec<(Vec<u8>, Vec<u8>)> = Vec::new();
        let n = self.records.len();
        let mut i: usize = 0;
        while i < n
            invariant
                n == self.records@.len(),
                0 <= i <= n,
            decreases n - i,
        {
            let k = &self.records[i].0;
            let after_start = match start {
                Some(s) => crate::bytes_util::bytes_le(s, k),
                None => true,
            };
            let before_end = match end {
                Some(e) => crate::bytes_util::bytes_lt(k, e),
                None => true,
            };
            if after_start && before_end {
                out.push(
                    (slice_to_vec(k.as_slice()), slice_to_vec(self.records[i].1.as_slice())),
                );
            }
            i += 1;
        }
        out
    }
}

fn reversed(items: Vec<(Vec<u8>, Vec<u8>)>) -> Vec<(Vec<u8>, Vec<u8>)> {
    let mut out: Vec<(Vec<u8>, Vec<u8>)> = Vec::new();
    let mut rest = items;
    while rest.len() > 0
        decreases rest@.len(),
    {
        match rest.pop() {
            Some(kv) => out.push(kv),
            None => {},
        }
    }
    out
}

impl StorageVtable for db_t {
    fn read_db(&mut self, gas_meter: &mut gas_meter_t, key: &Vec<u8>) -> HostRead {
        gas_meter.charge(self.op_cost);
        let output = match self.lookup(key) {
            Some(v) => UnmanagedVector::some(v),
            None => UnmanagedVector::none(),
        };
        HostRead { status: 0, output, error_msg: UnmanagedVector::none(), gas_used: self.op_cost }
    }

    fn write_db(&mut self, gas_meter: &mut gas_meter_t, key: &Vec<u8>, value: &Vec<u8>) -> HostAck {
        gas_meter.charge(self.op_cost);
        self.store(key, value);
        HostAck { status: 0, error_msg: UnmanagedVector::none(), gas_used: self.op_cost }
    }

    fn remove_db(&mut self, gas_meter: &mut gas_meter_t, key: &Vec<u8>) -> HostAck {
        gas_meter.charge(self.op_cost);
        self.erase(key);
        HostAck { status: 0, error_msg: UnmanagedVector::none(), gas_used: self.op_cost }
    }

    fn scan_db(
        &mut self,
        gas_meter: &mut gas_meter_t,
        start: Option<&Vec<u8>>,
        end: Option<&Vec<u8>>,
        order: i32,
    ) -> HostScan {
        gas_meter.charge(self.op_cost);
        let selected = self.select_range(start, end);
        let items = if order == 2 {
            reversed(selected)
        } else {
            selected
        };
        let index = self.iterators.len();
        self.iterators.push(InMemIter { items, pos: 0 });
        let iterator = GoIter {
            state: iterator_t { call_id: 0, iterator_index: index as u64 },
            vtable: Iterator_vtable { has_next: true, has_next_key: true, has_next_value: true },
        };
        HostScan { status: 0, iterator, error_msg: UnmanagedVector::none(), gas_used: self.op_cost }
    }
}

impl db_t {
    /// Advances the cursor `iter` names and hands out what it passed, or
    /// `(None, None)` at its end; a cursor the store never issued gets a
    /// bad-argument status.
    fn advance(&mut self, iter: iterator_t) -> (i32, Option<Vec<u8>>, Option<Vec<u8>>) {
        if iter.iterator_index >= self.iterators.len() as u64 {
            return (2, None, None);
        }
        let idx = iter.iterator_index as usize;
        let mut it = self.iterators.remove(idx);
        let out = if it.pos < it.items.len() {
            let key = slice_to_vec(it.items[it.pos].0.as_slice());
            let value = slice_to_vec(it.items[it.pos].1.as_slice());
            it.pos = it.pos + 1;
            (0, Some(key), Some(value))
        } else {
            (0, None, None)
        };
        self.iterators.insert(idx, it);
        out
    }
}

impl IteratorVtable for db_t {
    fn next(&mut self, gas_meter: &mut gas_meter_t, iter: iterator_t) -> HostNext {
        gas_meter.charge(self.op_cost);
        let (status, key, value) = self.advance(iter);
        HostNext {
            status,
            key: UnmanagedVector::new(key),
            value: UnmanagedVector::new(value),
            error_msg: UnmanagedVector::none(),
            gas_used: self.op_cost,
        }
    }

    fn next_key(&mut self, gas_meter: &mut gas_meter_t, iter: iterator_t) -> HostRead {
        gas_meter.charge(self.op_cost);
        let (status, key, _value) = self.advance(iter);
        HostRead {
            status,
            output: UnmanagedVector::new(key),
            error_msg: UnmanagedVector::none(),
            gas_used: self.op_cost,
        }
    }

    fn next_value(&mut self, gas_meter: &mut gas_meter_t, iter: iterator_t) -> HostRead {
        gas_meter.charge(self.op_cost);
        let (status, _key, value) = self.advance(iter);
        HostRead {
            status,
            output: UnmanagedVector::new(value),
            error_msg: UnmanagedVector::none(),
            gas_used: self.op_cost,
        }
    }
}

} // verus!
