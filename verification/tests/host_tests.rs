use wasmvm::backend::BackendError;
use wasmvm::backend::Order;
use wasmvm::db::Db;
use wasmvm::db::HostAck;
use wasmvm::db::HostNext;
use wasmvm::db::HostRead;
use wasmvm::db::HostScan;
use wasmvm::db::IteratorVtable;
use wasmvm::db::StorageVtable;
use wasmvm::db::gas_meter_t;
use wasmvm::iterator::GoIter;
use wasmvm::iterator::Iterator_vtable;
use wasmvm::iterator::iterator_t;
use wasmvm::memory::UnmanagedVector;
use wasmvm::storage::GoStorage;

/// A host that reports a user error on reads without any message, sends
/// back a key without its value on cursor steps, and opens scans without
/// filling in the cursor operations.
struct OddHost;

impl StorageVtable for OddHost {
    fn read_db(&mut self, _gas_meter: &mut gas_meter_t, _key: &Vec<u8>) -> HostRead {
        HostRead {
            status: 5,
            output: UnmanagedVector::none(),
            error_msg: UnmanagedVector::none(),
            gas_used: 11,
        }
    }

    fn write_db(&mut self, _gas_meter: &mut gas_meter_t, _key: &Vec<u8>, _value: &Vec<u8>) -> HostAck {
        HostAck {
            status: 1,
            error_msg: UnmanagedVector::none(),
            gas_used: 0,
        }
    }

    fn remove_db(&mut self, _gas_meter: &mut gas_meter_t, _key: &Vec<u8>) -> HostAck {
        HostAck {
            status: 5,
            error_msg: UnmanagedVector::some(b"no such row".to_vec()),
            gas_used: 0,
        }
    }

    fn scan_db(
        &mut self,
        _gas_meter: &mut gas_meter_t,
        _start: Option<&Vec<u8>>,
        _end: Option<&Vec<u8>>,
        _order: i32,
    ) -> HostScan {
        HostScan {
            status: 0,
            iterator: GoIter::new(),
            error_msg: UnmanagedVector::none(),
            gas_used: 2,
        }
    }
}

impl IteratorVtable for OddHost {
    fn next(&mut self, _gas_meter: &mut gas_meter_t, _iter: iterator_t) -> HostNext {
        HostNext {
            status: 0,
            key: UnmanagedVector::some(b"key-without-value".to_vec()),
            value: UnmanagedVector::none(),
            error_msg: UnmanagedVector::none(),
            gas_used: 3,
        }
    }

    fn next_key(&mut self, _gas_meter: &mut gas_meter_t, _iter: iterator_t) -> HostRead {
        HostRead {
            status: 0,
            output: UnmanagedVector::none(),
            error_msg: UnmanagedVector::none(),
            gas_used: 0,
        }
    }

    fn next_value(&mut self, _gas_meter: &mut gas_meter_t, _iter: iterator_t) -> HostRead {
        HostRead {
            status: 0,
            output: UnmanagedVector::none(),
            error_msg: UnmanagedVector::none(),
            gas_used: 0,
        }
    }
}

#[test]
fn host_faults_carry_default_messages_with_the_key() {
    let mut storage = GoStorage::new(Db::new(OddHost));

    // A user error without a message falls back to the operation's default,
    // which names the key for diagnosability.
    let (res, gas) = storage.get(&b"mykey".to_vec());
    assert_eq!(
        res.unwrap_err(),
        BackendError::UserErr {
            msg: "Failed to read a key in the db: mykey".to_string()
        }
    );
    assert_eq!(gas.externally_used, 11);

    // A panic status carries no message at all.
    let (res, _gas) = storage.set(&b"k".to_vec(), &b"v".to_vec());
    assert_eq!(res.unwrap_err(), BackendError::ForeignPanic);

    // A user error with a message keeps it.
    let (res, _gas) = storage.remove(&b"k".to_vec());
    assert_eq!(
        res.unwrap_err(),
        BackendError::UserErr {
            msg: "no such row".to_string()
        }
    );
}

#[test]
fn key_without_value_is_a_bridge_fault() {
    let mut storage = GoStorage::new(Db::new(OddHost));
    let (res, _gas) = storage.scan(None, None, Order::Ascending);
    let id = res.unwrap();

    // The host advanced but handed out a key with no value: that is a
    // fault of the bridge protocol, never a silent end of the cursor.
    // This host also left the cursor operations unset, so the step fails
    // on that first.
    let (res, gas) = storage.next(id);
    assert_eq!(
        res.unwrap_err(),
        BackendError::Unknown {
            msg: "iterator vtable function 'next' not set".to_string()
        }
    );
    assert_eq!(gas.externally_used, 0);
}

#[test]
fn key_without_value_from_a_filled_cursor() {
    struct FilledHost(OddHost);
    impl StorageVtable for FilledHost {
        fn read_db(&mut self, m: &mut gas_meter_t, k: &Vec<u8>) -> HostRead {
            self.0.read_db(m, k)
        }
        fn write_db(&mut self, m: &mut gas_meter_t, k: &Vec<u8>, v: &Vec<u8>) -> HostAck {
            self.0.write_db(m, k, v)
        }
        fn remove_db(&mut self, m: &mut gas_meter_t, k: &Vec<u8>) -> HostAck {
            self.0.remove_db(m, k)
        }
        fn scan_db(
            &mut self,
            m: &mut gas_meter_t,
            s: Option<&Vec<u8>>,
            e: Option<&Vec<u8>>,
            o: i32,
        ) -> HostScan {
            let mut scan = self.0.scan_db(m, s, e, o);
            scan.iterator = GoIter {
                state: iterator_t::empty(),
                vtable: Iterator_vtable {
                    has_next: true,
                    has_next_key: true,
                    has_next_value: true,
                },
            };
            scan
        }
    }
    impl IteratorVtable for FilledHost {
        fn next(&mut self, m: &mut gas_meter_t, i: iterator_t) -> HostNext {
            self.0.next(m, i)
        }
        fn next_key(&mut self, m: &mut gas_meter_t, i: iterator_t) -> HostRead {
            self.0.next_key(m, i)
        }
        fn next_value(&mut self, m: &mut gas_meter_t, i: iterator_t) -> HostRead {
            self.0.next_value(m, i)
        }
    }

    let mut storage = GoStorage::new(Db::new(FilledHost(OddHost)));
    let (res, _gas) = storage.scan(None, None, Order::Ascending);
    let id = res.unwrap();
    let (res, gas) = storage.next(id);
    assert_eq!(
        res.unwrap_err(),
        BackendError::Unknown {
            msg: "Failed to read value while reading the next key in the db".to_string()
        }
    );
    assert_eq!(gas.externally_used, 3);
}
