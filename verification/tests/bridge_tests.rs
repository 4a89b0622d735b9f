use wasmvm::backend::BackendError;
use wasmvm::backend::Order;
use wasmvm::db::Db;
use wasmvm::db::db_t;
use wasmvm::storage::GoStorage;

fn bridge_with_records(op_cost: u64, records: &[(&[u8], &[u8])]) -> GoStorage<db_t> {
    let mut storage = GoStorage::new(Db::new(db_t::new(op_cost)));
    for (k, v) in records {
        let (res, _gas) = storage.set(&k.to_vec(), &v.to_vec());
        res.unwrap();
    }
    storage
}

#[test]
fn get_set_remove_round_trip() {
    let mut storage = bridge_with_records(5, &[]);

    let (res, gas) = storage.set(&b"alpha".to_vec(), &b"one".to_vec());
    res.unwrap();
    assert_eq!(gas.externally_used, 5);

    let (res, gas) = storage.get(&b"alpha".to_vec());
    assert_eq!(res.unwrap(), Some(b"one".to_vec()));
    assert_eq!(gas.externally_used, 5);

    let (res, _gas) = storage.remove(&b"alpha".to_vec());
    res.unwrap();

    let (res, _gas) = storage.get(&b"alpha".to_vec());
    assert_eq!(res.unwrap(), None);
}

#[test]
fn scan_walks_the_range_in_order() {
    let mut storage = bridge_with_records(
        1,
        &[(b"a", b"1"), (b"b", b"2"), (b"c", b"3"), (b"d", b"4")],
    );

    let (res, _gas) = storage.scan(Some(&b"b".to_vec()), Some(&b"d".to_vec()), Order::Ascending);
    let id = res.unwrap();
    let (res, _gas) = storage.next(id);
    assert_eq!(res.unwrap(), Some((b"b".to_vec(), b"2".to_vec())));
    let (res, _gas) = storage.next(id);
    assert_eq!(res.unwrap(), Some((b"c".to_vec(), b"3".to_vec())));
    let (res, _gas) = storage.next(id);
    assert_eq!(res.unwrap(), None);

    let (res, _gas) = storage.scan(None, None, Order::Descending);
    let id = res.unwrap();
    let (res, _gas) = storage.next_key(id);
    assert_eq!(res.unwrap(), Some(b"d".to_vec()));
    let (res, _gas) = storage.next_value(id);
    assert_eq!(res.unwrap(), Some(b"3".to_vec()));
}

#[test]
fn iterators_are_isolated() {
    // Two scans over the same bridge get distinct handles; exhausting one
    // leaves the other's position alone.
    let mut storage = bridge_with_records(1, &[(b"k1", b"v1"), (b"k2", b"v2")]);

    let (res, _gas) = storage.scan(None, None, Order::Ascending);
    let first = res.unwrap();
    let (res, _gas) = storage.scan(None, None, Order::Ascending);
    let second = res.unwrap();
    assert_ne!(first, second);

    // Exhaust the first cursor.
    let (res, _gas) = storage.next(first);
    assert_eq!(res.unwrap(), Some((b"k1".to_vec(), b"v1".to_vec())));
    let (res, _gas) = storage.next(first);
    assert_eq!(res.unwrap(), Some((b"k2".to_vec(), b"v2".to_vec())));
    let (res, _gas) = storage.next(first);
    assert_eq!(res.unwrap(), None);

    // The second cursor still stands at the start.
    let (res, _gas) = storage.next(second);
    assert_eq!(res.unwrap(), Some((b"k1".to_vec(), b"v1".to_vec())));
}

#[test]
fn unknown_iterator_handle_fails() {
    let mut storage = bridge_with_records(1, &[(b"k1", b"v1")]);

    let (res, gas) = storage.next(4711);
    assert_eq!(
        res.unwrap_err(),
        BackendError::IteratorDoesNotExist { id: 4711 }
    );
    assert_eq!(gas.externally_used, 0);

    let (res, _gas) = storage.next_key(4711);
    assert_eq!(
        res.unwrap_err(),
        BackendError::IteratorDoesNotExist { id: 4711 }
    );

    let (res, _gas) = storage.next_value(4711);
    assert_eq!(
        res.unwrap_err(),
        BackendError::IteratorDoesNotExist { id: 4711 }
    );
}
