use wasmvm::backend::Order;
use wasmvm::calls::Instance;
use wasmvm::calls::VmFailure;
use wasmvm::calls::call_2_args;
use wasmvm::calls::do_call_2_args;
use wasmvm::calls::do_call_3_args;
use wasmvm::cache::cache_t;
use wasmvm::cache::init_cache;
use wasmvm::cache::save_wasm;
use wasmvm::db::Db;
use wasmvm::db::db_t;
use wasmvm::errors::ErrnoValue;
use wasmvm::errors::RustError;
use wasmvm::gas_report::GasReport;
use wasmvm::memory::ByteSliceView;
use wasmvm::memory::UnmanagedVector;

fn minimal_module() -> Vec<u8> {
    let mut wasm: Vec<u8> = b"\0asm".to_vec();
    wasm.extend_from_slice(&[1, 0, 0, 0]);
    wasm
}

fn cache_with_module() -> (cache_t, Vec<u8>) {
    let mut error_msg = UnmanagedVector::default();
    let (cache, status) = init_cache(
        ByteSliceView::from_str("cachedir"),
        ByteSliceView::new(b"staking"),
        512,
        32,
        &mut error_msg,
    );
    assert_eq!(status, ErrnoValue::Success);
    let mut cache = cache.unwrap();
    let wasm = minimal_module();
    let mut error_msg = UnmanagedVector::default();
    let (checksum, status) = save_wasm(&mut cache, ByteSliceView::new(&wasm), false, &mut error_msg);
    assert_eq!(status, ErrnoValue::Success);
    (cache, checksum.consume().unwrap())
}

#[test]
fn dispatch_succeeds_and_reports_gas() {
    let (mut cache, checksum) = cache_with_module();
    let mut gas_report = GasReport::default();
    let gas_limit: u64 = 200_000_000_000;

    // An entry point that stores a value, reads it back, and answers.
    let entry = |mut instance: Instance<db_t>, env: Vec<u8>, msg: Vec<u8>| {
        assert_eq!(env, b"env".to_vec());
        assert_eq!(msg, b"{}".to_vec());
        if let Err(f) = instance.consume_gas(12_345) {
            return (instance, Err(f));
        }
        if let Err(f) = instance.storage_set(&b"key".to_vec(), &b"value".to_vec()) {
            return (instance, Err(f));
        }
        let got = match instance.storage_get(&b"key".to_vec()) {
            Ok(v) => v,
            Err(f) => return (instance, Err(f)),
        };
        assert_eq!(got, Some(b"value".to_vec()));
        (instance, Ok(b"done".to_vec()))
    };

    let res = do_call_2_args(
        entry,
        &mut cache,
        ByteSliceView::new(&checksum),
        ByteSliceView::new(b"env"),
        ByteSliceView::new(b"{}"),
        Db::new(db_t::new(7)),
        gas_limit,
        false,
        &mut gas_report,
    );
    assert_eq!(res.unwrap(), b"done".to_vec());
    assert_eq!(gas_report.limit, gas_limit);
    assert_eq!(gas_report.used_internally, 12_345);
    assert_eq!(gas_report.used_externally, 14); // two bridge calls at cost 7
    assert!(gas_report.remaining < gas_limit);
    assert_eq!(
        gas_report.used_internally + gas_report.used_externally + gas_report.remaining,
        gas_limit
    );
}

#[test]
fn gas_report_written_on_contract_failure() {
    // A contract-level failure still gets its gas report, and the failure is
    // surfaced as an engine error, not a missing report.
    let (mut cache, checksum) = cache_with_module();
    let mut gas_report = GasReport::default();
    let gas_limit: u64 = 1_000_000;

    let entry = |mut instance: Instance<db_t>, _env: Vec<u8>, _msg: Vec<u8>| {
        if let Err(f) = instance.consume_gas(600) {
            return (instance, Err(f));
        }
        (
            instance,
            Err::<Vec<u8>, VmFailure>(VmFailure::ContractErr {
                msg: "no entry".to_string(),
            }),
        )
    };

    let res = do_call_2_args(
        entry,
        &mut cache,
        ByteSliceView::new(&checksum),
        ByteSliceView::new(b"env"),
        ByteSliceView::new(b"{}"),
        Db::new(db_t::new(0)),
        gas_limit,
        false,
        &mut gas_report,
    );
    match res.unwrap_err() {
        RustError::VmErr { msg } => assert_eq!(msg, "Error executing Wasm: no entry"),
        _ => panic!("expect different error"),
    }
    assert_eq!(gas_report.limit, gas_limit);
    assert_eq!(gas_report.used_internally, 600);
    assert!(gas_report.used_externally + gas_report.used_internally <= gas_report.limit);
    assert_eq!(
        gas_report.used_internally + gas_report.used_externally + gas_report.remaining,
        gas_report.limit
    );
}

#[test]
fn gas_exhaustion_is_reported_apart() {
    // Spinning until the budget is gone ends in the dedicated out-of-gas
    // status with nothing remaining.
    let (mut cache, checksum) = cache_with_module();
    let mut gas_report = GasReport::default();
    let mut error_msg = UnmanagedVector::default();
    let gas_limit: u64 = 5_000;

    let entry = |mut instance: Instance<db_t>, _env: Vec<u8>, _msg: Vec<u8>| {
        loop {
            if let Err(f) = instance.consume_gas(999) {
                return (instance, Err(f));
            }
        }
    };

    let (data, status) = call_2_args(
        entry,
        &mut cache,
        ByteSliceView::new(&checksum),
        ByteSliceView::new(b"env"),
        ByteSliceView::new(b"{\"cpu_loop\":{}}"),
        Db::new(db_t::new(0)),
        gas_limit,
        false,
        &mut gas_report,
        &mut error_msg,
    );
    assert_eq!(status, ErrnoValue::OutOfGas);
    assert_eq!(data.consume().unwrap(), Vec::<u8>::new());
    let msg = String::from_utf8(error_msg.consume().unwrap()).unwrap();
    assert_eq!(msg, "Ran out of gas");
    assert_eq!(gas_report.limit, gas_limit);
    assert_eq!(gas_report.remaining, 0);
    assert_eq!(gas_report.used_internally, gas_limit);
}

#[test]
fn dispatch_checks_its_arguments() {
    let (mut cache, checksum) = cache_with_module();
    let mut gas_report = GasReport::default();
    let entry =
        |instance: Instance<db_t>, _env: Vec<u8>, _msg: Vec<u8>| (instance, Ok(Vec::new()));

    // Missing checksum
    let res = do_call_2_args(
        entry,
        &mut cache,
        ByteSliceView::nil(),
        ByteSliceView::new(b"env"),
        ByteSliceView::new(b"{}"),
        Db::new(db_t::new(0)),
        1000,
        false,
        &mut gas_report,
    );
    match res.unwrap_err() {
        RustError::UnsetArg { name } => assert_eq!(name, "checksum"),
        _ => panic!("expect different error"),
    }

    // Short checksum
    let entry =
        |instance: Instance<db_t>, _env: Vec<u8>, _msg: Vec<u8>| (instance, Ok(Vec::new()));
    let res = do_call_2_args(
        entry,
        &mut cache,
        ByteSliceView::new(b"too short"),
        ByteSliceView::new(b"env"),
        ByteSliceView::new(b"{}"),
        Db::new(db_t::new(0)),
        1000,
        false,
        &mut gas_report,
    );
    match res.unwrap_err() {
        RustError::VmErr { msg } => assert_eq!(msg, "Checksum not of length 32"),
        _ => panic!("expect different error"),
    }

    // Unknown checksum: the gas report slot stays untouched.
    let entry =
        |instance: Instance<db_t>, _env: Vec<u8>, _msg: Vec<u8>| (instance, Ok(Vec::new()));
    let res = do_call_2_args(
        entry,
        &mut cache,
        ByteSliceView::new(&[3u8; 32]),
        ByteSliceView::new(b"env"),
        ByteSliceView::new(b"{}"),
        Db::new(db_t::new(0)),
        1000,
        false,
        &mut gas_report,
    );
    match res.unwrap_err() {
        RustError::VmErr { msg } => {
            assert_eq!(msg, "Cache error: Error opening Wasm file for reading")
        }
        _ => panic!("expect different error"),
    }
    assert_eq!(gas_report, GasReport::default());

    // A three-argument entry point validates the third argument too.
    let entry = |instance: Instance<db_t>, _env: Vec<u8>, _info: Vec<u8>, _msg: Vec<u8>| {
        (instance, Ok(Vec::new()))
    };
    let res = do_call_3_args(
        entry,
        &mut cache,
        ByteSliceView::new(&checksum),
        ByteSliceView::new(b"env"),
        ByteSliceView::new(b"info"),
        ByteSliceView::nil(),
        Db::new(db_t::new(0)),
        1000,
        false,
        &mut gas_report,
    );
    match res.unwrap_err() {
        RustError::UnsetArg { name } => assert_eq!(name, "arg3"),
        _ => panic!("expect different error"),
    }
}

#[test]
fn end_to_end_scenario() {
    // A cache opened with the staking capability; a plain module and a
    // reactive one are saved and analyzed; the plain module is instantiated
    // and then driven out of gas.
    let mut error_msg = UnmanagedVector::default();
    let (cache, status) = init_cache(
        ByteSliceView::from_str("cachedir"),
        ByteSliceView::new(b"staking"),
        512,
        32,
        &mut error_msg,
    );
    assert_eq!(status, ErrnoValue::Success);
    let mut cache = cache.unwrap();

    let plain = minimal_module();
    let mut error_msg = UnmanagedVector::default();
    let (checksum, status) = save_wasm(&mut cache, ByteSliceView::new(&plain), false, &mut error_msg);
    assert_eq!(status, ErrnoValue::Success);
    let checksum = checksum.consume().unwrap();

    let mut error_msg = UnmanagedVector::default();
    let (report, status) = wasmvm::cache::analyze_code(
        &cache,
        ByteSliceView::new(&checksum),
        &mut error_msg,
    );
    assert_eq!(status, ErrnoValue::Success);
    assert!(!report.has_ibc_entry_points);
    assert_eq!(report.required_capabilities.consume().unwrap(), b"");

    // Instantiate with an empty JSON message: succeeds with nonzero
    // internal use and remaining below the limit.
    let gas_limit: u64 = 200_000_000_000;
    let mut gas_report = GasReport::default();
    let instantiate_entry =
        |mut instance: Instance<db_t>, _env: Vec<u8>, _info: Vec<u8>, msg: Vec<u8>| {
            assert_eq!(msg, b"{}".to_vec());
            if let Err(f) = instance.consume_gas(55_000) {
                return (instance, Err(f));
            }
            if let Err(f) = instance.storage_set(&b"config".to_vec(), &b"{}".to_vec()) {
                return (instance, Err(f));
            }
            (instance, Ok(b"{\"ok\":true}".to_vec()))
        };
    let res = do_call_3_args(
        instantiate_entry,
        &mut cache,
        ByteSliceView::new(&checksum),
        ByteSliceView::new(b"env"),
        ByteSliceView::new(b"info"),
        ByteSliceView::new(b"{}"),
        Db::new(db_t::new(100)),
        gas_limit,
        false,
        &mut gas_report,
    );
    assert_eq!(res.unwrap(), b"{\"ok\":true}".to_vec());
    assert!(gas_report.used_internally > 0);
    assert!(gas_report.remaining < gas_limit);

    // Execute with a message designed to spin until the budget is gone.
    let mut gas_report = GasReport::default();
    let mut error_msg = UnmanagedVector::default();
    let execute_entry =
        |mut instance: Instance<db_t>, _env: Vec<u8>, _info: Vec<u8>, msg: Vec<u8>| {
            assert_eq!(msg, b"{\"cpu_loop\":{}}".to_vec());
            loop {
                if let Err(f) = instance.consume_gas(1_000_000) {
                    return (instance, Err(f));
                }
            }
        };
    let res = do_call_3_args(
        execute_entry,
        &mut cache,
        ByteSliceView::new(&checksum),
        ByteSliceView::new(b"env"),
        ByteSliceView::new(b"info"),
        ByteSliceView::new(b"{\"cpu_loop\":{}}"),
        Db::new(db_t::new(100)),
        gas_limit,
        false,
        &mut gas_report,
    );
    match res.unwrap_err() {
        RustError::OutOfGas => {}
        _ => panic!("expect different error"),
    }
    assert_eq!(gas_report.remaining, 0);
    let _ = error_msg.consume();
}

#[test]
fn iterator_flows_through_an_instance() {
    let (mut cache, checksum) = cache_with_module();
    let mut gas_report = GasReport::default();

    let entry = |mut instance: Instance<db_t>, _env: Vec<u8>, _msg: Vec<u8>| {
        for (k, v) in [(b"a".to_vec(), b"1".to_vec()), (b"b".to_vec(), b"2".to_vec())] {
            if let Err(f) = instance.storage_set(&k, &v) {
                return (instance, Err(f));
            }
        }
        let id = match instance.storage_scan(None, None, Order::Ascending) {
            Ok(id) => id,
            Err(f) => return (instance, Err(f)),
        };
        let mut collected: Vec<u8> = Vec::new();
        loop {
            match instance.storage_next(id) {
                Ok(Some((_k, mut v))) => collected.append(&mut v),
                Ok(None) => break,
                Err(f) => return (instance, Err(f)),
            }
        }
        (instance, Ok(collected))
    };

    let res = do_call_2_args(
        entry,
        &mut cache,
        ByteSliceView::new(&checksum),
        ByteSliceView::new(b"env"),
        ByteSliceView::new(b"{}"),
        Db::new(db_t::new(2)),
        1_000_000,
        false,
        &mut gas_report,
    );
    assert_eq!(res.unwrap(), b"12".to_vec());
    // set, set, scan, next, next, next: six bridge calls at cost two.
    assert_eq!(gas_report.used_externally, 12);
}
