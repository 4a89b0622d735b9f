use wasmvm::cache::Checksum;
use wasmvm::cache::Metrics;
use wasmvm::cache::analyze_code;
use wasmvm::cache::get_metrics;
use wasmvm::cache::init_cache;
use wasmvm::cache::load_wasm;
use wasmvm::cache::pin;
use wasmvm::cache::release_cache;
use wasmvm::cache::remove_wasm;
use wasmvm::cache::save_wasm;
use wasmvm::cache::set_to_csv;
use wasmvm::cache::unpin;
use wasmvm::db::Db;
use wasmvm::db::db_t;
use wasmvm::errors::ErrnoValue;
use wasmvm::memory::ByteSliceView;
use wasmvm::memory::UnmanagedVector;

/// Appends `v` in LEB128.
fn push_leb(mut v: u32, out: &mut Vec<u8>) {
    loop {
        let b = (v & 0x7f) as u8;
        v >>= 7;
        if v == 0 {
            out.push(b);
            return;
        }
        out.push(b | 0x80);
    }
}

/// A structurally well-formed module exporting the given function names.
fn module_with_exports(names: &[&str]) -> Vec<u8> {
    let mut wasm: Vec<u8> = b"\0asm".to_vec();
    wasm.extend_from_slice(&[1, 0, 0, 0]);
    if names.is_empty() {
        return wasm;
    }
    let mut payload: Vec<u8> = Vec::new();
    push_leb(names.len() as u32, &mut payload);
    for name in names {
        let bytes = name.as_bytes();
        push_leb(bytes.len() as u32, &mut payload);
        payload.extend_from_slice(bytes);
        payload.push(0); // kind: function
        payload.push(0); // function index
    }
    wasm.push(7); // export section
    push_leb(payload.len() as u32, &mut wasm);
    wasm.extend_from_slice(&payload);
    wasm
}

fn fresh_cache(capabilities: &[u8]) -> wasmvm::cache::cache_t {
    let mut error_msg = UnmanagedVector::default();
    let (cache, status) = init_cache(
        ByteSliceView::from_str("cachedir"),
        ByteSliceView::new(capabilities),
        512,
        32,
        &mut error_msg,
    );
    assert_eq!(status, ErrnoValue::Success);
    assert!(error_msg.is_none());
    cache.unwrap()
}

#[test]
fn init_cache_and_release_cache_work() {
    let capabilities = b"staking";
    let mut error_msg = UnmanagedVector::default();
    let (cache, _status) = init_cache(
        ByteSliceView::from_str("cachedir"),
        ByteSliceView::new(capabilities),
        512,
        32,
        &mut error_msg,
    );
    assert!(error_msg.is_none());
    let _ = error_msg.consume();

    release_cache(cache.unwrap());
}

#[test]
fn init_cache_rejects_missing_arguments() {
    let mut error_msg = UnmanagedVector::default();
    let (cache, status) = init_cache(
        ByteSliceView::nil(),
        ByteSliceView::new(b"staking"),
        512,
        32,
        &mut error_msg,
    );
    assert!(cache.is_none());
    assert_eq!(status, ErrnoValue::Other);
    let msg = String::from_utf8(error_msg.consume().unwrap()).unwrap();
    assert_eq!(msg, "Null/Nil argument: data_dir");
}

#[test]
fn save_wasm_works() {
    let mut cache = fresh_cache(b"staking");

    let wasm = module_with_exports(&[]);
    let mut error_msg = UnmanagedVector::default();
    save_wasm(&mut cache, ByteSliceView::new(&wasm), false, &mut error_msg);
    assert!(error_msg.is_none());
    let _ = error_msg.consume();

    release_cache(cache);
}

#[test]
fn save_wasm_is_idempotent() {
    // Saving the same bytes twice yields the identical checksum both times,
    // and the second save does not error.
    let mut cache = fresh_cache(b"staking");
    let wasm = module_with_exports(&[]);

    let mut error_msg = UnmanagedVector::default();
    let (first, status) = save_wasm(&mut cache, ByteSliceView::new(&wasm), false, &mut error_msg);
    assert_eq!(status, ErrnoValue::Success);
    let first = first.consume().unwrap();

    let mut error_msg = UnmanagedVector::default();
    let (second, status) = save_wasm(&mut cache, ByteSliceView::new(&wasm), false, &mut error_msg);
    assert_eq!(status, ErrnoValue::Success);
    assert!(error_msg.is_none());
    let second = second.consume().unwrap();

    assert_eq!(first, second);
    assert_eq!(first.len(), 32);
    release_cache(cache);
}

#[test]
fn save_wasm_rejects_malformed_modules() {
    let mut cache = fresh_cache(b"staking");
    let mut error_msg = UnmanagedVector::default();
    let (_, status) = save_wasm(
        &mut cache,
        ByteSliceView::new(b"not a module"),
        false,
        &mut error_msg,
    );
    assert_eq!(status, ErrnoValue::Other);
    let msg = String::from_utf8(error_msg.consume().unwrap()).unwrap();
    assert_eq!(
        msg,
        "Error calling the VM: Cache error: Wasm bytecode could not be deserialized"
    );
    release_cache(cache);
}

#[test]
fn save_wasm_rejects_unavailable_capabilities() {
    let mut cache = fresh_cache(b"staking");
    let wasm = module_with_exports(&["requires_iterator"]);
    let mut error_msg = UnmanagedVector::default();
    let (_, status) = save_wasm(&mut cache, ByteSliceView::new(&wasm), false, &mut error_msg);
    assert_eq!(status, ErrnoValue::Other);
    let msg = String::from_utf8(error_msg.consume().unwrap()).unwrap();
    assert_eq!(
        msg,
        "Error calling the VM: Cache error: Wasm contract requires unavailable capability: iterator"
    );

    // An unchecked save skips validation.
    let mut error_msg = UnmanagedVector::default();
    let (_, status) = save_wasm(&mut cache, ByteSliceView::new(&wasm), true, &mut error_msg);
    assert_eq!(status, ErrnoValue::Success);
    release_cache(cache);
}

#[test]
fn remove_wasm_works() {
    let mut cache = fresh_cache(b"staking");
    let wasm = module_with_exports(&[]);

    let mut error_msg = UnmanagedVector::default();
    let (checksum, _) = save_wasm(&mut cache, ByteSliceView::new(&wasm), false, &mut error_msg);
    assert!(error_msg.is_none());
    let checksum = checksum.consume().unwrap_or_default();

    // Removing once works
    let mut error_msg = UnmanagedVector::default();
    let status = remove_wasm(&mut cache, ByteSliceView::new(&checksum), &mut error_msg);
    assert_eq!(status, ErrnoValue::Success);
    assert!(error_msg.is_none());
    let _ = error_msg.consume();

    // Removing again fails
    let mut error_msg = UnmanagedVector::default();
    let status = remove_wasm(&mut cache, ByteSliceView::new(&checksum), &mut error_msg);
    assert_eq!(status, ErrnoValue::Other);
    let msg = String::from_utf8(error_msg.consume().unwrap()).unwrap();
    assert_eq!(
        msg,
        "Error calling the VM: Cache error: Wasm file does not exist"
    );

    release_cache(cache);
}

#[test]
fn remove_then_load_fails() {
    let mut cache = fresh_cache(b"staking");
    let wasm = module_with_exports(&[]);

    let mut error_msg = UnmanagedVector::default();
    let (checksum, _) = save_wasm(&mut cache, ByteSliceView::new(&wasm), false, &mut error_msg);
    let checksum = checksum.consume().unwrap();

    let mut error_msg = UnmanagedVector::default();
    let status = remove_wasm(&mut cache, ByteSliceView::new(&checksum), &mut error_msg);
    assert_eq!(status, ErrnoValue::Success);

    // Loading after removal fails with a not-found-class error.
    let mut error_msg = UnmanagedVector::default();
    let (_, status) = load_wasm(&cache, ByteSliceView::new(&checksum), &mut error_msg);
    assert_eq!(status, ErrnoValue::Other);
    let msg = String::from_utf8(error_msg.consume().unwrap()).unwrap();
    assert_eq!(
        msg,
        "Error calling the VM: Cache error: Error opening Wasm file for reading"
    );

    release_cache(cache);
}

#[test]
fn load_wasm_works() {
    let mut cache = fresh_cache(b"staking");
    let wasm = module_with_exports(&[]);

    let mut error_msg = UnmanagedVector::default();
    let (checksum, _) = save_wasm(&mut cache, ByteSliceView::new(&wasm), false, &mut error_msg);
    assert!(error_msg.is_none());
    let checksum = checksum.consume().unwrap_or_default();

    let mut error_msg = UnmanagedVector::default();
    let (loaded, status) = load_wasm(&cache, ByteSliceView::new(&checksum), &mut error_msg);
    assert_eq!(status, ErrnoValue::Success);
    assert!(error_msg.is_none());
    let loaded = loaded.consume().unwrap_or_default();
    assert_eq!(loaded, wasm);

    release_cache(cache);
}

#[test]
fn pin_works() {
    let mut cache = fresh_cache(b"staking");
    let wasm = module_with_exports(&[]);

    let mut error_msg = UnmanagedVector::default();
    let (checksum, _) = save_wasm(&mut cache, ByteSliceView::new(&wasm), false, &mut error_msg);
    assert!(error_msg.is_none());
    let checksum = checksum.consume().unwrap_or_default();

    let mut error_msg = UnmanagedVector::default();
    let status = pin(&mut cache, ByteSliceView::new(&checksum), &mut error_msg);
    assert_eq!(status, ErrnoValue::Success);
    assert!(error_msg.is_none());

    // Pinning again has no effect
    let mut error_msg = UnmanagedVector::default();
    let status = pin(&mut cache, ByteSliceView::new(&checksum), &mut error_msg);
    assert_eq!(status, ErrnoValue::Success);
    assert!(error_msg.is_none());

    release_cache(cache);
}

#[test]
fn unpin_works() {
    let mut cache = fresh_cache(b"staking");
    let wasm = module_with_exports(&[]);

    let mut error_msg = UnmanagedVector::default();
    let (checksum, _) = save_wasm(&mut cache, ByteSliceView::new(&wasm), false, &mut error_msg);
    assert!(error_msg.is_none());
    let checksum = checksum.consume().unwrap_or_default();

    let mut error_msg = UnmanagedVector::default();
    let status = pin(&mut cache, ByteSliceView::new(&checksum), &mut error_msg);
    assert_eq!(status, ErrnoValue::Success);

    let mut error_msg = UnmanagedVector::default();
    let status = unpin(&mut cache, ByteSliceView::new(&checksum), &mut error_msg);
    assert_eq!(status, ErrnoValue::Success);
    assert!(error_msg.is_none());

    // Unpinning again has no effect
    let mut error_msg = UnmanagedVector::default();
    let status = unpin(&mut cache, ByteSliceView::new(&checksum), &mut error_msg);
    assert_eq!(status, ErrnoValue::Success);
    assert!(error_msg.is_none());

    release_cache(cache);
}

#[test]
fn pin_unpin_idempotence_in_metrics() {
    // Pinning twice counts the pinned element once; unpinning an unpinned
    // checksum is a no-op with no error.
    let mut cache = fresh_cache(b"staking");
    let wasm = module_with_exports(&[]);
    let mut error_msg = UnmanagedVector::default();
    let (checksum, _) = save_wasm(&mut cache, ByteSliceView::new(&wasm), false, &mut error_msg);
    let checksum = checksum.consume().unwrap();

    let mut error_msg = UnmanagedVector::default();
    assert_eq!(
        pin(&mut cache, ByteSliceView::new(&checksum), &mut error_msg),
        ErrnoValue::Success
    );
    let mut error_msg = UnmanagedVector::default();
    assert_eq!(
        pin(&mut cache, ByteSliceView::new(&checksum), &mut error_msg),
        ErrnoValue::Success
    );

    let mut error_msg = UnmanagedVector::default();
    let (metrics, _) = get_metrics(&cache, &mut error_msg);
    assert_eq!(metrics.elements_pinned_memory_cache, 1);
    assert_eq!(metrics.hits_fs_cache, 1);

    // Unpin a never-pinned checksum: no error, nothing changes.
    let other = [9u8; 32];
    let mut error_msg = UnmanagedVector::default();
    assert_eq!(
        unpin(&mut cache, ByteSliceView::new(&other), &mut error_msg),
        ErrnoValue::Success
    );
    let mut error_msg = UnmanagedVector::default();
    let (metrics, _) = get_metrics(&cache, &mut error_msg);
    assert_eq!(metrics.elements_pinned_memory_cache, 1);

    release_cache(cache);
}

#[test]
fn analyze_code_works() {
    let mut cache = fresh_cache(b"staking,stargate,iterator");

    let plain = module_with_exports(&[]);
    let mut error_msg = UnmanagedVector::default();
    let (checksum_plain, _) = save_wasm(&mut cache, ByteSliceView::new(&plain), false, &mut error_msg);
    assert!(error_msg.is_none());
    let checksum_plain = checksum_plain.consume().unwrap_or_default();

    let reactive = module_with_exports(&[
        "requires_stargate",
        "requires_iterator",
        "ibc_channel_open",
        "ibc_channel_connect",
        "ibc_channel_close",
        "ibc_packet_receive",
        "ibc_packet_ack",
        "ibc_packet_timeout",
    ]);
    let mut error_msg = UnmanagedVector::default();
    let (checksum_reactive, _) =
        save_wasm(&mut cache, ByteSliceView::new(&reactive), false, &mut error_msg);
    assert!(error_msg.is_none());
    let checksum_reactive = checksum_reactive.consume().unwrap_or_default();

    // Different module bytes digest to different checksums.
    assert_ne!(checksum_plain, checksum_reactive);

    let mut error_msg = UnmanagedVector::default();
    let (plain_report, status) =
        analyze_code(&cache, ByteSliceView::new(&checksum_plain), &mut error_msg);
    assert_eq!(status, ErrnoValue::Success);
    assert!(!plain_report.has_ibc_entry_points);
    assert_eq!(plain_report.required_capabilities.consume().unwrap(), b"");

    let mut error_msg = UnmanagedVector::default();
    let (reactive_report, status) =
        analyze_code(&cache, ByteSliceView::new(&checksum_reactive), &mut error_msg);
    assert_eq!(status, ErrnoValue::Success);
    assert!(reactive_report.has_ibc_entry_points);
    let required_capabilities =
        String::from_utf8(reactive_report.required_capabilities.consume().unwrap()).unwrap();
    assert_eq!(required_capabilities, "iterator,stargate");

    release_cache(cache);
}

#[test]
fn set_to_csv_works() {
    assert_eq!(set_to_csv(Vec::new()), "");
    assert_eq!(set_to_csv(vec!["foo".to_string()]), "foo");
    assert_eq!(
        set_to_csv(vec![
            "foo".to_string(),
            "bar".to_string(),
            "baz".to_string(),
        ]),
        "bar,baz,foo",
    );
    assert_eq!(
        set_to_csv(vec![
            "a".to_string(),
            "aa".to_string(),
            "b".to_string(),
            "c".to_string(),
            "A".to_string(),
            "AA".to_string(),
            "B".to_string(),
            "C".to_string(),
        ]),
        "A,AA,B,C,a,aa,b,c",
    );
}

#[test]
fn get_metrics_works() {
    let mut cache = fresh_cache(b"staking");

    // Fresh cache: all zero
    let mut error_msg = UnmanagedVector::default();
    let (metrics, _) = get_metrics(&cache, &mut error_msg);
    assert_eq!(metrics, Metrics::default());

    // Save
    let wasm = module_with_exports(&[]);
    let mut error_msg = UnmanagedVector::default();
    let (checksum, _) = save_wasm(&mut cache, ByteSliceView::new(&wasm), false, &mut error_msg);
    assert!(error_msg.is_none());
    let checksum = checksum.consume().unwrap_or_default();

    // A save alone moves no counter
    let mut error_msg = UnmanagedVector::default();
    let (metrics, _) = get_metrics(&cache, &mut error_msg);
    assert_eq!(metrics, Metrics::default());

    // Pin: one filesystem hit, one pinned element
    let mut error_msg = UnmanagedVector::default();
    let status = pin(&mut cache, ByteSliceView::new(&checksum), &mut error_msg);
    assert_eq!(status, ErrnoValue::Success);

    let mut error_msg = UnmanagedVector::default();
    let (metrics, _) = get_metrics(&cache, &mut error_msg);
    assert_eq!(metrics.hits_pinned_memory_cache, 0);
    assert_eq!(metrics.hits_memory_cache, 0);
    assert_eq!(metrics.hits_fs_cache, 1);
    assert_eq!(metrics.misses, 0);
    assert_eq!(metrics.elements_pinned_memory_cache, 1);
    assert_eq!(metrics.elements_memory_cache, 0);
    assert_eq!(metrics.size_pinned_memory_cache, wasm.len() as u64);
    assert_eq!(metrics.size_memory_cache, 0);

    // Unpin
    let mut error_msg = UnmanagedVector::default();
    let status = unpin(&mut cache, ByteSliceView::new(&checksum), &mut error_msg);
    assert_eq!(status, ErrnoValue::Success);

    let mut error_msg = UnmanagedVector::default();
    let (metrics, _) = get_metrics(&cache, &mut error_msg);
    assert_eq!(
        metrics,
        Metrics {
            hits_pinned_memory_cache: 0,
            hits_memory_cache: 0,
            hits_fs_cache: 1,
            misses: 0,
            elements_pinned_memory_cache: 0,
            elements_memory_cache: 0,
            size_pinned_memory_cache: 0,
            size_memory_cache: 0,
        }
    );

    release_cache(cache);
}

#[test]
fn metrics_classify_hits_and_misses() {
    // After a save and a pin, acquiring an instance is exactly one pinned
    // hit; acquiring a never-saved checksum is exactly one miss.
    let mut cache = fresh_cache(b"staking");
    let wasm = module_with_exports(&[]);
    let mut error_msg = UnmanagedVector::default();
    let (checksum, _) = save_wasm(&mut cache, ByteSliceView::new(&wasm), false, &mut error_msg);
    let checksum_bytes = checksum.consume().unwrap();
    let mut error_msg = UnmanagedVector::default();
    assert_eq!(
        pin(&mut cache, ByteSliceView::new(&checksum_bytes), &mut error_msg),
        ErrnoValue::Success
    );

    let checksum = Checksum::from_vec(checksum_bytes).unwrap();
    let backend = Db::new(db_t::new(3));
    let instance = cache
        .get_instance(&checksum, backend, 1_000_000, false)
        .unwrap();
    drop(instance);

    let mut error_msg = UnmanagedVector::default();
    let (metrics, _) = get_metrics(&cache, &mut error_msg);
    assert_eq!(metrics.hits_pinned_memory_cache, 1);
    assert_eq!(metrics.hits_memory_cache, 0);
    assert_eq!(metrics.hits_fs_cache, 1); // from the pin
    assert_eq!(metrics.misses, 0);

    let unknown = Checksum::from_vec(vec![7u8; 32]).unwrap();
    let backend = Db::new(db_t::new(3));
    assert!(cache.get_instance(&unknown, backend, 1_000_000, false).is_err());

    let mut error_msg = UnmanagedVector::default();
    let (metrics, _) = get_metrics(&cache, &mut error_msg);
    assert_eq!(metrics.misses, 1);
    assert_eq!(metrics.hits_pinned_memory_cache, 1);

    release_cache(cache);
}

#[test]
fn init_cache_parses_capability_lists() {
    // Repeated and empty pieces in the capability list are tolerated; the
    // named capabilities are available for validation.
    let mut cache = fresh_cache(b"staking,,iterator,staking");
    let wasm = module_with_exports(&["requires_iterator"]);
    let mut error_msg = UnmanagedVector::default();
    let (_, status) = save_wasm(&mut cache, ByteSliceView::new(&wasm), false, &mut error_msg);
    assert_eq!(status, ErrnoValue::Success);

    let wasm = module_with_exports(&["requires_stargate"]);
    let mut error_msg = UnmanagedVector::default();
    let (_, status) = save_wasm(&mut cache, ByteSliceView::new(&wasm), false, &mut error_msg);
    assert_eq!(status, ErrnoValue::Other);
    let _ = error_msg.consume();
    release_cache(cache);
}
