use wasmvm::memory::ByteSliceView;
use wasmvm::memory::UnmanagedVector;

#[test]
fn byte_slice_view_read_works() {
    let data = vec![0xAA, 0xBB, 0xCC];
    let view = ByteSliceView::new(&data);
    assert_eq!(view.read().unwrap().as_slice(), &[0xAA, 0xBB, 0xCC]);

    let data: Vec<u8> = vec![];
    let view = ByteSliceView::new(&data);
    assert_eq!(view.read().unwrap().as_slice(), &[] as &[u8]);

    let view = ByteSliceView::nil();
    assert!(view.read().is_none());
}

#[test]
fn byte_slice_view_to_owned_works() {
    let data = vec![0xAA, 0xBB, 0xCC];
    let view = ByteSliceView::new(&data);
    assert_eq!(view.to_owned().unwrap(), vec![0xAA, 0xBB, 0xCC]);

    let data: Vec<u8> = vec![];
    let view = ByteSliceView::new(&data);
    assert_eq!(view.to_owned().unwrap(), Vec::<u8>::new());

    let view = ByteSliceView::nil();
    assert!(view.to_owned().is_none());
}

#[test]
fn byte_slice_view_from_str_works() {
    let view = ByteSliceView::from_str("some text");
    assert_eq!(view.to_owned().unwrap(), b"some text".to_vec());
}

#[test]
fn unmanaged_vector_new_works() {
    // With data
    let x = UnmanagedVector::new(Some(vec![0x11, 0x22]));
    assert!(!x.is_none());
    assert_eq!(x.consume(), Some(vec![0x11u8, 0x22]));

    // Empty data
    let x = UnmanagedVector::new(Some(vec![]));
    assert!(!x.is_none());
    assert_eq!(x.consume(), Some(Vec::<u8>::new()));

    // None
    let x = UnmanagedVector::new(None);
    assert!(x.is_none());
    assert_eq!(x.consume(), None);
}

#[test]
fn unmanaged_vector_some_works() {
    // With data
    let x = UnmanagedVector::some(vec![0x11, 0x22]);
    assert!(!x.is_none());
    assert_eq!(x.consume(), Some(vec![0x11u8, 0x22]));

    // Empty data
    let x = UnmanagedVector::some(vec![]);
    assert!(!x.is_none());
    assert_eq!(x.consume(), Some(Vec::<u8>::new()));
}

#[test]
fn unmanaged_vector_none_works() {
    let x = UnmanagedVector::new(None);
    assert!(x.is_none());
    assert_eq!(x.consume(), None);
}

#[test]
fn unmanaged_vector_is_some_works() {
    let x = UnmanagedVector::new(Some(vec![0x11, 0x22]));
    assert!(x.is_some());
    let x = UnmanagedVector::new(Some(vec![]));
    assert!(x.is_some());
    let x = UnmanagedVector::new(None);
    assert!(!x.is_some());
}

#[test]
fn unmanaged_vector_is_none_works() {
    let x = UnmanagedVector::new(Some(vec![0x11, 0x22]));
    assert!(!x.is_none());
    let x = UnmanagedVector::new(Some(vec![]));
    assert!(!x.is_none());
    let x = UnmanagedVector::new(None);
    assert!(x.is_none());
}

#[test]
fn unmanaged_vector_consume_works() {
    let x = UnmanagedVector::new(Some(vec![0x11, 0x22]));
    assert_eq!(x.consume(), Some(vec![0x11u8, 0x22]));
    let x = UnmanagedVector::new(Some(vec![]));
    assert_eq!(x.consume(), Some(Vec::<u8>::new()));
    let x = UnmanagedVector::new(None);
    assert_eq!(x.consume(), None);
}

#[test]
fn unmanaged_vector_defaults_to_none() {
    let x = UnmanagedVector::default();
    assert_eq!(x.consume(), None);
}

#[test]
fn buffer_round_trips_for_any_bytes() {
    // A present buffer hands back exactly what was put in, including the
    // empty sequence, and stays distinct from an absent buffer.
    let cases: Vec<Vec<u8>> = vec![vec![], vec![0x00], vec![0xFF, 0x00, 0x7F], b"payload".to_vec()];
    for b in cases {
        let buf = UnmanagedVector::new(Some(b.clone()));
        assert!(buf.is_some());
        assert_eq!(buf.consume(), Some(b));
    }
    let absent = UnmanagedVector::new(None);
    assert!(absent.is_none());
    assert_eq!(absent.consume(), None);
}
