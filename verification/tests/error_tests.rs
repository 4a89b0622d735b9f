use wasmvm::backend::BackendError;
use wasmvm::calls::VmFailure;
use wasmvm::errors::ErrnoValue;
use wasmvm::errors::RustError;
use wasmvm::errors::handle_c_error_binary;
use wasmvm::errors::handle_c_error_default;
use wasmvm::errors::handle_c_error_ptr;
use wasmvm::go_error::GoError;
use wasmvm::memory::UnmanagedVector;
use wasmvm::text::string_from_utf8;

#[test]
fn empty_arg_works() {
    let error = RustError::empty_arg("gas");
    match error {
        RustError::EmptyArg { name, .. } => {
            assert_eq!(name, "gas");
        }
        _ => panic!("expect different error"),
    }
}

#[test]
fn invalid_utf8_works_for_strings() {
    let error = RustError::invalid_utf8("my text");
    match error {
        RustError::InvalidUtf8 { msg, .. } => {
            assert_eq!(msg, "my text");
        }
        _ => panic!("expect different error"),
    }
}

#[test]
fn invalid_utf8_works_for_errors() {
    let original = string_from_utf8(vec![0x80]).unwrap_err();
    let error = RustError::invalid_utf8_at(original.0, original.1);
    match error {
        RustError::InvalidUtf8 { msg, .. } => {
            assert_eq!(msg, "invalid utf-8 sequence of 1 bytes from index 0");
        }
        _ => panic!("expect different error"),
    }
}

#[test]
fn panic_works() {
    let error = RustError::panic();
    match error {
        RustError::Panic { .. } => {}
        _ => panic!("expect different error"),
    }
}

#[test]
fn unset_arg_works() {
    let error = RustError::unset_arg("gas");
    match error {
        RustError::UnsetArg { name, .. } => {
            assert_eq!(name, "gas");
        }
        _ => panic!("expect different error"),
    }
}

#[test]
fn vm_err_works_for_strings() {
    let error = RustError::vm_err("my text");
    match error {
        RustError::VmErr { msg, .. } => {
            assert_eq!(msg, "my text");
        }
        _ => panic!("expect different error"),
    }
}

#[test]
fn vm_err_works_for_errors() {
    let original = VmFailure::GasDepletion;
    let error = RustError::vm_err(original.message().as_str());
    match error {
        RustError::VmErr { msg, .. } => {
            assert_eq!(msg, "Ran out of gas during contract execution");
        }
        _ => panic!("expect different error"),
    }
}

#[test]
fn from_std_str_utf8error_works() {
    let broken: &[u8] = b"Hello \xF0\x90\x80World";
    let fault = string_from_utf8(broken.to_vec()).unwrap_err();
    let error = RustError::invalid_utf8_at(fault.0, fault.1);
    match error {
        RustError::InvalidUtf8 { msg, .. } => {
            assert_eq!(msg, "invalid utf-8 sequence of 3 bytes from index 6")
        }
        _ => panic!("expect different error"),
    }
}

#[test]
fn from_std_string_fromutf8error_works() {
    let fault = string_from_utf8(b"Hello \xF0\x90\x80World".to_vec()).unwrap_err();
    let error = RustError::invalid_utf8_at(fault.0, fault.1);
    match error {
        RustError::InvalidUtf8 { msg, .. } => {
            assert_eq!(msg, "invalid utf-8 sequence of 3 bytes from index 6")
        }
        _ => panic!("expect different error"),
    }
}

#[test]
fn handle_c_error_binary_works() {
    // Ok (non-empty vector)
    let mut error_msg = UnmanagedVector::default();
    let res: Result<Vec<u8>, RustError> = Ok(vec![0xF0, 0x0B, 0xAA]);
    let (data, status) = handle_c_error_binary(res, &mut error_msg);
    assert_eq!(status, ErrnoValue::Success);
    assert!(error_msg.is_none());
    assert_eq!(data, vec![0xF0, 0x0B, 0xAA]);
    let _ = error_msg.consume();

    // Ok (empty vector)
    let mut error_msg = UnmanagedVector::default();
    let res: Result<Vec<u8>, RustError> = Ok(vec![]);
    let (data, status) = handle_c_error_binary(res, &mut error_msg);
    assert_eq!(status, ErrnoValue::Success);
    assert!(error_msg.is_none());
    assert_eq!(data, Vec::<u8>::new());
    let _ = error_msg.consume();

    // Ok (slice contents)
    let mut error_msg = UnmanagedVector::default();
    let res: Result<Vec<u8>, RustError> = Ok(b"foobar".to_vec());
    let (data, status) = handle_c_error_binary(res, &mut error_msg);
    assert_eq!(status, ErrnoValue::Success);
    assert!(error_msg.is_none());
    assert_eq!(data, Vec::<u8>::from(b"foobar" as &[u8]));
    let _ = error_msg.consume();

    // Ok (checksum)
    let mut error_msg = UnmanagedVector::default();
    let checksum = wasmvm::cache::Checksum::from_vec(vec![
        0x72, 0x2c, 0x8c, 0x99, 0x3f, 0xd7, 0x5a, 0x76, 0x27, 0xd6, 0x9e, 0xd9, 0x41, 0x34, 0x4f,
        0xe2, 0xa1, 0x42, 0x3a, 0x3e, 0x75, 0xef, 0xd3, 0xe6, 0x77, 0x8a, 0x14, 0x28, 0x84, 0x22,
        0x71, 0x04,
    ])
    .unwrap();
    let res: Result<Vec<u8>, RustError> = Ok(checksum.into_vec());
    let (data, status) = handle_c_error_binary(res, &mut error_msg);
    assert_eq!(status, ErrnoValue::Success);
    assert!(error_msg.is_none());
    assert_eq!(
        data,
        vec![
            0x72, 0x2c, 0x8c, 0x99, 0x3f, 0xd7, 0x5a, 0x76, 0x27, 0xd6, 0x9e, 0xd9, 0x41, 0x34,
            0x4f, 0xe2, 0xa1, 0x42, 0x3a, 0x3e, 0x75, 0xef, 0xd3, 0xe6, 0x77, 0x8a, 0x14, 0x28,
            0x84, 0x22, 0x71, 0x04,
        ]
    );
    let _ = error_msg.consume();

    // Err
    let mut error_msg = UnmanagedVector::default();
    let res: Result<Vec<u8>, RustError> = Err(RustError::panic());
    let (data, status) = handle_c_error_binary(res, &mut error_msg);
    assert_eq!(status, ErrnoValue::Other);
    assert!(error_msg.is_some());
    assert_eq!(data, Vec::<u8>::new());
    let _ = error_msg.consume();

    // Err (out of gas is reported apart)
    let mut error_msg = UnmanagedVector::default();
    let res: Result<Vec<u8>, RustError> = Err(RustError::out_of_gas());
    let (data, status) = handle_c_error_binary(res, &mut error_msg);
    assert_eq!(status, ErrnoValue::OutOfGas);
    assert!(error_msg.is_some());
    assert_eq!(data, Vec::<u8>::new());
    let _ = error_msg.consume();
}

#[test]
fn handle_c_error_binary_clears_an_old_error() {
    // Err
    let mut error_msg = UnmanagedVector::default();
    let res: Result<Vec<u8>, RustError> = Err(RustError::panic());
    let (data, status) = handle_c_error_binary(res, &mut error_msg);
    assert_eq!(status, ErrnoValue::Other);
    assert!(error_msg.is_some());
    assert_eq!(data, Vec::<u8>::new());
    let _ = error_msg.consume();

    // Ok: the fresh call reports a clear status
    let mut error_msg = UnmanagedVector::default();
    let res: Result<Vec<u8>, RustError> = Ok(vec![0xF0, 0x0B, 0xAA]);
    let (data, status) = handle_c_error_binary(res, &mut error_msg);
    assert_eq!(status, ErrnoValue::Success);
    assert!(error_msg.is_none());
    assert_eq!(data, vec![0xF0, 0x0B, 0xAA]);
    let _ = error_msg.consume();
}

#[test]
fn handle_c_error_default_works() {
    // Ok (non-empty vector)
    let mut error_msg = UnmanagedVector::default();
    let res: Result<Vec<u8>, RustError> = Ok(vec![0xF0, 0x0B, 0xAA]);
    let (data, status) = handle_c_error_default(res, &mut error_msg);
    assert_eq!(status, ErrnoValue::Success);
    assert!(error_msg.is_none());
    assert_eq!(data, vec![0xF0, 0x0B, 0xAA]);
    let _ = error_msg.consume();

    // Ok (unit)
    let mut error_msg = UnmanagedVector::default();
    let res: Result<(), RustError> = Ok(());
    let (_, status) = handle_c_error_default(res, &mut error_msg);
    assert_eq!(status, ErrnoValue::Success);
    assert!(error_msg.is_none());
    let _ = error_msg.consume();

    // Err (vector): the default value comes back
    let mut error_msg = UnmanagedVector::default();
    let res: Result<Vec<u8>, RustError> = Err(RustError::panic());
    let (data, status) = handle_c_error_default(res, &mut error_msg);
    assert_eq!(status, ErrnoValue::Other);
    assert!(error_msg.is_some());
    assert_eq!(data, Vec::<u8>::new());
    let _ = error_msg.consume();

    // Err (unit)
    let mut error_msg = UnmanagedVector::default();
    let res: Result<(), RustError> = Err(RustError::panic());
    let (_, status) = handle_c_error_default(res, &mut error_msg);
    assert_eq!(status, ErrnoValue::Other);
    assert!(error_msg.is_some());
    let _ = error_msg.consume();
}

#[test]
fn handle_c_error_default_clears_an_old_error() {
    // Err
    let mut error_msg = UnmanagedVector::default();
    let res: Result<Vec<u8>, RustError> = Err(RustError::panic());
    let (data, status) = handle_c_error_default(res, &mut error_msg);
    assert_eq!(status, ErrnoValue::Other);
    assert!(error_msg.is_some());
    assert_eq!(data, Vec::<u8>::new());
    let _ = error_msg.consume();

    // Ok
    let mut error_msg = UnmanagedVector::default();
    let res: Result<Vec<u8>, RustError> = Ok(vec![0xF0, 0x0B, 0xAA]);
    let (data, status) = handle_c_error_default(res, &mut error_msg);
    assert_eq!(status, ErrnoValue::Success);
    assert!(error_msg.is_none());
    assert_eq!(data, vec![0xF0, 0x0B, 0xAA]);
    let _ = error_msg.consume();
}

#[test]
fn handle_c_error_ptr_works() {
    let mut error_msg = UnmanagedVector::default();
    let res: Result<u64, RustError> = Ok(7);
    let (value, status) = handle_c_error_ptr(res, &mut error_msg);
    assert_eq!(status, ErrnoValue::Success);
    assert!(error_msg.is_none());
    assert_eq!(value, Some(7));
    let _ = error_msg.consume();

    let mut error_msg = UnmanagedVector::default();
    let res: Result<u64, RustError> = Err(RustError::unset_arg("cache"));
    let (value, status) = handle_c_error_ptr(res, &mut error_msg);
    assert_eq!(status, ErrnoValue::Other);
    assert!(value.is_none());
    let msg = String::from_utf8(error_msg.consume().unwrap()).unwrap();
    assert_eq!(msg, "Null/Nil argument: cache");
}

#[test]
fn go_error_into_result_works() {
    let default = "Something went wrong but we don't know";

    let error = GoError::from_code(0);
    let error_msg = UnmanagedVector::new(None);
    let a = error.into_result(error_msg, default);
    assert_eq!(a, Ok(()));

    let error = GoError::from_code(1);
    let error_msg = UnmanagedVector::new(None);
    let a = error.into_result(error_msg, default);
    assert_eq!(a.unwrap_err(), BackendError::ForeignPanic);

    let error = GoError::from_code(2);
    let error_msg = UnmanagedVector::new(None);
    let a = error.into_result(error_msg, default);
    assert_eq!(a.unwrap_err(), BackendError::BadArgument);

    let error = GoError::from_code(3);
    let error_msg = UnmanagedVector::new(None);
    let a = error.into_result(error_msg, default);
    assert_eq!(a.unwrap_err(), BackendError::OutOfGas);

    // CannotSerialize maps to Unknown
    let error = GoError::from_code(4);
    let error_msg = UnmanagedVector::new(None);
    let a = error.into_result(error_msg, default);
    assert_eq!(
        a.unwrap_err(),
        BackendError::Unknown {
            msg: default.to_string()
        }
    );

    // User with no message
    let error = GoError::from_code(5);
    let error_msg = UnmanagedVector::new(None);
    let a = error.into_result(error_msg, default);
    assert_eq!(
        a.unwrap_err(),
        BackendError::UserErr {
            msg: default.to_string()
        }
    );

    // User with a message
    let error = GoError::from_code(5);
    let error_msg = UnmanagedVector::new(Some(Vec::from(b"kaputt" as &[u8])));
    let a = error.into_result(error_msg, default);
    assert_eq!(
        a.unwrap_err(),
        BackendError::UserErr {
            msg: "kaputt".to_string()
        }
    );

    // User with a message that is too long
    let error = GoError::from_code(5);
    let error_msg = UnmanagedVector::new(Some(vec![0x61; 10000]));
    let a = error.into_result(error_msg, default);
    assert_eq!(
        a.unwrap_err(),
        BackendError::UserErr {
            msg: "a".repeat(8192)
        }
    );

    // An unknown code maps to Other, never a crash
    let error = GoError::from_code(-1);
    let error_msg = UnmanagedVector::new(None);
    let a = error.into_result(error_msg, default);
    assert_eq!(
        a.unwrap_err(),
        BackendError::Unknown {
            msg: default.to_string()
        }
    );

    // Other with a message
    let error = GoError::from_code(99);
    let error_msg = UnmanagedVector::new(Some(Vec::from(b"kaputt" as &[u8])));
    let a = error.into_result(error_msg, default);
    assert_eq!(
        a.unwrap_err(),
        BackendError::Unknown {
            msg: "kaputt".to_string()
        }
    );

    // Other with a message that is too long
    let error = GoError::from_code(-7);
    let error_msg = UnmanagedVector::new(Some(vec![0x61; 10000]));
    let a = error.into_result(error_msg, default);
    assert_eq!(
        a.unwrap_err(),
        BackendError::Unknown {
            msg: "a".repeat(8192)
        }
    );
}

#[test]
fn host_messages_are_decoded_lossily() {
    // An invalid byte in the host's message becomes the replacement
    // character instead of failing the call.
    let default = "unused";
    let error = GoError::from_code(5);
    let error_msg = UnmanagedVector::new(Some(vec![0x61, 0x80, 0x62]));
    let a = error.into_result(error_msg, default);
    assert_eq!(
        a.unwrap_err(),
        BackendError::UserErr {
            msg: "a\u{FFFD}b".to_string()
        }
    );
}

#[test]
fn utf8_fault_messages_render_their_numbers() {
    let error = RustError::invalid_utf8_at(1234567, Some(2));
    match error {
        RustError::InvalidUtf8 { msg, .. } => {
            assert_eq!(msg, "invalid utf-8 sequence of 2 bytes from index 1234567");
        }
        _ => panic!("expect different error"),
    }
    let error = RustError::invalid_utf8_at(40, None);
    match error {
        RustError::InvalidUtf8 { msg, .. } => {
            assert_eq!(msg, "incomplete utf-8 byte sequence from index 40");
        }
        _ => panic!("expect different error"),
    }
}
