//! Names of boundary-call arguments, used in error messages.

use vstd::prelude::*;

verus! {

pub const DATA_DIR_ARG: &'static str = "data_dir";

pub const AVAILABLE_CAPABILITIES_ARG: &'static str = "available_capabilities";

pub const CACHE_ARG: &'static str = "cache";

pub const WASM_ARG: &'static str = "wasm";

pub const CHECKSUM_ARG: &'static str = "checksum";

pub const GAS_REPORT_ARG: &'static str = "gas_report";

pub const ARG1: &'static str = "arg1";

pub const ARG2: &'static str = "arg2";

pub const ARG3: &'static str = "arg3";

} // verus!
