//! Host-side support library for a content-addressed cache of WebAssembly
//! modules and a gas-metered storage bridge across a language boundary.

pub mod args;
pub mod assoc;
pub mod backend;
pub mod bytes_util;
pub mod cache;
pub mod calls;
pub mod db;
pub mod errors;
pub mod gas_report;
pub mod go_error;
pub mod iterator;
pub mod storage;
pub mod test_utils;
pub mod memory;
pub mod text;
pub mod wasm;
