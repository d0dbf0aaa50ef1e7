//! wasm-core: a WebAssembly 2.0 (wg-2.0) engine: binary decoder,
//! validator, and interpreter, together with the judging logic of its
//! conformance runner.
//!
//! Implementation surface is the binary format; the text format is out of
//! scope. The interpreter computes everything but floating-point
//! arithmetic and host functions, which it hands to its embedder.
use vstd::prelude::*;

pub mod bytes;
pub mod decode;
pub mod error;
pub mod exec;
pub mod json;
pub mod judge;
pub mod leb;
pub mod module;
pub mod numeric;
pub mod opcodes;
pub mod runner;
pub mod simd;
pub mod store;
pub mod text;
pub mod types;
pub mod typing;
pub mod validate;
pub mod values;

pub use decode::decode;
pub use error::{DecodeError, InstError, InvokeError, Trap, ValidateError};
pub use exec::{Event, Machine};
pub use store::{ExternVal, HostModule, InstanceId, Instantiated, Store};
pub use types::{ExternType, FuncType, GlobalType, Limits, MemType, RefType, TableType, ValType};
pub use validate::validate;
pub use values::Value;

verus! {
} // verus!
