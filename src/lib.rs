use vstd::prelude::*;

pub mod error;
pub mod reader;
pub mod leb128;
pub mod types;
pub mod stack;
pub mod instructions;
pub mod consts;
pub mod module;
pub mod engine;
pub mod module_decoder;
pub mod memory;

verus! {

pub use crate::error::KedgeError;

} // verus!
