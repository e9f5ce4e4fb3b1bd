//! Reading WebAssembly modules and running what was read.

pub mod analysis;
pub mod error;
pub mod hostlib;
pub mod module;
pub mod ops;
pub mod rt;
pub mod text;

pub use error::Error;
pub use module::{Module, ValType};
