//! The runtime decompiled code stands on.
//!
//! Anything wasm defines and Rust spells differently lives here. Where a wasm
//! instruction would trap, the function that performs it asks for the condition
//! under which it does not, and a `bool` function beside it answers whether that
//! condition holds, so whoever drives the guest can raise the trap.

pub mod access;
pub mod atomic_laws;
pub mod caller;
pub mod laws;
pub mod memory;
pub mod num;
pub mod parking;
pub mod shared;
pub mod words;

pub use access::{Access, PAGE_SIZE};
pub use caller::{Caller, GuestException};
pub use memory::{Hit, Memory, Rmw, Watchpoints, WriteKind};
pub use num::{i32_div_s, i32_div_u, i32_rem_s, i32_rem_u, i64_div_s, i64_div_u, i64_rem_s, i64_rem_u};
pub use parking::{Parked, Wait};
pub use shared::{SharedMemory, fence};
