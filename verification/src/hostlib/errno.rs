//! WASI's `errno`, for the handful that is answered with.
//!
//! The numbering is preview1's, which is not errno.h's: `ENOENT` is 44 here and 2
//! there, and a module built against WASI compares against these.

use vstd::prelude::*;

verus! {

/// No error.
pub const SUCCESS: i32 = 0;

/// Bad file descriptor.
pub const BADF: i32 = 8;

/// File exists.
pub const EXIST: i32 = 20;

/// Invalid argument.
pub const INVAL: i32 = 28;

/// Is a directory.
pub const ISDIR: i32 = 31;

/// No such file or directory.
pub const NOENT: i32 = 44;

/// Function not implemented.
pub const NOSYS: i32 = 52;

/// Not a directory.
pub const NOTDIR: i32 = 54;

/// Not a tty.
pub const NOTTY: i32 = 59;

/// Invalid seek.
pub const SPIPE: i32 = 70;

} // verus!
