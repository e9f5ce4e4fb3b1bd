//! The mechanical half of a host, for modules an Emscripten toolchain built.
//!
//! What is here is the part that is the same for every module: WASI over an
//! in-memory filesystem, the C++ runtime's exception entry points, Emscripten's own
//! runtime, and embind's registration calls, which are recorded rather than acted
//! on. What is not here is the application's own imports.
//!
//! The filesystem is a map from paths to bytes and nothing escapes to the real one:
//! paths that are not in the map do not exist. Randomness and the clock are
//! supplied, not taken, so two runs of the same module produce the same bytes.

pub mod bounds;
pub mod call_laws;
pub mod clock;
pub mod cxx;
pub mod embind;
pub mod emscripten;
pub mod env;
pub mod errno;
pub mod history;
pub mod io;
pub mod laws;

pub mod stat;
pub mod unanswered;
pub mod wasi;

pub use clock::{tzset, write_tm};
pub use cxx::{assert_fail, Cxx};
pub use embind::{Call, Embind, Registration};
pub use emscripten::Emscripten;
pub use unanswered::Unanswered;
pub use wasi::{Descriptor, Exit, Open, Standard, Wasi};
