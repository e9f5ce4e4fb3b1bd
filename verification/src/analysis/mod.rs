//! What the module says about itself.
//!
//! A stripped module still says a good deal: where its C stack is and what each
//! frame of it holds, which functions call which, what its messages name, what it
//! registers with embind and which C++ classes it declares. Everything here is read
//! out of the module and nothing is guessed at silently: what is a hypothesis
//! carries its evidence.

pub mod access;
pub mod access_laws;
pub mod calls;
pub mod class_laws;
pub mod classes;
pub mod demangle;
pub mod demangle_laws;
pub mod embind;
pub mod embind_laws;
pub mod fingerprint;
pub mod fingerprint_laws;
pub mod frame_laws;
pub mod frames;
pub mod glue;
pub mod glue_laws;
pub mod hot;
pub mod image;
pub mod image_laws;
pub mod laws;
pub mod machine;
pub mod name_laws;
pub mod names;
pub mod nesting;
pub mod placement;
pub mod placement_laws;
pub mod sets;
pub mod stack;
pub mod table_laws;
pub mod whole;

pub use access::{accesses_at, Access, AccessReport, AddressOf, Kind};
pub use calls::{type_index_of, CallGraph};
pub use classes::{classes, Class, ClassEvidence};
pub use embind::{embind_name_argument, Registration};
pub use fingerprint::{fingerprint, FINGERPRINT_FLOOR};
pub use frames::{promotable_slots, Evidence, Frame, Slot, StackPointer};
pub use glue::{InitMainThread, Invoke, Mmap, Spawn};
pub use hot::HOT_ADDRESS_FUNCTIONS;
pub use image::{pointer_table, DataImage, Located};
pub use names::{DerivedName, NameSource};
pub use nesting::{deepest_nesting, NESTING_RUSTC_HANDLES};
pub use placement::{
    placed_name, placed_text, static_i32, static_text, static_text_of_length, Placement,
};
pub use whole::{analyse, Analysis};
