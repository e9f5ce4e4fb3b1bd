//! Numeric instructions.

pub mod laws;
pub mod render;
pub mod render_laws;
pub mod table;
pub mod template_laws;

pub use render::render;
pub use table::{NumOp, lower};
