//! Keying material exported from TLS sessions (RFC 5705, RFC 8446 section 7.5).
//!
//! [`KeyingMaterialSpec`] says which material to export and
//! [`KeyingMaterialEntry`] holds what was exported. An entry can be printed for
//! logs; its printed form is a function of the entry's label, its context and
//! the length of the material, and never of the secret bytes.
pub mod debug_text;
pub mod format_options;
pub mod keying_material;
pub mod laws;
mod read_back;
pub mod reader;
mod solid_text;
pub mod text_laws;

pub use format_options::{Alignment, FormatOptions, Radix};
pub use keying_material::{KeyingMaterialEntry, KeyingMaterialSpec, RedactedEntry};
