//! Verified helpers around the X11 client binding.
//!
//! - [`error`]: classification of raw protocol errors by the error-code
//!   ranges of the core protocol and the known extensions.
//! - [`xcursor`]: the Xcursor file format and best-fit image selection.
//! - [`theme`]: resource-database defaults, theme search paths, `Inherits`
//!   lines and the core cursor font's glyph names.
//! - [`search`]: cycle-safe resolution of a cursor through theme inheritance.
//! - [`realize`]: the request plan of a cursor build and its outcome.
//! - [`render`]: matching picture formats.
//! - [`property`]: the checks on each chunk of a property read.
//! - [`format`]: element types of properties.
//! - [`bytes`]: little-endian reads and small byte-string helpers.

pub mod bytes;
pub mod error;
pub mod format;
pub mod property;
pub mod realize;
pub mod render;
pub mod search;
pub mod theme;
pub mod xcursor;
