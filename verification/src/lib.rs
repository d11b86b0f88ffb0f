//! A verified reader for triangulated Wavefront OBJ text.
//!
//! The text is turned into a vertex buffer without repetitions and an index
//! buffer that refers into it. A coordinate is kept as the decimal literal
//! that the text holds, so that every step before the conversion into a
//! machine float is proved.

pub mod error;
pub mod laws;
pub mod number;
pub mod obj;
pub mod parse;
pub mod result;
pub mod slice;
pub mod text;
pub mod types;
pub mod vertices;

pub use crate::error::Error;
pub use crate::obj::parse_obj;
