//! Fixed-width integers and embedded strings as they lie in a byte buffer.

pub mod embedded_string;
pub mod integer;
pub mod overlay;
