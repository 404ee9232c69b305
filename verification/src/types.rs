//! The names the protocol gives its field types. Floating-point fields are
//! carried as their IEEE 754 bit patterns, exactly as they travel.
use vstd::prelude::*;

verus! {

/// An unsigned byte.
pub type Byte = u8;
/// A signed 16-bit integer.
pub type Short = i16;
/// An unsigned 16-bit integer.
pub type UShort = u16;
/// A signed 32-bit integer.
pub type Integer = i32;
/// A signed 64-bit integer.
pub type Long = i64;
/// A 64-bit floating-point number, as its bit pattern.
pub type Double = u64;
/// A 32-bit floating-point number, as its bit pattern.
pub type Float = u32;

} // verus!
