//! Element types of properties and client messages.

use vstd::layout::size_of;
use vstd::prelude::*;

verus! {

broadcast use vstd::layout::layout_of_primitives;

/// A type that can be sent in client messages or stored in properties: a
/// fixed-width integer that admits every bit pattern.
pub trait XcbDataType: Copy + Sized {
    /// The number of bits in this type, which is also the property format
    /// that holds it.
    fn xcb_bits() -> (r: u8)
        ensures
            r == 8 * size_of::<Self>(),
    ;
}

impl XcbDataType for u8 {
    fn xcb_bits() -> (r: u8) {
        8
    }
}

impl XcbDataType for u16 {
    fn xcb_bits() -> (r: u8) {
        16
    }
}

impl XcbDataType for u32 {
    fn xcb_bits() -> (r: u8) {
        32
    }
}

impl XcbDataType for i8 {
    fn xcb_bits() -> (r: u8) {
        8
    }
}

impl XcbDataType for i16 {
    fn xcb_bits() -> (r: u8) {
        16
    }
}

impl XcbDataType for i32 {
    fn xcb_bits() -> (r: u8) {
        32
    }
}

} // verus!
