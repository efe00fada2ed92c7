//! The checks made on each chunk of a property read.

use crate::error::XcbError;
use vstd::prelude::*;

verus! {

#[derive(Clone, Debug)]
pub enum XcbGetPropertyError {
    InvalidPropertyType { expected: u32, actual: u32 },
    InvalidPropertyFormat { expected: u8, actual: u8 },
    /// The property is not set.
    Unset,
    Xcb(XcbError),
}

/// What one chunk of a property read means: an error when its type or
/// format is not the expected one (type 0 means the property is unset);
/// otherwise whether more data follows it.
pub open spec fn chunk_outcome(expected_type: u32, expected_bits: u8, actual_type: u32, actual_format: u8, bytes_after: u32) -> Result<bool, XcbGetPropertyError> {
    if actual_type != expected_type {
        if actual_type == 0 {
            Err(XcbGetPropertyError::Unset)
        } else {
            Err(XcbGetPropertyError::InvalidPropertyType { expected: expected_type, actual: actual_type })
        }
    } else if actual_format != expected_bits {
        Err(XcbGetPropertyError::InvalidPropertyFormat { expected: expected_bits, actual: actual_format })
    } else {
        Ok(bytes_after != 0)
    }
}

/// Checks one chunk of a property read: `Ok(true)` when more data follows,
/// `Ok(false)` when this was the last chunk.
pub fn check_property_chunk(
    expected_type: u32,
    expected_bits: u8,
    actual_type: u32,
    actual_format: u8,
    bytes_after: u32,
) -> (r: Result<bool, XcbGetPropertyError>)
    ensures
        r == chunk_outcome(expected_type, expected_bits, actual_type, actual_format, bytes_after),
{
    if actual_type != expected_type {
        if actual_type == 0 {
            return Err(XcbGetPropertyError::Unset);
        }
        return Err(XcbGetPropertyError::InvalidPropertyType { expected: expected_type, actual: actual_type });
    }
    if actual_format != expected_bits {
        return Err(XcbGetPropertyError::InvalidPropertyFormat { expected: expected_bits, actual: actual_format });
    }
    Ok(bytes_after != 0)
}

} // verus!
