//! Sizing a text box to its text.
use vstd::prelude::*;

verus! {

/// The height a text box takes when it is fitted to text of `measured` pixels, limited to
/// `max_height` pixels: the smallest of the two, and never more than `i32::MAX`.
pub open spec fn spec_fitted_height(measured: u32, max_height: u32) -> u32 {
    let h = if measured < max_height {
        measured
    } else {
        max_height
    };
    if h < i32::MAX as u32 {
        h
    } else {
        i32::MAX as u32
    }
}

/// Returns the height that `fit_height_limited` gives a text box whose text measures
/// `measured` pixels: the measured height, limited to `max_height` and to `i32::MAX`.
pub fn fitted_height(measured: u32, max_height: u32) -> (r: u32)
    ensures
        r == spec_fitted_height(measured, max_height),
{
    let h = if measured < max_height {
        measured
    } else {
        max_height
    };
    if h < 0x7fff_ffffu32 {
        h
    } else {
        0x7fff_ffffu32
    }
}

/// Returns the height that `fit_height` gives a text box whose text measures `measured`
/// pixels: the measured height, limited to `i32::MAX`.
pub fn fitted_height_unlimited(measured: u32) -> (r: u32)
    ensures
        r == spec_fitted_height(measured, u32::MAX),
{
    fitted_height(measured, u32::MAX)
}

} // verus!
