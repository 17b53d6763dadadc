//! VBUS detection for a board whose USB port also powers it.
//!
//! When the firmware runs at all, the cable is plugged in, so detection can
//! simply always answer yes.  The USB stack's detection trait is implemented
//! around this type outside the library.

use vstd::prelude::*;

verus! {

/// A VBUS detector that always reports power present.
pub struct AlwaysOnVbus {}

impl AlwaysOnVbus {
    /// The detector; it carries no state.
    pub fn new() -> Self {
        AlwaysOnVbus {}
    }

    /// USB power is present whenever the device runs at all.
    pub fn is_usb_detected(&self) -> (r: bool)
        ensures
            r == true,
    {
        true
    }
}

} // verus!
