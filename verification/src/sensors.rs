//! The sensor seat.
//!
//! No I2C driver is wired up yet, so button reads yield the released state;
//! the contracts say exactly that.  Graded accelerometer, magnetometer and
//! temperature readings are floating-point values and live with the driver
//! code outside this library; the encoder takes already-binarized samples.

use vstd::prelude::*;

verus! {

/// The sensor seat, to be backed by the board's I2C drivers.
pub struct Sensors {}

impl Sensors {
    /// A seat with no driver attached.
    pub fn new() -> Self {
        Sensors {}
    }

    /// Read both buttons; without an attached driver, both released.
    pub fn read_buttons(&self) -> (r: (bool, bool))
        ensures
            r == (false, false),
    {
        (false, false)
    }
}

} // verus!
