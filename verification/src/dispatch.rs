//! The command dispatcher.
//!
//! Each decoded command is applied synchronously, one side effect apiece:
//! pin commands go to the GPIO seat, picture commands to the display buffer,
//! and a capability query leaves its report in the outbound reply slot,
//! where a later write overwrites an unconsumed earlier one.

use vstd::prelude::*;
use crate::command::{Command, CommandView};
use crate::display::{LedDisplay, rendered, MATRIX_PIXELS};
use crate::gpio::GpioController;
use vstd::utf8::encode_utf8;

verus! {

/// The capability report: the sensor categories on the board, the GPIO
/// counts by mode, and the presence of the display matrix.
pub open spec fn spec_capabilities_reply() -> Seq<u8> {
    encode_utf8(
        "{\"sensors\":{\"accel\":true,\"mag\":true,\"temp\":true,\"buttons\":true},\"gpio\":{\"digital\":8,\"analog\":3,\"pwm\":8},\"display\":{\"matrix\":true}}"@,
    )
}

/// The capability report as bytes; never empty.
pub fn capabilities_reply() -> (r: Vec<u8>)
    ensures
        r@ == spec_capabilities_reply(),
        0 < r@.len() <= 256,
{
    let s =
        "{\"sensors\":{\"accel\":true,\"mag\":true,\"temp\":true,\"buttons\":true},\"gpio\":{\"digital\":8,\"analog\":3,\"pwm\":8},\"display\":{\"matrix\":true}}";
    let b = s.as_bytes();
    proof {
        reveal_strlit(
            "{\"sensors\":{\"accel\":true,\"mag\":true,\"temp\":true,\"buttons\":true},\"gpio\":{\"digital\":8,\"analog\":3,\"pwm\":8},\"display\":{\"matrix\":true}}",
        );
        assert(vstd::utf8::is_ascii_chars(s@));
        vstd::utf8::is_ascii_chars_encode_utf8(s@);
    }
    vstd::slice::slice_to_vec(b)
}

/// The capability report is never empty, so a capability query always has
/// something to answer with.
pub proof fn lemma_capabilities_nonempty()
    ensures
        spec_capabilities_reply().len() > 0,
{
    reveal_strlit(
        "{\"sensors\":{\"accel\":true,\"mag\":true,\"temp\":true,\"buttons\":true},\"gpio\":{\"digital\":8,\"analog\":3,\"pwm\":8},\"display\":{\"matrix\":true}}",
    );
    assert(vstd::utf8::is_ascii_chars(
        "{\"sensors\":{\"accel\":true,\"mag\":true,\"temp\":true,\"buttons\":true},\"gpio\":{\"digital\":8,\"analog\":3,\"pwm\":8},\"display\":{\"matrix\":true}}"@,
    ));
    vstd::utf8::is_ascii_chars_encode_utf8(
        "{\"sensors\":{\"accel\":true,\"mag\":true,\"temp\":true,\"buttons\":true},\"gpio\":{\"digital\":8,\"analog\":3,\"pwm\":8},\"display\":{\"matrix\":true}}"@,
    );
}

/// What one dispatched command leaves on the display.
pub open spec fn spec_dispatch_grid(grid: Seq<u8>, cmd: CommandView) -> Seq<u8> {
    match cmd {
        CommandView::SetLedMatrix { data } => data,
        CommandView::NeuronFiring { coordinates } => rendered(coordinates),
        _ => grid,
    }
}

/// What one dispatched command leaves in the outbound reply slot.
pub open spec fn spec_dispatch_reply(reply: Option<Seq<u8>>, cmd: CommandView) -> Option<
    Seq<u8>,
> {
    match cmd {
        CommandView::GetCapabilities => Some(spec_capabilities_reply()),
        _ => reply,
    }
}

/// Dispatching a whole-matrix write and then a neuron firing leaves only
/// the firing's pixels lit: a firing replaces the picture, it never merges
/// with what was shown before.
pub proof fn lemma_firing_replaces(grid: Seq<u8>, data: Seq<u8>, coordinates: Seq<(u8, u8)>)
    ensures
        spec_dispatch_grid(
            spec_dispatch_grid(grid, CommandView::SetLedMatrix { data }),
            CommandView::NeuronFiring { coordinates },
        ) == rendered(coordinates),
{
}

/// The dispatcher: the display buffer, the GPIO seat, and the outbound
/// reply slot.
pub struct Dispatcher {
    display: LedDisplay,
    gpio: GpioController,
    outbound: Option<Vec<u8>>,
}

impl Dispatcher {
    /// The display picture.
    pub closed spec fn grid(&self) -> Seq<u8> {
        self.display.grid()
    }

    /// The reply waiting to be sent, if any.
    pub closed spec fn reply(&self) -> Option<Seq<u8>> {
        match self.outbound {
            Some(v) => Some(v@),
            None => None,
        }
    }

    /// The display buffer keeps its shape.
    pub open spec fn wf(&self) -> bool {
        self.grid().len() == MATRIX_PIXELS
    }

    /// A fresh dispatcher: dark display, no reply waiting.
    pub fn new() -> (r: Self)
        ensures
            r.wf(),
            r.grid() == crate::display::blank_grid(),
            r.reply().is_none(),
    {
        Dispatcher { display: LedDisplay::new(), gpio: GpioController::new(), outbound: None }
    }

    /// Apply one command: exactly the side effect its kind calls for.  Pin
    /// commands go to the GPIO seat, whose driverless writes change nothing
    /// observable; an unmapped or unavailable pin is never an error.
    pub fn dispatch(&mut self, cmd: Command)
        requires
            old(self).wf(),
        ensures
            final(self).wf(),
            final(self).grid() == spec_dispatch_grid(old(self).grid(), cmd@),
            final(self).reply() == spec_dispatch_reply(old(self).reply(), cmd@),
    {
        match cmd {
            Command::SetGpio { pin, value } => {
                self.gpio.set_digital(pin, value);
            },
            Command::SetPwm { pin, duty } => {
                self.gpio.set_pwm(pin, duty);
            },
            Command::SetLedMatrix { data } => {
                self.display.set_matrix(&data);
            },
            Command::NeuronFiring { coordinates } => {
                self.display.update_from_pairs(&coordinates);
            },
            Command::GetCapabilities => {
                self.outbound = Some(capabilities_reply());
            },
        }
    }

    /// The display picture as bytes, row-major.
    pub fn grid_bytes(&self) -> (r: Vec<u8>)
        ensures
            r@ == self.grid(),
    {
        self.display.grid_bytes()
    }

    /// Take the waiting reply, leaving the slot empty.
    pub fn take_reply(&mut self) -> (r: Option<Vec<u8>>)
        ensures
            final(self).reply().is_none(),
            final(self).grid() == old(self).grid(),
            final(self).wf() == old(self).wf(),
            r.is_some() == old(self).reply().is_some(),
            r.is_some() ==> r.unwrap()@ == old(self).reply().unwrap(),
    {
        self.outbound.take()
    }
}

} // verus!
