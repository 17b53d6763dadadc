//! The control loop core.
//!
//! Once per sampling period the loop encodes the binarized samples with the
//! current frame number, feeds whatever bytes the transport produced into
//! the frame decoder, applies every decoded command, and advances the frame
//! counter by exactly one, wrapping at the top of its range.  Everything
//! here is a function of the state and the cycle's inputs; reading pins,
//! moving bytes and sleeping out the period happen outside, around it.

use vstd::prelude::*;
use crate::command::CommandView;
use crate::dispatch::{Dispatcher, spec_dispatch_grid, spec_dispatch_reply};
use crate::encoder::{encode_sensory, spec_packet, spec_fit_count, MAX_PACKET_BYTES};
use crate::protocol::{FeagiProtocol, spec_ingest, wrap_inc64};
use crate::sensors::Sensors;

verus! {

/// The display after a run of commands, applied oldest first.
pub open spec fn spec_grid_after(grid: Seq<u8>, cmds: Seq<CommandView>) -> Seq<u8>
    decreases cmds.len(),
{
    if cmds.len() == 0 {
        grid
    } else {
        spec_grid_after(spec_dispatch_grid(grid, cmds[0]), cmds.drop_first())
    }
}

/// The reply slot after a run of commands, applied oldest first.
pub open spec fn spec_reply_after(reply: Option<Seq<u8>>, cmds: Seq<CommandView>) -> Option<
    Seq<u8>,
>
    decreases cmds.len(),
{
    if cmds.len() == 0 {
        reply
    } else {
        spec_reply_after(spec_dispatch_reply(reply, cmds[0]), cmds.drop_first())
    }
}

/// The frame number after one more cycle: one higher, wrapping to zero at
/// the top of the range.
pub fn next_frame(frame: u64) -> (r: u64)
    ensures
        r == wrap_inc64(frame),
{
    if frame == u64::MAX {
        0
    } else {
        frame + 1
    }
}

/// The sampling period for a burst frequency, in milliseconds.
pub fn period_ms(burst_hz: u32) -> (r: u32)
    requires
        burst_hz > 0,
    ensures
        r == 1000u32 / burst_hz,
{
    1000 / burst_hz
}

/// The control loop state: the frame decoder, the dispatcher, the sensor
/// seat, and the wrapping frame counter.
pub struct ControlLoop {
    protocol: FeagiProtocol,
    dispatcher: Dispatcher,
    sensors: Sensors,
    frame_counter: u64,
}

impl ControlLoop {
    /// The frame number the next outbound packet will carry.
    pub closed spec fn frame(&self) -> u64 {
        self.frame_counter
    }

    /// The bytes waiting in the decoder's accumulator.
    pub closed spec fn buffered(&self) -> Seq<u8> {
        self.protocol.buffered()
    }

    /// The decoded commands not yet applied.
    pub closed spec fn pending(&self) -> Seq<CommandView> {
        self.protocol.pending()
    }

    /// How many times received bytes have been dropped for want of room.
    pub closed spec fn overflows(&self) -> u64 {
        self.protocol.overflows()
    }

    /// The display picture.
    pub closed spec fn grid(&self) -> Seq<u8> {
        self.dispatcher.grid()
    }

    /// The reply waiting to be sent, if any.
    pub closed spec fn reply(&self) -> Option<Seq<u8>> {
        self.dispatcher.reply()
    }

    /// The decoder and the dispatcher each keep their own shape.
    pub closed spec fn wf(&self) -> bool {
        &&& self.protocol.wf()
        &&& self.dispatcher.wf()
    }

    /// A fresh loop: frame zero, nothing buffered, dark display.
    pub fn new() -> (r: Self)
        ensures
            r.wf(),
            r.frame() == 0,
            r.buffered() == Seq::<u8>::empty(),
            r.pending() == Seq::<CommandView>::empty(),
            r.overflows() == 0,
            r.grid() == crate::display::blank_grid(),
            r.reply().is_none(),
    {
        ControlLoop {
            protocol: FeagiProtocol::new(),
            dispatcher: Dispatcher::new(),
            sensors: Sensors::new(),
            frame_counter: 0,
        }
    }

    /// The frame number the next outbound packet will carry.
    pub fn frame_number(&self) -> (r: u64)
        ensures
            r == self.frame(),
    {
        self.frame_counter
    }

    /// How many times received bytes have been dropped for want of room.
    pub fn overflow_count(&self) -> (r: u64)
        ensures
            r == self.overflows(),
    {
        self.protocol.overflow_count()
    }

    /// How many bytes are waiting in the decoder's accumulator.
    pub fn buffered_len(&self) -> (r: usize)
        ensures
            r == self.buffered().len(),
    {
        self.protocol.buffered_len()
    }

    /// The display picture as bytes, row-major.
    pub fn grid_bytes(&self) -> (r: Vec<u8>)
        ensures
            r@ == self.grid(),
    {
        self.dispatcher.grid_bytes()
    }

    /// Read both buttons from the sensor seat.
    pub fn read_buttons(&self) -> (r: (bool, bool))
        ensures
            r == (false, false),
    {
        self.sensors.read_buttons()
    }

    /// Take the waiting reply, leaving the slot empty.
    pub fn take_reply(&mut self) -> (r: Option<Vec<u8>>)
        requires
            old(self).wf(),
        ensures
            final(self).wf(),
            final(self).reply().is_none(),
            final(self).grid() == old(self).grid(),
            final(self).frame() == old(self).frame(),
            final(self).buffered() == old(self).buffered(),
            final(self).pending() == old(self).pending(),
            final(self).overflows() == old(self).overflows(),
            r.is_some() == old(self).reply().is_some(),
            r.is_some() ==> r.unwrap()@ == old(self).reply().unwrap(),
    {
        self.dispatcher.take_reply()
    }

    /// One cycle: encode the samples under the current frame number, ingest
    /// the received bytes, apply every decoded command oldest first, and
    /// advance the frame counter by exactly one, wrapping at `u64::MAX`.
    pub fn run_cycle(&mut self, incoming: &[u8], samples: &Vec<(u32, bool)>) -> (out: Vec<u8>)
        requires
            old(self).wf(),
        ensures
            final(self).wf(),
            out@ == spec_packet(
                samples@.take(spec_fit_count(samples@, old(self).frame())),
                old(self).frame(),
            ),
            out@.len() <= MAX_PACKET_BYTES,
            final(self).frame() == wrap_inc64(old(self).frame()),
            final(self).pending() == Seq::<CommandView>::empty(),
            ({
                let (acc, queued, lost) = spec_ingest(
                    old(self).buffered(),
                    old(self).pending(),
                    old(self).overflows(),
                    incoming@,
                );
                &&& final(self).buffered() == acc
                &&& final(self).overflows() == lost
                &&& final(self).grid() == spec_grid_after(old(self).grid(), queued)
                &&& final(self).reply() == spec_reply_after(old(self).reply(), queued)
            }),
    {
        let out = encode_sensory(samples, self.frame_counter);
        self.protocol.process_received_data(incoming);
        let ghost acc = self.protocol.buffered();
        let ghost lost = self.protocol.overflows();
        let ghost queued = self.protocol.pending();
        let ghost g0 = self.dispatcher.grid();
        let ghost r0 = self.dispatcher.reply();
        loop
            invariant_except_break
                self.protocol.wf(),
                self.dispatcher.wf(),
                self.protocol.buffered() == acc,
                self.protocol.overflows() == lost,
                self.frame_counter == old(self).frame(),
                spec_grid_after(g0, queued) == spec_grid_after(
                    self.dispatcher.grid(),
                    self.protocol.pending(),
                ),
                spec_reply_after(r0, queued) == spec_reply_after(
                    self.dispatcher.reply(),
                    self.protocol.pending(),
                ),
            ensures
                self.protocol.wf(),
                self.dispatcher.wf(),
                self.protocol.buffered() == acc,
                self.protocol.overflows() == lost,
                self.frame_counter == old(self).frame(),
                self.protocol.pending() == Seq::<CommandView>::empty(),
                self.dispatcher.grid() == spec_grid_after(g0, queued),
                self.dispatcher.reply() == spec_reply_after(r0, queued),
            decreases self.protocol.pending().len(),
        {
            match self.protocol.receive_command() {
                Some(cmd) => {
                    self.dispatcher.dispatch(cmd);
                },
                None => {
                    break;
                },
            }
        }
        self.frame_counter = next_frame(self.frame_counter);
        out
    }
}

} // verus!
