//! The radio-facing packet service.
//!
//! This service keeps its own bounded receive buffer and understands the
//! bare neuron-firing packet `[0x01, count, x1, y1, ...]` that the display
//! path uses: no length prefix, the count byte saying how many coordinate
//! pairs follow.  An unrelated or incomplete packet is left in place
//! untouched; a complete one is consumed exactly.

use vstd::prelude::*;
use crate::command::Command;
use crate::hbuf::{
    byte_buf_bytes, byte_buf_new, byte_buf_contents, byte_buf_from, coord_list_coords,
    coord_list_from,
};
use vstd::slice::slice_subrange;
use vstd::utf8::encode_utf8;
use vstd::string::StringSliceAdditionalSpecFns;

verus! {

/// How many bytes the receive buffer can hold.
pub const RECEIVE_BUFFER_CAPACITY: usize = 256;

/// A complete neuron-firing packet sits at the front of the buffer: the
/// marker byte, a count of at most 25, and that many coordinate pairs.
pub open spec fn neuron_packet_ready(buf: Seq<u8>) -> bool {
    &&& buf.len() >= 2
    &&& buf[0] == 0x01
    &&& buf[1] <= 25
    &&& buf.len() >= 2 + 2 * (buf[1] as int)
}

/// The coordinate pairs listed in the packet at the front of the buffer.
pub open spec fn neuron_packet_coords(buf: Seq<u8>) -> Seq<(u8, u8)>
    recommends
        neuron_packet_ready(buf),
{
    Seq::new(buf[1] as nat, |i: int| (buf[2 + 2 * i], buf[3 + 2 * i]))
}

/// How many bytes the packet at the front of the buffer occupies.
pub open spec fn neuron_packet_size(buf: Seq<u8>) -> int
    recommends
        neuron_packet_ready(buf),
{
    2 + 2 * (buf[1] as int)
}

/// The placeholder telemetry object sent while no sensor driver feeds real
/// values: every reading zero, both buttons released.
pub open spec fn spec_sensor_placeholder() -> Seq<u8> {
    encode_utf8(
        "{\"accel\":[0,0,0],\"mag\":[0,0,0],\"temp\":0.0,\"buttons\":{\"a\":false,\"b\":false}}"@,
    )
}

/// The packet service: a device name, a bounded receive buffer, and the
/// connection flag the radio stack maintains.
pub struct BluetoothService {
    device_name: &'static str,
    receive_buffer: heapless::Vec<u8, 256>,
    connected: bool,
}

impl BluetoothService {
    /// The bytes waiting in the receive buffer, oldest first.
    pub closed spec fn buffered(&self) -> Seq<u8> {
        byte_buf_bytes(self.receive_buffer)
    }

    /// Whether the transport currently reports a connection.
    pub closed spec fn spec_connected(&self) -> bool {
        self.connected
    }

    /// The name this device advertises.
    pub closed spec fn spec_device_name(&self) -> Seq<char> {
        self.device_name@
    }

    /// The receive buffer always fits its capacity.
    pub open spec fn wf(&self) -> bool {
        self.buffered().len() <= RECEIVE_BUFFER_CAPACITY
    }

    /// A fresh service: empty buffer, not connected.
    pub fn new(device_name: &'static str) -> (r: Self)
        ensures
            r.wf(),
            r.buffered() == Seq::<u8>::empty(),
            !r.spec_connected(),
            r.spec_device_name() == device_name@,
    {
        BluetoothService { device_name, receive_buffer: byte_buf_new(), connected: false }
    }

    /// Append received bytes to the buffer.  When they do not all fit, the
    /// buffer is cleared and the whole call's bytes are discarded: a fresh
    /// start costs less than decoding a stream with a hole in it.
    pub fn process_received_data(&mut self, data: &[u8])
        requires
            old(self).wf(),
        ensures
            final(self).wf(),
            final(self).spec_connected() == old(self).spec_connected(),
            final(self).spec_device_name() == old(self).spec_device_name(),
            old(self).buffered().len() + data@.len() <= RECEIVE_BUFFER_CAPACITY ==> final(self).buffered() == old(self).buffered() + data@,
            old(self).buffered().len() + data@.len() > RECEIVE_BUFFER_CAPACITY ==> final(self).buffered() == Seq::<u8>::empty(),
    {
        let mut buf: Vec<u8> = byte_buf_contents(&self.receive_buffer);
        if data.len() <= RECEIVE_BUFFER_CAPACITY - buf.len() {
            let mut i: usize = 0;
            while i < data.len()
                invariant
                    i <= data@.len(),
                    buf@ == old(self).buffered() + data@.take(i as int),
                    buf@.len() <= RECEIVE_BUFFER_CAPACITY,
                    old(self).buffered().len() + data@.len() <= RECEIVE_BUFFER_CAPACITY,
                decreases data@.len() - i,
            {
                buf.push(data[i]);
                i += 1;
            }
            proof {
                assert(buf@ =~= old(self).buffered() + data@);
            }
            self.receive_buffer = byte_buf_from(buf.as_slice());
        } else {
            self.receive_buffer = byte_buf_new();
        }
    }

    /// Consume the neuron-firing packet at the front of the buffer, if one
    /// is complete, and hand back its coordinate pairs.
    fn parse_neuron_firing_packet(&mut self) -> (r: Option<Vec<(u8, u8)>>)
        requires
            old(self).wf(),
        ensures
            final(self).wf(),
            final(self).spec_connected() == old(self).spec_connected(),
            final(self).spec_device_name() == old(self).spec_device_name(),
            !neuron_packet_ready(old(self).buffered()) ==> r.is_none() && final(self).buffered()
                == old(self).buffered(),
            neuron_packet_ready(old(self).buffered()) ==> r.is_some() && r.unwrap()@
                == neuron_packet_coords(old(self).buffered()) && final(self).buffered() == old(self).buffered().skip(neuron_packet_size(old(self).buffered())),
    {
        let buf: Vec<u8> = byte_buf_contents(&self.receive_buffer);
        if buf.len() < 2 {
            return None;
        }
        if buf[0] != 0x01 {
            return None;
        }
        let count = buf[1] as usize;
        if count > 25 || buf.len() < 2 + 2 * count {
            return None;
        }
        let mut coords: Vec<(u8, u8)> = Vec::new();
        let mut i: usize = 0;
        while i < count
            invariant
                i <= count,
                count <= 25,
                buf@.len() >= 2 + 2 * count,
                buf@ == old(self).buffered(),
                coords@.len() == i,
                forall|j: int| 0 <= j < i ==> coords@[j] == (buf@[2 + 2 * j], buf@[3 + 2 * j]),
            decreases count - i,
        {
            let x = buf[2 + 2 * i];
            let y = buf[3 + 2 * i];
            coords.push((x, y));
            i += 1;
        }
        let rest = slice_subrange(buf.as_slice(), 2 + 2 * count, buf.len());
        self.receive_buffer = byte_buf_from(rest);
        proof {
            assert(coords@ =~= neuron_packet_coords(old(self).buffered()));
            assert(rest@ =~= old(self).buffered().skip(neuron_packet_size(old(self).buffered())));
        }
        Some(coords)
    }

    /// How many bytes are waiting in the receive buffer.
    pub fn buffered_len(&self) -> (r: usize)
        ensures
            r == self.buffered().len(),
    {
        byte_buf_contents(&self.receive_buffer).len()
    }

    /// Whether the transport currently reports a connection.
    pub fn is_connected(&self) -> (r: bool)
        ensures
            r == self.spec_connected(),
    {
        self.connected
    }

    /// Record the connection state the radio stack reports.
    pub fn set_connected(&mut self, connected: bool)
        ensures
            final(self).spec_connected() == connected,
            final(self).buffered() == old(self).buffered(),
            final(self).spec_device_name() == old(self).spec_device_name(),
            final(self).wf() == old(self).wf(),
    {
        self.connected = connected;
    }

    /// The placeholder telemetry packet; see `spec_sensor_placeholder`.
    pub fn send_sensor_data(&self) -> (r: Option<heapless::Vec<u8, 256>>)
        ensures
            r.is_some(),
            byte_buf_bytes(r.unwrap()) == spec_sensor_placeholder(),
    {
        let s =
            "{\"accel\":[0,0,0],\"mag\":[0,0,0],\"temp\":0.0,\"buttons\":{\"a\":false,\"b\":false}}";
        let b = s.as_bytes();
        proof {
            reveal_strlit(
                "{\"accel\":[0,0,0],\"mag\":[0,0,0],\"temp\":0.0,\"buttons\":{\"a\":false,\"b\":false}}",
            );
            assert(vstd::utf8::is_ascii_chars(s@));
            vstd::utf8::is_ascii_chars_encode_utf8(s@);
        }
        Some(byte_buf_from(b))
    }

    /// Queue a capability report for transmission.  The radio stack cannot
    /// send yet, so nothing is recorded; the report is rebuilt on request.
    pub fn send_capabilities(&mut self, caps: &str)
        ensures
            *final(self) == *old(self),
    {
        let _ = caps;
    }

    /// Take the next complete command from the buffer, if one is waiting.
    /// This transport only carries neuron-firing packets.
    pub fn receive_command(&mut self) -> (r: Option<Command>)
        requires
            old(self).wf(),
        ensures
            final(self).wf(),
            final(self).spec_connected() == old(self).spec_connected(),
            final(self).spec_device_name() == old(self).spec_device_name(),
            !neuron_packet_ready(old(self).buffered()) ==> r.is_none() && final(self).buffered()
                == old(self).buffered(),
            neuron_packet_ready(old(self).buffered()) ==> r.is_some() && r.unwrap()@
                == (crate::command::CommandView::NeuronFiring {
                coordinates: neuron_packet_coords(old(self).buffered()),
            }) && final(self).buffered() == old(self).buffered().skip(
                neuron_packet_size(old(self).buffered()),
            ),
    {
        match self.parse_neuron_firing_packet() {
            Some(coordinates) => Some(Command::NeuronFiring { coordinates }),
            None => None,
        }
    }

    /// Take the coordinate pairs of the next complete neuron-firing packet,
    /// if one is waiting.
    pub fn receive_neuron_data(&mut self) -> (r: Option<heapless::Vec<(u8, u8), 25>>)
        requires
            old(self).wf(),
        ensures
            final(self).wf(),
            final(self).spec_connected() == old(self).spec_connected(),
            final(self).spec_device_name() == old(self).spec_device_name(),
            !neuron_packet_ready(old(self).buffered()) ==> r.is_none() && final(self).buffered()
                == old(self).buffered(),
            neuron_packet_ready(old(self).buffered()) ==> r.is_some() && coord_list_coords(
                r.unwrap(),
            ) == neuron_packet_coords(old(self).buffered()) && final(self).buffered() == old(self).buffered().skip(neuron_packet_size(old(self).buffered())),
    {
        match self.parse_neuron_firing_packet() {
            Some(coords) => Some(coord_list_from(coords.as_slice())),
            None => None,
        }
    }

    /// A capability report as transmission bytes, truncated to the transport
    /// buffer capacity when longer.
    pub fn get_capabilities_data(&self, caps: &str) -> (r: heapless::Vec<u8, 256>)
        ensures
            caps.spec_bytes().len() <= RECEIVE_BUFFER_CAPACITY ==> byte_buf_bytes(r)
                == caps.spec_bytes(),
            caps.spec_bytes().len() > RECEIVE_BUFFER_CAPACITY ==> byte_buf_bytes(r)
                == caps.spec_bytes().take(RECEIVE_BUFFER_CAPACITY as int),
    {
        let b = caps.as_bytes();
        if b.len() <= RECEIVE_BUFFER_CAPACITY {
            byte_buf_from(b)
        } else {
            byte_buf_from(slice_subrange(b, 0, RECEIVE_BUFFER_CAPACITY))
        }
    }
}

} // verus!
