//! The command set carried in length-prefixed frames, and the rules that turn
//! a frame's payload into a typed command.
//!
//! A frame is `[command_id, payload_len, payload...]`.  The payload format
//! depends on the command identifier; a payload that breaks its command's
//! rules yields no command at all, and the frame is dropped.

use vstd::prelude::*;

verus! {

/// Wire identifiers for the command set.
pub enum PacketCommand {
    NeuronFiring,
    SetGpio,
    SetPwm,
    SetLedMatrix,
    GetCapabilities,
}

impl PacketCommand {
    /// The identifier byte this command kind uses on the wire.
    pub fn code(&self) -> (r: u8)
        ensures
            r == self.spec_code(),
    {
        match self {
            PacketCommand::NeuronFiring => 0x01,
            PacketCommand::SetGpio => 0x02,
            PacketCommand::SetPwm => 0x03,
            PacketCommand::SetLedMatrix => 0x04,
            PacketCommand::GetCapabilities => 0x05,
        }
    }

    pub open spec fn spec_code(&self) -> u8 {
        match self {
            PacketCommand::NeuronFiring => 0x01,
            PacketCommand::SetGpio => 0x02,
            PacketCommand::SetPwm => 0x03,
            PacketCommand::SetLedMatrix => 0x04,
            PacketCommand::GetCapabilities => 0x05,
        }
    }
}

/// A decoded command, the single in-memory representation shared by every
/// transport.
#[derive(Debug)]
pub enum Command {
    /// Drive one GPIO pin high or low.
    SetGpio { pin: u8, value: bool },
    /// Set a PWM duty cycle, 0 through 255, on one pin.
    SetPwm { pin: u8, duty: u8 },
    /// Replace the whole 5x5 display, row-major, one brightness byte a pixel.
    SetLedMatrix { data: [u8; 25] },
    /// Light exactly the listed (x, y) pixels; at most 25 of them.
    NeuronFiring { coordinates: Vec<(u8, u8)> },
    /// Ask for the device capability report.
    GetCapabilities,
}

/// The mathematical shape of a command, used by every contract.
pub enum CommandView {
    SetGpio { pin: u8, value: bool },
    SetPwm { pin: u8, duty: u8 },
    SetLedMatrix { data: Seq<u8> },
    NeuronFiring { coordinates: Seq<(u8, u8)> },
    GetCapabilities,
}

impl View for Command {
    type V = CommandView;

    open spec fn view(&self) -> CommandView {
        match self {
            Command::SetGpio { pin, value } => CommandView::SetGpio { pin: *pin, value: *value },
            Command::SetPwm { pin, duty } => CommandView::SetPwm { pin: *pin, duty: *duty },
            Command::SetLedMatrix { data } => CommandView::SetLedMatrix { data: data@ },
            Command::NeuronFiring { coordinates } => CommandView::NeuronFiring {
                coordinates: coordinates@,
            },
            Command::GetCapabilities => CommandView::GetCapabilities,
        }
    }
}

/// A neuron-firing payload is a count byte followed by exactly that many
/// (x, y) pairs, and the count may not exceed the 25 display pixels.
pub open spec fn neuron_payload_valid(payload: Seq<u8>) -> bool {
    &&& payload.len() >= 1
    &&& payload[0] <= 25
    &&& payload.len() == 1 + 2 * (payload[0] as int)
}

/// The coordinate pairs listed in a valid neuron-firing payload.
pub open spec fn spec_neuron_coords(payload: Seq<u8>) -> Seq<(u8, u8)>
    recommends
        neuron_payload_valid(payload),
{
    Seq::new(payload[0] as nat, |i: int| (payload[1 + 2 * i], payload[2 + 2 * i]))
}

/// The unique payload that lists exactly the given coordinate pairs.
pub open spec fn spec_neuron_payload(coords: Seq<(u8, u8)>) -> Seq<u8>
    recommends
        coords.len() <= 25,
{
    Seq::new(
        (1 + 2 * coords.len()) as nat,
        |i: int|
            if i == 0 {
                coords.len() as u8
            } else if (i - 1) % 2 == 0 {
                coords[(i - 1) / 2].0
            } else {
                coords[(i - 1) / 2].1
            },
    )
}

/// What `(command_id, payload)` decodes to, if anything.
///
/// A `GetCapabilities` frame carries no meaningful payload; any extra payload
/// bytes are deliberately ignored rather than rejected.
pub open spec fn spec_decode_command(id: u8, payload: Seq<u8>) -> Option<CommandView> {
    if id == 0x01 {
        if neuron_payload_valid(payload) {
            Some(CommandView::NeuronFiring { coordinates: spec_neuron_coords(payload) })
        } else {
            None
        }
    } else if id == 0x02 {
        if payload.len() == 2 {
            Some(CommandView::SetGpio { pin: payload[0], value: payload[1] != 0 })
        } else {
            None
        }
    } else if id == 0x03 {
        if payload.len() == 2 {
            Some(CommandView::SetPwm { pin: payload[0], duty: payload[1] })
        } else {
            None
        }
    } else if id == 0x04 {
        if payload.len() == 25 {
            Some(CommandView::SetLedMatrix { data: payload })
        } else {
            None
        }
    } else if id == 0x05 {
        Some(CommandView::GetCapabilities)
    } else {
        None
    }
}

/// Decode one extracted frame into a command, or nothing for a malformed or
/// unknown frame.
pub fn decode_command(cmd_id: u8, payload: &[u8]) -> (r: Option<Command>)
    ensures
        r.is_some() == spec_decode_command(cmd_id, payload@).is_some(),
        r.is_some() ==> r.unwrap()@ == spec_decode_command(cmd_id, payload@).unwrap(),
{
    if cmd_id == 0x01 {
        match decode_neuron_firing(payload) {
            Some(coordinates) => Some(Command::NeuronFiring { coordinates }),
            None => None,
        }
    } else if cmd_id == 0x02 {
        if payload.len() == 2 {
            Some(Command::SetGpio { pin: payload[0], value: payload[1] != 0 })
        } else {
            None
        }
    } else if cmd_id == 0x03 {
        if payload.len() == 2 {
            Some(Command::SetPwm { pin: payload[0], duty: payload[1] })
        } else {
            None
        }
    } else if cmd_id == 0x04 {
        if payload.len() == 25 {
            let mut data: [u8; 25] = [0u8; 25];
            let mut i: usize = 0;
            while i < 25
                invariant
                    i <= 25,
                    payload@.len() == 25,
                    forall|j: int| 0 <= j < i ==> data@[j] == payload@[j],
                decreases 25 - i,
            {
                data[i] = payload[i];
                i += 1;
            }
            proof {
                assert(data@ =~= payload@);
            }
            Some(Command::SetLedMatrix { data })
        } else {
            None
        }
    } else if cmd_id == 0x05 {
        Some(Command::GetCapabilities)
    } else {
        None
    }
}

/// Decode a neuron-firing payload into its coordinate list, or nothing when
/// the count byte disagrees with the payload length or exceeds 25.
pub fn decode_neuron_firing(payload: &[u8]) -> (r: Option<Vec<(u8, u8)>>)
    ensures
        r.is_some() == neuron_payload_valid(payload@),
        r.is_some() ==> r.unwrap()@ == spec_neuron_coords(payload@),
{
    if payload.len() < 1 {
        return None;
    }
    let count = payload[0] as usize;
    if count > 25 || payload.len() != 1 + 2 * count {
        return None;
    }
    let mut coords: Vec<(u8, u8)> = Vec::new();
    let mut i: usize = 0;
    while i < count
        invariant
            i <= count,
            count <= 25,
            payload@.len() == 1 + 2 * count,
            coords@.len() == i,
            forall|j: int| 0 <= j < i ==> coords@[j] == (payload@[1 + 2 * j], payload@[2 + 2 * j]),
        decreases count - i,
    {
        let x = payload[1 + 2 * i];
        let y = payload[2 + 2 * i];
        coords.push((x, y));
        i += 1;
    }
    proof {
        assert(coords@ =~= spec_neuron_coords(payload@));
    }
    Some(coords)
}

/// Re-encode a coordinate list as a neuron-firing payload.
pub fn encode_neuron_coords(coords: &Vec<(u8, u8)>) -> (r: Vec<u8>)
    requires
        coords@.len() <= 25,
    ensures
        r@ == spec_neuron_payload(coords@),
{
    let mut out: Vec<u8> = Vec::new();
    out.push(coords.len() as u8);
    let mut i: usize = 0;
    while i < coords.len()
        invariant
            i <= coords@.len(),
            coords@.len() <= 25,
            out@.len() == 1 + 2 * i,
            out@[0] == coords@.len() as u8,
            forall|j: int|
                0 <= j < i ==> out@[1 + 2 * j] == coords@[j].0 && out@[2 + 2 * j] == coords@[j].1,
        decreases coords@.len() - i,
    {
        let (x, y) = coords[i];
        out.push(x);
        out.push(y);
        i += 1;
    }
    proof {
        assert(out@ =~= spec_neuron_payload(coords@));
    }
    out
}

/// Decoding a valid neuron-firing payload and re-encoding the coordinate list
/// gives back exactly the original payload: the wire form is lossless.
pub proof fn lemma_neuron_payload_roundtrip(payload: Seq<u8>)
    requires
        neuron_payload_valid(payload),
    ensures
        spec_neuron_payload(spec_neuron_coords(payload)) == payload,
{
    let coords = spec_neuron_coords(payload);
    assert forall|i: int| 0 <= i < payload.len() implies spec_neuron_payload(coords)[i]
        == payload[i] by {
        if i > 0 {
            if (i - 1) % 2 == 0 {
                assert(1 + 2 * ((i - 1) / 2) == i);
            } else {
                assert(2 + 2 * ((i - 1) / 2) == i);
            }
        }
    }
    assert(spec_neuron_payload(coords) =~= payload);
}

/// Encoding any coordinate list of at most 25 pairs and decoding the payload
/// gives back exactly the original list.
pub proof fn lemma_neuron_coords_roundtrip(coords: Seq<(u8, u8)>)
    requires
        coords.len() <= 25,
    ensures
        neuron_payload_valid(spec_neuron_payload(coords)),
        spec_neuron_coords(spec_neuron_payload(coords)) == coords,
{
    let payload = spec_neuron_payload(coords);
    assert(payload[0] == coords.len() as u8);
    assert forall|i: int| 0 <= i < coords.len() implies spec_neuron_coords(payload)[i]
        == coords[i] by {
        assert((1 + 2 * i - 1) % 2 == 0);
        assert((2 + 2 * i - 1) % 2 == 1);
        assert((1 + 2 * i - 1) / 2 == i);
        assert((2 + 2 * i - 1) / 2 == i);
    }
    assert(spec_neuron_coords(payload) =~= coords);
}

} // verus!
