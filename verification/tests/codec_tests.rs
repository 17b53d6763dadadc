use feagi_protocol::command::{
    decode_command, decode_neuron_firing, encode_neuron_coords, Command, PacketCommand,
};

#[test]
fn packet_command_codes_match_the_wire_table() {
    assert_eq!(PacketCommand::NeuronFiring.code(), 0x01);
    assert_eq!(PacketCommand::SetGpio.code(), 0x02);
    assert_eq!(PacketCommand::SetPwm.code(), 0x03);
    assert_eq!(PacketCommand::SetLedMatrix.code(), 0x04);
    assert_eq!(PacketCommand::GetCapabilities.code(), 0x05);
}

#[test]
fn decode_set_gpio_needs_exactly_two_bytes() {
    match decode_command(0x02, &[9, 1]) {
        Some(Command::SetGpio { pin, value }) => {
            assert_eq!(pin, 9);
            assert!(value);
        }
        _ => panic!("expected SetGpio"),
    }
    assert!(decode_command(0x02, &[9]).is_none());
    assert!(decode_command(0x02, &[9, 1, 2]).is_none());
}

#[test]
fn decode_set_pwm_needs_exactly_two_bytes() {
    match decode_command(0x03, &[2, 200]) {
        Some(Command::SetPwm { pin, duty }) => {
            assert_eq!(pin, 2);
            assert_eq!(duty, 200);
        }
        _ => panic!("expected SetPwm"),
    }
    assert!(decode_command(0x03, &[]).is_none());
}

#[test]
fn decode_set_led_matrix_needs_twenty_five_bytes() {
    let mut payload = [0u8; 25];
    payload[7] = 255;
    match decode_command(0x04, &payload) {
        Some(Command::SetLedMatrix { data }) => {
            assert_eq!(data, payload);
        }
        _ => panic!("expected SetLedMatrix"),
    }
    assert!(decode_command(0x04, &payload[..24]).is_none());
}

#[test]
fn decode_get_capabilities_ignores_extra_payload() {
    assert!(matches!(decode_command(0x05, &[]), Some(Command::GetCapabilities)));
    assert!(matches!(decode_command(0x05, &[1, 2, 3]), Some(Command::GetCapabilities)));
}

#[test]
fn decode_unknown_id_yields_nothing() {
    assert!(decode_command(0x00, &[]).is_none());
    assert!(decode_command(0x06, &[0, 0]).is_none());
    assert!(decode_command(0xff, &[1]).is_none());
}

#[test]
fn decode_neuron_firing_validates_count() {
    // count=2, two pairs.
    let coords = decode_neuron_firing(&[2, 1, 2, 3, 4]).unwrap();
    assert_eq!(coords, vec![(1, 2), (3, 4)]);
    // count byte claims more pairs than the payload holds.
    assert!(decode_neuron_firing(&[3, 1, 2, 3, 4]).is_none());
    // count over the 25-pixel limit.
    let mut big = vec![26u8];
    for i in 0..26 {
        big.push(i);
        big.push(i);
    }
    assert!(decode_neuron_firing(&big).is_none());
    // empty payload has no count byte.
    assert!(decode_neuron_firing(&[]).is_none());
    // count=0 with no pairs is a valid, empty firing.
    assert_eq!(decode_neuron_firing(&[0]).unwrap(), vec![]);
}

#[test]
fn neuron_payload_roundtrip_is_lossless() {
    let payload = [2u8, 1, 2, 3, 4];
    let coords = decode_neuron_firing(&payload).unwrap();
    let back = encode_neuron_coords(&coords);
    assert_eq!(back.as_slice(), &payload);

    let coords2 = vec![(0u8, 0u8), (4, 4), (2, 3)];
    let encoded = encode_neuron_coords(&coords2);
    assert_eq!(encoded.as_slice(), &[3, 0, 0, 4, 4, 2, 3]);
    assert_eq!(decode_neuron_firing(encoded.as_slice()).unwrap(), coords2);
}
