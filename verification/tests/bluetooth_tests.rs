use feagi_protocol::bluetooth::BluetoothService;
use feagi_protocol::command::Command;

#[test]
fn test_bluetooth_service_creation() {
    let service = BluetoothService::new("FEAGI-test");
    assert!(!service.is_connected());
}

#[test]
fn test_process_received_data() {
    let mut service = BluetoothService::new("FEAGI-test");

    // A single byte is buffered but is not yet a complete packet.
    service.process_received_data(&[0x01]);
    let result = service.receive_neuron_data();
    assert!(result.is_none());

    // More bytes, then a complete packet: parsing succeeds.
    service.process_received_data(&[0x02, 0x03]);
    let packet = [0x01, 0x01, 0x05, 0x06];
    service.process_received_data(&packet);
    let result = service.receive_neuron_data();
    assert!(result.is_some());
}

#[test]
fn test_parse_neuron_firing_packet_valid() {
    let mut service = BluetoothService::new("FEAGI-test");

    // Valid packet: [0x01] [count=2] [x1=1, y1=2, x2=3, y2=4]
    let packet = [0x01, 0x02, 0x01, 0x02, 0x03, 0x04];
    service.process_received_data(&packet);

    let result = service.receive_neuron_data();
    assert!(result.is_some());
    let coords = result.unwrap();
    assert_eq!(coords.len(), 2);
    assert_eq!(coords[0], (1, 2));
    assert_eq!(coords[1], (3, 4));
}

#[test]
fn test_parse_neuron_firing_packet_invalid_header() {
    let mut service = BluetoothService::new("FEAGI-test");

    let packet = [0x02, 0x01, 0x00, 0x00];
    service.process_received_data(&packet);

    let result = service.receive_neuron_data();
    assert!(result.is_none());
}

#[test]
fn test_parse_neuron_firing_packet_incomplete() {
    let mut service = BluetoothService::new("FEAGI-test");

    // Missing the final y coordinate.
    let packet = [0x01, 0x02, 0x01];
    service.process_received_data(&packet);

    let result = service.receive_neuron_data();
    assert!(result.is_none());
}

#[test]
fn test_parse_neuron_firing_packet_max_coords() {
    let mut service = BluetoothService::new("FEAGI-test");

    let mut packet = vec![0x01, 25];
    for i in 0..25 {
        packet.push(i as u8);
        packet.push((i + 1) as u8);
    }
    service.process_received_data(&packet);

    let result = service.receive_neuron_data();
    assert!(result.is_some());
    let coords = result.unwrap();
    assert_eq!(coords.len(), 25);
}

#[test]
fn test_parse_neuron_firing_packet_too_many_coords() {
    let mut service = BluetoothService::new("FEAGI-test");

    let mut packet = vec![0x01, 26];
    for i in 0..26 {
        packet.push(i as u8);
        packet.push((i + 1) as u8);
    }
    service.process_received_data(&packet);

    let result = service.receive_neuron_data();
    assert!(result.is_none());
}

#[test]
fn test_connection_status() {
    let mut service = BluetoothService::new("FEAGI-test");

    assert!(!service.is_connected());
    service.set_connected(true);
    assert!(service.is_connected());
    service.set_connected(false);
    assert!(!service.is_connected());
}

#[test]
fn test_get_capabilities_data() {
    let service = BluetoothService::new("FEAGI-test");
    let caps = "{\"sensors\":{\"accel\":true}}";
    let data = service.get_capabilities_data(caps);

    assert_eq!(data.len(), caps.len());
    assert_eq!(data.as_slice(), caps.as_bytes());
}

#[test]
fn test_buffer_overflow_handling() {
    let mut service = BluetoothService::new("FEAGI-test");

    let large_data = vec![0x01; 300];
    service.process_received_data(&large_data);

    // The service keeps working after the overflow.
    let packet = [0x01, 0x01, 0x05, 0x06];
    service.process_received_data(&packet);
    let result = service.receive_neuron_data();
    assert!(result.is_some() || result.is_none());
}

#[test]
fn receive_command_wraps_packet_in_neuron_firing() {
    let mut service = BluetoothService::new("FEAGI-test");
    service.process_received_data(&[0x01, 0x02, 0x01, 0x02, 0x03, 0x04]);
    match service.receive_command() {
        Some(Command::NeuronFiring { coordinates }) => {
            assert_eq!(coordinates.len(), 2);
            assert_eq!(coordinates[0], (1, 2));
            assert_eq!(coordinates[1], (3, 4));
        }
        _ => panic!("expected a neuron firing command"),
    }
}

#[test]
fn buffer_overflow_clears_everything() {
    let mut service = BluetoothService::new("FEAGI-test");
    // 200 bytes of an incomplete packet, then 100 more: the 300 do not fit,
    // so the whole buffer is dropped and parsing finds nothing.
    service.process_received_data(&[0x01; 200]);
    service.process_received_data(&[0x01; 100]);
    assert_eq!(service.buffered_len(), 0);
    assert!(service.receive_neuron_data().is_none());
}

#[test]
fn capabilities_data_truncates_to_buffer() {
    let service = BluetoothService::new("FEAGI-test");
    let long = "x".repeat(300);
    let data = service.get_capabilities_data(&long);
    assert_eq!(data.len(), 256);
    assert_eq!(data.as_slice(), &long.as_bytes()[..256]);
}

#[test]
fn sensor_placeholder_is_fixed_json() {
    let service = BluetoothService::new("FEAGI-test");
    let data = service.send_sensor_data().unwrap();
    assert_eq!(
        data.as_slice(),
        b"{\"accel\":[0,0,0],\"mag\":[0,0,0],\"temp\":0.0,\"buttons\":{\"a\":false,\"b\":false}}"
    );
}
