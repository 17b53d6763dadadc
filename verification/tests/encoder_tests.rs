use feagi_protocol::encoder::{decimal_bytes, encode_sensory};

#[test]
fn decimal_bytes_spells_numbers() {
    assert_eq!(decimal_bytes(0).as_slice(), b"0");
    assert_eq!(decimal_bytes(7).as_slice(), b"7");
    assert_eq!(decimal_bytes(10).as_slice(), b"10");
    assert_eq!(decimal_bytes(409).as_slice(), b"409");
    assert_eq!(decimal_bytes(1234567890).as_slice(), b"1234567890");
    assert_eq!(decimal_bytes(u64::MAX).as_slice(), b"18446744073709551615");
}

#[test]
fn encode_sensory_exact_packet() {
    let samples: Vec<(u32, bool)> = vec![(7, true), (3, false)];
    let out = encode_sensory(&samples, 42);
    assert_eq!(out.as_slice(), b"{\"np\":[[7,1],[3,0]],\"id\":\"esp32\",\"f\":42}\n");
}

#[test]
fn encode_sensory_empty_sample_list() {
    let samples: Vec<(u32, bool)> = Vec::new();
    let out = encode_sensory(&samples, 0);
    assert_eq!(out.as_slice(), b"{\"np\":[],\"id\":\"esp32\",\"f\":0}\n");
}

#[test]
fn encode_sensory_is_a_pure_function_of_its_inputs() {
    let samples: Vec<(u32, bool)> = vec![(1, true), (2, false), (3, true)];
    let a = encode_sensory(&samples, 9);
    let b = encode_sensory(&samples, 9);
    assert_eq!(a, b);
    let c = encode_sensory(&samples, 10);
    assert_ne!(a, c);
}

#[test]
fn encode_sensory_drops_trailing_samples_over_the_budget() {
    let samples: Vec<(u32, bool)> = vec![(u32::MAX, true); 60];
    let out = encode_sensory(&samples, 7);
    // Thirty-two samples of "[4294967295,1]" fit the 512-byte budget; the
    // twenty-eight others are dropped whole.
    assert_eq!(out.len(), 508);
    assert!(out.len() <= 512);
    assert!(out.starts_with(b"{\"np\":[[4294967295,1],"));
    assert!(out.ends_with(b"[4294967295,1]],\"id\":\"esp32\",\"f\":7}\n"));
    let pairs = out.windows(2).filter(|w| w == b",[").count();
    assert_eq!(pairs + 1, 32);
}

#[test]
fn encode_sensory_newline_terminates_every_packet() {
    let samples: Vec<(u32, bool)> = vec![(5, false)];
    let out = encode_sensory(&samples, 1);
    assert_eq!(*out.last().unwrap(), b'\n');
}
