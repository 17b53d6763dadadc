use feagi_protocol::control::{next_frame, period_ms, ControlLoop};

#[test]
fn period_follows_the_burst_frequency() {
    assert_eq!(period_ms(10), 100);
    assert_eq!(period_ms(30), 33);
    assert_eq!(period_ms(1), 1000);
    assert_eq!(period_ms(1000), 1);
}

#[test]
fn frame_counter_increments_by_one_per_cycle() {
    let mut c = ControlLoop::new();
    let samples: Vec<(u32, bool)> = Vec::new();
    assert_eq!(c.frame_number(), 0);
    c.run_cycle(&[], &samples);
    assert_eq!(c.frame_number(), 1);
    c.run_cycle(&[], &samples);
    c.run_cycle(&[], &samples);
    assert_eq!(c.frame_number(), 3);
}

#[test]
fn frame_counter_wraps_at_the_top() {
    assert_eq!(next_frame(0), 1);
    assert_eq!(next_frame(41), 42);
    assert_eq!(next_frame(u64::MAX - 1), u64::MAX);
    assert_eq!(next_frame(u64::MAX), 0);
}

#[test]
fn cycle_encodes_with_the_frame_before_the_increment() {
    let mut c = ControlLoop::new();
    let samples: Vec<(u32, bool)> = vec![(9, true)];
    let out = c.run_cycle(&[], &samples);
    assert_eq!(out.as_slice(), b"{\"np\":[[9,1]],\"id\":\"esp32\",\"f\":0}\n");
    let out = c.run_cycle(&[], &samples);
    assert_eq!(out.as_slice(), b"{\"np\":[[9,1]],\"id\":\"esp32\",\"f\":1}\n");
}

#[test]
fn cycle_dispatches_a_capability_query_into_the_reply_slot() {
    let mut c = ControlLoop::new();
    let samples: Vec<(u32, bool)> = Vec::new();
    c.run_cycle(&[0x05, 0x00], &samples);
    let reply = c.take_reply().unwrap();
    assert!(!reply.is_empty());
    assert!(reply.starts_with(b"{\"sensors\":"));
    assert!(c.take_reply().is_none());
}

#[test]
fn cycle_applies_a_neuron_firing_to_the_display() {
    let mut c = ControlLoop::new();
    let samples: Vec<(u32, bool)> = Vec::new();
    // Frame: NeuronFiring, payload [count=1, x=2, y=1].
    c.run_cycle(&[0x01, 0x03, 0x01, 0x02, 0x01], &samples);
    let g = c.grid_bytes();
    for j in 0..25 {
        assert_eq!(g[j], if j == 1 * 5 + 2 { 255 } else { 0 });
    }
}

#[test]
fn cycle_survives_a_flooded_transport() {
    let mut c = ControlLoop::new();
    let samples: Vec<(u32, bool)> = Vec::new();
    let mut flood = vec![0x01u8, 0xff];
    flood.extend(std::iter::repeat(0x55).take(400));
    c.run_cycle(&flood, &samples);
    assert_eq!(c.overflow_count(), 1);
    assert_eq!(c.buffered_len(), 0);
    // The next cycle decodes normally.
    c.run_cycle(&[0x05, 0x00], &samples);
    assert!(c.take_reply().is_some());
}

#[test]
fn later_capability_reply_overwrites_an_unconsumed_one() {
    let mut c = ControlLoop::new();
    let samples: Vec<(u32, bool)> = Vec::new();
    c.run_cycle(&[0x05, 0x00], &samples);
    c.run_cycle(&[0x05, 0x00], &samples);
    // Last write wins: one reply waits, not a queue of two.
    assert!(c.take_reply().is_some());
    assert!(c.take_reply().is_none());
}
