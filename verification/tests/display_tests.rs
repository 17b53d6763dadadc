use feagi_protocol::command::Command;
use feagi_protocol::dispatch::Dispatcher;
use feagi_protocol::display::LedDisplay;

fn grid_of(display: &LedDisplay) -> Vec<u8> {
    display.grid_bytes()
}

#[test]
fn new_display_is_dark() {
    let d = LedDisplay::new();
    assert_eq!(grid_of(&d), vec![0u8; 25]);
}

#[test]
fn set_pixel_lights_one_cell_row_major() {
    let mut d = LedDisplay::new();
    d.set_pixel(1, 2, true);
    let g = grid_of(&d);
    for j in 0..25 {
        assert_eq!(g[j], if j == 2 * 5 + 1 { 255 } else { 0 });
    }
    d.set_pixel(1, 2, false);
    assert_eq!(grid_of(&d), vec![0u8; 25]);
}

#[test]
fn out_of_range_pixels_are_ignored() {
    let mut d = LedDisplay::new();
    d.set_pixel(5, 0, true);
    d.set_pixel(0, 5, true);
    d.set_brightness(9, 9, 200);
    assert_eq!(grid_of(&d), vec![0u8; 25]);
}

#[test]
fn set_brightness_stores_the_level() {
    let mut d = LedDisplay::new();
    d.set_brightness(4, 0, 42);
    assert_eq!(grid_of(&d)[4], 42);
}

#[test]
fn set_matrix_replaces_the_whole_picture() {
    let mut d = LedDisplay::new();
    let mut data = [0u8; 25];
    for (i, b) in data.iter_mut().enumerate() {
        *b = i as u8;
    }
    d.set_matrix(&data);
    assert_eq!(grid_of(&d), data.to_vec());
}

#[test]
fn update_from_neurons_replaces_not_merges() {
    let mut d = LedDisplay::new();
    d.set_matrix(&[255u8; 25]);
    let mut coords: heapless::Vec<(u8, u8), 25> = heapless::Vec::new();
    coords.push((0, 0)).unwrap();
    coords.push((4, 4)).unwrap();
    coords.push((7, 7)).unwrap(); // off the matrix: ignored
    d.update_from_neurons(&coords);
    let g = grid_of(&d);
    for j in 0..25 {
        assert_eq!(g[j], if j == 0 || j == 24 { 255 } else { 0 });
    }
}

#[test]
fn frame_bits_binarize_at_half_brightness() {
    let mut d = LedDisplay::new();
    d.set_brightness(0, 0, 127);
    d.set_brightness(1, 0, 128);
    d.set_brightness(2, 0, 255);
    let bits = d.frame_bits();
    assert_eq!(bits.len(), 25);
    assert!(!bits[0]);
    assert!(bits[1]);
    assert!(bits[2]);
}

#[test]
fn glyphs_fill_the_expected_cells() {
    let mut d = LedDisplay::new();
    d.show_heart();
    let heart = grid_of(&d);
    assert_eq!(&heart[0..5], &[0, 255, 0, 255, 0]);
    assert_eq!(&heart[20..25], &[0, 0, 255, 0, 0]);
    d.show_letter_f();
    let f = grid_of(&d);
    assert_eq!(&f[0..5], &[255, 255, 255, 255, 255]);
    assert_eq!(&f[20..25], &[255, 0, 0, 0, 0]);
    d.show_letter_e();
    assert_eq!(&grid_of(&d)[20..25], &[255, 255, 255, 255, 255]);
    d.show_letter_a();
    assert_eq!(&grid_of(&d)[0..5], &[0, 255, 255, 255, 0]);
    d.show_letter_g();
    assert_eq!(&grid_of(&d)[10..15], &[255, 0, 255, 255, 255]);
    d.show_letter_i();
    assert_eq!(&grid_of(&d)[5..10], &[0, 0, 255, 0, 0]);
    d.show_arrow_up();
    assert_eq!(&grid_of(&d)[10..15], &[255, 0, 255, 0, 255]);
    d.show_checkmark();
    assert_eq!(&grid_of(&d)[0..5], &[0, 0, 0, 0, 0]);
    assert_eq!(&grid_of(&d)[15..20], &[255, 0, 255, 0, 0]);
    d.clear();
    assert_eq!(grid_of(&d), vec![0u8; 25]);
}

#[test]
fn matrix_then_firing_leaves_only_the_firing_pixels() {
    let mut d = Dispatcher::new();
    d.dispatch(Command::SetLedMatrix { data: [255u8; 25] });
    let coordinates = vec![(1u8, 2u8), (3u8, 4u8)];
    d.dispatch(Command::NeuronFiring { coordinates });
    let g = d.grid_bytes();
    for j in 0..25 {
        let lit = j == 2 * 5 + 1 || j == 4 * 5 + 3;
        assert_eq!(g[j], if lit { 255 } else { 0 });
    }
}

#[test]
fn capability_query_fills_the_reply_slot() {
    let mut d = Dispatcher::new();
    assert!(d.take_reply().is_none());
    d.dispatch(Command::GetCapabilities);
    let reply = d.take_reply().unwrap();
    assert!(!reply.is_empty());
    assert_eq!(
        reply.as_slice(),
        b"{\"sensors\":{\"accel\":true,\"mag\":true,\"temp\":true,\"buttons\":true},\"gpio\":{\"digital\":8,\"analog\":3,\"pwm\":8},\"display\":{\"matrix\":true}}"
    );
    // Take-and-clear semantics: the slot is empty again.
    assert!(d.take_reply().is_none());
}

#[test]
fn pin_commands_leave_display_and_reply_alone() {
    let mut d = Dispatcher::new();
    d.dispatch(Command::SetGpio { pin: 3, value: true });
    d.dispatch(Command::SetPwm { pin: 3, duty: 99 });
    assert_eq!(d.grid_bytes(), vec![0u8; 25]);
    assert!(d.take_reply().is_none());
}
