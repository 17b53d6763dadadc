use feagi_protocol::gpio::{
    collect_input_samples, resolve_neuron_id, GpioController, GpioMode, GpioPinConfig,
};
use feagi_protocol::sensors::Sensors;
use feagi_protocol::vbus::AlwaysOnVbus;

#[test]
fn resolve_bare_numbers() {
    assert_eq!(resolve_neuron_id("0"), Some(0));
    assert_eq!(resolve_neuron_id("42"), Some(42));
    assert_eq!(resolve_neuron_id("00123"), Some(123));
    assert_eq!(resolve_neuron_id("4294967295"), Some(u32::MAX));
}

#[test]
fn resolve_rejects_overflow() {
    assert_eq!(resolve_neuron_id("4294967296"), None);
    assert_eq!(resolve_neuron_id("99999999999999999999"), None);
    assert_eq!(resolve_neuron_id("motor:4294967296"), None);
}

#[test]
fn resolve_takes_the_suffix_after_the_last_colon() {
    assert_eq!(resolve_neuron_id("motor:7"), Some(7));
    assert_eq!(resolve_neuron_id("a:b:9"), Some(9));
    assert_eq!(resolve_neuron_id("area_0:15"), Some(15));
}

#[test]
fn resolve_fails_on_non_numbers() {
    assert_eq!(resolve_neuron_id(""), None);
    assert_eq!(resolve_neuron_id("abc"), None);
    assert_eq!(resolve_neuron_id(":"), None);
    assert_eq!(resolve_neuron_id("x:"), None);
    assert_eq!(resolve_neuron_id("x:y"), None);
    assert_eq!(resolve_neuron_id("1 2"), None);
    assert_eq!(resolve_neuron_id("-5"), None);
}

#[test]
fn collect_samples_pairs_levels_with_resolved_ids() {
    let configs = vec![
        GpioPinConfig { pin: 4, mode: GpioMode::DigitalInput, cortical_mapping: "io:5" },
        GpioPinConfig { pin: 5, mode: GpioMode::DigitalInput, cortical_mapping: "nonsense" },
        GpioPinConfig { pin: 6, mode: GpioMode::DigitalInput, cortical_mapping: "11" },
    ];
    let levels = vec![true, true, false];
    let samples = collect_input_samples(&configs, &levels);
    assert_eq!(samples, vec![(5, true), (11, false)]);
}

#[test]
fn driverless_gpio_reads_rest_values() {
    let mut gpio = GpioController::new();
    gpio.set_digital(3, true);
    gpio.set_pwm(3, 128);
    assert!(!gpio.read_digital(3));
    assert_eq!(gpio.read_analog(0), 0);
}

#[test]
fn driverless_sensors_report_released_buttons() {
    let sensors = Sensors::new();
    assert_eq!(sensors.read_buttons(), (false, false));
}

#[test]
fn vbus_always_detected() {
    let vbus = AlwaysOnVbus::new();
    assert!(vbus.is_usb_detected());
}

#[test]
fn pin_handles_follow_the_allow_list() {
    assert_eq!(feagi_protocol::gpio::pin_to_peripheral_handle(2), Some(2));
    assert_eq!(feagi_protocol::gpio::pin_to_peripheral_handle(33), Some(33));
    assert_eq!(feagi_protocol::gpio::pin_to_peripheral_handle(1), None);
    assert_eq!(feagi_protocol::gpio::pin_to_peripheral_handle(34), None);
    assert_eq!(feagi_protocol::gpio::pin_to_peripheral_handle(6), None);
}
