use corne_rmk::usb;
use corne_rmk::vbus::{poll_interval_ticks, UsbRegStatus, VbusActions, VbusDetectInit, VbusPoller, POLL_INTERVAL_MS};

fn reading(vbus_detected: bool, output_ready: bool) -> UsbRegStatus {
    UsbRegStatus { vbus_detected, output_ready }
}

#[test]
fn usb_starts_driver_from_register() {
    assert_eq!(usb(reading(true, false)), VbusDetectInit { usb_detected: true, power_ready: false });
    assert_eq!(usb(reading(false, true)), VbusDetectInit { usb_detected: false, power_ready: true });
}

#[test]
fn poller_starts_from_first_reading() {
    let p = VbusPoller::new(reading(true, true));
    assert_eq!(p, VbusPoller { last_detected: true, last_ready: true });
}

#[test]
fn cable_pulled_reports_and_disables_usb() {
    let mut p = VbusPoller::new(reading(true, true));
    let a = p.step(reading(false, false));
    assert_eq!(a, VbusActions { detected: Some(false), ready: false, disable_usb: true });
    assert_eq!(p, VbusPoller { last_detected: false, last_ready: false });
    // Every later reading without VBUS keeps forcing the USB state down, and nothing else.
    let a = p.step(reading(false, false));
    assert_eq!(a, VbusActions { detected: None, ready: false, disable_usb: true });
}

#[test]
fn cable_plugged_with_regulator_ready() {
    let mut p = VbusPoller::new(reading(false, false));
    let a = p.step(reading(true, true));
    assert_eq!(a, VbusActions { detected: Some(true), ready: true, disable_usb: false });
    assert_eq!(p, VbusPoller { last_detected: true, last_ready: true });
}

#[test]
fn regulator_ready_on_a_later_reading() {
    let mut p = VbusPoller::new(reading(false, false));
    let a = p.step(reading(true, false));
    assert_eq!(a, VbusActions { detected: Some(true), ready: false, disable_usb: false });
    let a = p.step(reading(true, true));
    assert_eq!(a, VbusActions { detected: None, ready: true, disable_usb: false });
    let a = p.step(reading(true, true));
    assert_eq!(a, VbusActions { detected: None, ready: false, disable_usb: false });
}

#[test]
fn ready_only_once_per_session() {
    let mut p = VbusPoller::new(reading(true, false));
    let mut readies = 0;
    for ready in [true, false, true, true, false, true] {
        if p.step(reading(true, ready)).ready {
            readies += 1;
        }
    }
    assert_eq!(readies, 1);
    // A new session (unplug, replug) reports readiness again.
    p.step(reading(false, false));
    assert!(p.step(reading(true, true)).ready);
}

#[test]
fn initial_ready_without_vbus_is_not_reported() {
    let mut p = VbusPoller::new(reading(false, true));
    let a = p.step(reading(false, true));
    assert_eq!(a, VbusActions { detected: None, ready: false, disable_usb: true });
}

#[test]
fn poll_interval_is_fifty_milliseconds_of_rtc_ticks() {
    assert_eq!(POLL_INTERVAL_MS, 50);
    // ceil(50 * 32768 / 1000) = ceil(1638.4)
    assert_eq!(poll_interval_ticks(), 1639);
    assert_eq!(embassy_time::TICK_HZ, 32_768);
    assert_eq!(embassy_time::Duration::from_millis(50).as_ticks(), poll_interval_ticks());
}

#[test]
fn tick_rate_matches_the_time_driver() {
    assert_eq!(corne_rmk::time::TICK_HZ, embassy_time::TICK_HZ);
    assert_eq!(embassy_time::Duration::from_millis(1000).as_ticks(), 32_768);
}
