use esp32c3_airmouse::report::{
    buttons_byte, report_descriptor, should_send, ReportGate, wheel_delta, MouseReport, BTN_LEFT, BTN_RIGHT,
    REPORT_LEN,
};

#[test]
fn zero_report() {
    assert!(MouseReport::zero().is_zero());
    assert!(MouseReport::default().is_zero());
    assert!(!MouseReport { buttons: 0, dx: 0, dy: 0, wheel: -1 }.is_zero());
    assert!(!MouseReport { buttons: 1, dx: 0, dy: 0, wheel: 0 }.is_zero());
    assert!(!MouseReport { buttons: 0, dx: 3, dy: 0, wheel: 0 }.is_zero());
    assert!(!MouseReport { buttons: 0, dx: 0, dy: -3, wheel: 0 }.is_zero());
}

#[test]
fn wire_bytes_are_in_descriptor_order() {
    let r = MouseReport { buttons: BTN_LEFT, dx: -1, dy: 127, wheel: -127 };
    assert_eq!(r.to_bytes(), [0x01, 0xff, 0x7f, 0x81]);
    assert_eq!(r.to_bytes().len(), REPORT_LEN);
    let r = MouseReport { buttons: 0, dx: 5, dy: -128, wheel: 0 };
    assert_eq!(r.to_bytes(), [0x00, 0x05, 0x80, 0x00]);
}

#[test]
fn button_bits() {
    assert_eq!(buttons_byte(false, false), 0);
    assert_eq!(buttons_byte(true, false), BTN_LEFT);
    assert_eq!(buttons_byte(false, true), BTN_RIGHT);
    assert_eq!(buttons_byte(true, true), 0x03);
}

#[test]
fn wheel_steps() {
    assert_eq!(wheel_delta(false, false, 1), 0);
    assert_eq!(wheel_delta(true, false, 1), 1);
    assert_eq!(wheel_delta(false, true, 1), -1);
    assert_eq!(wheel_delta(true, true, 1), 0);
    assert_eq!(wheel_delta(true, false, -1), -1);
    assert_eq!(wheel_delta(false, true, -1), 1);
}

#[test]
fn send_rule() {
    let idle = MouseReport::zero();
    assert!(!should_send(&idle, 0));
    // release of a held button is sent although nothing else changes
    assert!(should_send(&idle, BTN_LEFT));
    let held = MouseReport { buttons: BTN_LEFT, dx: 0, dy: 0, wheel: 0 };
    assert!(should_send(&held, 0));
    assert!(should_send(&held, BTN_LEFT));
    let moving = MouseReport { buttons: 0, dx: 2, dy: 0, wheel: 0 };
    assert!(should_send(&moving, 0));
}

#[test]
fn descriptor_bytes() {
    let d = report_descriptor();
    assert_eq!(d.len(), 54);
    assert_eq!(&d[..4], &[0x05, 0x01, 0x09, 0x02]);
    // report ID item
    assert_eq!(&d[10..12], &[0x85, 0x01]);
    // axes: logical range -127..127, 8 bits, 3 fields, relative input
    assert_eq!(&d[42..52], &[0x15, 0x81, 0x25, 0x7f, 0x75, 0x08, 0x95, 0x03, 0x81, 0x06]);
    assert_eq!(&d[52..], &[0xc0, 0xc0]);
}

#[test]
fn gate_sends_only_while_connected_and_tracks_buttons() {
    let mut g = ReportGate::new();
    let idle = MouseReport::zero();
    let held = MouseReport { buttons: BTN_LEFT, dx: 0, dy: 0, wheel: 0 };
    assert!(!g.step(true, &idle));
    // pressed while disconnected: not sent, but remembered
    assert!(!g.step(false, &held));
    // still held after reconnecting: the unchanged held button is sent
    assert!(g.step(true, &held));
    // release is sent once, then idle ticks are quiet
    assert!(g.step(true, &idle));
    assert!(!g.step(true, &idle));
    // released while disconnected: the release is not replayed later
    assert!(!g.step(false, &held));
    assert!(!g.step(false, &idle));
    assert!(!g.step(true, &idle));
}
