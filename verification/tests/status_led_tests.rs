use esp32c3_airmouse::status_led::{connection_indication, scale, Rgb8, Status, StatusLed};

#[test]
fn status_colors() {
    assert_eq!(Status::Calibrating.color(), Rgb8 { r: 255, g: 140, b: 0 });
    assert_eq!(Status::Advertising.color(), Rgb8 { r: 0, g: 80, b: 255 });
    assert_eq!(Status::Connected.color(), Rgb8 { r: 0, g: 255, b: 60 });
}

#[test]
fn scale_dims_to_eight_percent() {
    assert_eq!(scale(Status::Calibrating.color()), Rgb8 { r: 20, g: 11, b: 0 });
    assert_eq!(scale(Status::Advertising.color()), Rgb8 { r: 0, g: 6, b: 20 });
    assert_eq!(scale(Status::Connected.color()), Rgb8 { r: 0, g: 20, b: 4 });
}

#[test]
fn scale_agrees_with_f32_brightness_for_every_level() {
    const BRIGHTNESS: f32 = 0.08;
    for v in 0..=255u8 {
        let expected = (v as f32 * BRIGHTNESS) as u8;
        let got = scale(Rgb8 { r: v, g: v, b: v });
        assert_eq!(got, Rgb8 { r: expected, g: expected, b: expected }, "level {v}");
    }
}

/// Requests a frame and records it as shown, as after a successful write.
fn set_ok(led: &mut StatusLed, status: Status, on: bool) -> Option<Rgb8> {
    let frame = led.request(status, on);
    if frame.is_some() {
        led.shown(status, on);
    }
    frame
}

#[test]
fn repeated_request_is_not_rewritten() {
    let mut led = StatusLed::new();
    assert_eq!(set_ok(&mut led, Status::Advertising, true), Some(Rgb8 { r: 0, g: 6, b: 20 }));
    assert_eq!(set_ok(&mut led, Status::Advertising, true), None);
    assert_eq!(set_ok(&mut led, Status::Advertising, false), Some(Rgb8 { r: 0, g: 0, b: 0 }));
    assert_eq!(set_ok(&mut led, Status::Advertising, false), None);
    assert_eq!(set_ok(&mut led, Status::Connected, true), Some(Rgb8 { r: 0, g: 20, b: 4 }));
    assert_eq!(set_ok(&mut led, Status::Calibrating, true), Some(Rgb8 { r: 20, g: 11, b: 0 }));
    assert_eq!(set_ok(&mut led, Status::Calibrating, true), None);
}

#[test]
fn failed_write_is_retried() {
    let mut led = StatusLed::new();
    led.shown(Status::Advertising, true);
    // the write of the new request fails: nothing is recorded
    assert_eq!(led.request(Status::Connected, true), Some(Rgb8 { r: 0, g: 20, b: 4 }));
    // so the same request is written again on the next tick
    assert_eq!(led.request(Status::Connected, true), Some(Rgb8 { r: 0, g: 20, b: 4 }));
    led.shown(Status::Connected, true);
    assert_eq!(led.request(Status::Connected, true), None);
    // the previous request is not considered shown any more
    assert_eq!(led.request(Status::Advertising, true), Some(Rgb8 { r: 0, g: 6, b: 20 }));
}

#[test]
fn first_request_is_always_written() {
    let led = StatusLed::new();
    assert_eq!(led.request(Status::Calibrating, false), Some(Rgb8 { r: 0, g: 0, b: 0 }));
}

#[test]
fn connected_is_steady_and_advertising_blinks() {
    assert_eq!(connection_indication(true, 0), (Status::Connected, true));
    assert_eq!(connection_indication(true, 75), (Status::Connected, true));
    assert_eq!(connection_indication(false, 0), (Status::Advertising, true));
    assert_eq!(connection_indication(false, 49), (Status::Advertising, true));
    assert_eq!(connection_indication(false, 50), (Status::Advertising, false));
    assert_eq!(connection_indication(false, 99), (Status::Advertising, false));
    assert_eq!(connection_indication(false, 100), (Status::Advertising, true));
    assert_eq!(connection_indication(false, 1234), (Status::Advertising, true));
    assert_eq!(connection_indication(false, 1250), (Status::Advertising, false));
    let lit = (0..100u32).filter(|t| connection_indication(false, *t).1).count();
    assert_eq!(lit, 50);
}
