use esp32c3_airmouse::button::{Button, Repeater};

fn feed(b: &mut Button, samples: &[bool]) {
    for &s in samples {
        b.update(s);
    }
}

#[test]
fn new_button_is_released() {
    let b = Button::new();
    assert!(!b.pressed());
    assert!(!b.just_pressed());
}

#[test]
fn press_is_accepted_after_three_samples() {
    let mut b = Button::new();
    b.update(true);
    assert!(!b.pressed());
    b.update(true);
    assert!(!b.pressed());
    b.update(true);
    assert!(b.pressed());
    assert!(b.just_pressed());
    b.update(true);
    assert!(b.pressed());
    assert!(!b.just_pressed());
}

#[test]
fn short_glitch_is_ignored() {
    let mut b = Button::new();
    feed(&mut b, &[true, true, false]);
    assert!(!b.pressed());
    // the agreeing sample cleared the pending count: two more lows are not enough
    feed(&mut b, &[true, true]);
    assert!(!b.pressed());
    b.update(true);
    assert!(b.pressed());
}

#[test]
fn release_is_debounced_too() {
    let mut b = Button::new();
    feed(&mut b, &[true, true, true]);
    assert!(b.pressed());
    feed(&mut b, &[false, false]);
    assert!(b.pressed());
    b.update(false);
    assert!(!b.pressed());
    assert!(!b.just_pressed());
}

#[test]
fn repeater_converts_milliseconds_to_ticks() {
    // 400 ms delay and 100 ms interval at 10 ms per tick
    let mut r = Repeater::new(400, 100, 10);
    let mut b = Button::new();
    feed(&mut b, &[true, true, true]);
    assert!(b.just_pressed());
    assert!(r.tick(&b));
    b.update(true);
    let mut fired = Vec::new();
    for n in 1..=70u32 {
        if r.tick(&b) {
            fired.push(n);
        }
        b.update(true);
    }
    assert_eq!(fired, vec![40, 50, 60, 70]);
}

#[test]
fn repeater_rounds_up_and_keeps_interval_positive() {
    // 15 ms delay at 10 ms per tick is 2 ticks; a zero interval becomes 1 tick
    let mut r = Repeater::new(15, 0, 10);
    let mut b = Button::new();
    feed(&mut b, &[true, true, true]);
    assert!(r.tick(&b));
    b.update(true);
    let mut fired = Vec::new();
    for n in 1..=5u32 {
        if r.tick(&b) {
            fired.push(n);
        }
    }
    assert_eq!(fired, vec![2, 3, 4, 5]);
}

#[test]
fn tap_moves_exactly_once() {
    let mut r = Repeater::new(300, 50, 10);
    let mut b = Button::new();
    let mut steps = 0;
    for raw in [true, true, true, true, false, false, false, false, false] {
        b.update(raw);
        if r.tick(&b) {
            steps += 1;
        }
    }
    assert_eq!(steps, 1);
}

#[test]
fn released_button_never_steps() {
    let mut r = Repeater::new(0, 10, 10);
    let b = Button::new();
    for _ in 0..20 {
        assert!(!r.tick(&b));
    }
    assert!(r.tick_in_range(&b));
}
