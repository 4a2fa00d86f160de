//! What the on-board RGB status LED shows.
//!
//! The LED driver itself is outside the library; [`StatusLed::request`]
//! decides which frame, if any, has to be written to it, and
//! [`StatusLed::shown`] records a successful write.
use vstd::prelude::*;

verus! {

use vstd::arithmetic::div_mod::{lemma_fundamental_div_mod, lemma_fundamental_div_mod_converse};

/// Operating state of the air mouse.
#[derive(Clone, Copy, PartialEq, Eq, Structural, Debug)]
pub enum Status {
    /// Gyro calibration in progress: the board must not be moved.
    Calibrating,
    /// BLE advertising, no host connected.
    Advertising,
    /// Connected to a host: normal operation.
    Connected,
}

/// A 24-bit RGB color.
#[derive(Clone, Copy, PartialEq, Eq, Structural, Debug)]
pub struct Rgb8 {
    pub r: u8,
    pub g: u8,
    pub b: u8,
}

/// Brightness of the LED in percent of full scale. The WS2812 is very
/// bright; this is plenty indoors and saves current.
pub const BRIGHTNESS_PERCENT: u8 = 8;

/// Full-brightness color of each status: orange, blue and green.
pub open spec fn status_color(s: Status) -> Rgb8 {
    match s {
        Status::Calibrating => Rgb8 { r: 255, g: 140, b: 0 },
        Status::Advertising => Rgb8 { r: 0, g: 80, b: 255 },
        Status::Connected => Rgb8 { r: 0, g: 255, b: 60 },
    }
}

/// One color channel dimmed to `BRIGHTNESS_PERCENT`, rounded down.
pub open spec fn dim_channel(v: u8) -> u8 {
    (v * BRIGHTNESS_PERCENT / 100) as u8
}

/// A color dimmed to `BRIGHTNESS_PERCENT`.
pub open spec fn dim(c: Rgb8) -> Rgb8 {
    Rgb8 { r: dim_channel(c.r), g: dim_channel(c.g), b: dim_channel(c.b) }
}

/// The frame shown for `status`: the dimmed status color while `blink_on`,
/// dark otherwise (blinking is made of such dark phases).
pub open spec fn led_frame(status: Status, blink_on: bool) -> Rgb8 {
    if blink_on {
        dim(status_color(status))
    } else {
        Rgb8 { r: 0, g: 0, b: 0 }
    }
}

impl Status {
    /// Full-brightness color of this status.
    pub fn color(self) -> (c: Rgb8)
        ensures
            c == status_color(self),
    {
        match self {
            Status::Calibrating => Rgb8 { r: 255, g: 140, b: 0 },
            Status::Advertising => Rgb8 { r: 0, g: 80, b: 255 },
            Status::Connected => Rgb8 { r: 0, g: 255, b: 60 },
        }
    }
}

/// One channel dimmed to `BRIGHTNESS_PERCENT`, rounded down.
fn scale_channel(v: u8) -> (r: u8)
    ensures
        r == dim_channel(v),
{
    let wide: u16 = v as u16;
    let r: u16 = wide * 8 / 100;
    assert(r <= 20) by (nonlinear_arith)
        requires
            r == wide * 8 / 100,
            wide <= 255,
    ;
    r as u8
}

/// A color dimmed to `BRIGHTNESS_PERCENT` of full scale.
pub fn scale(c: Rgb8) -> (r: Rgb8)
    ensures
        r == dim(c),
{
    Rgb8 { r: scale_channel(c.r), g: scale_channel(c.g), b: scale_channel(c.b) }
}

/// Frame to write for the request `(status, blink_on)`, given the pair
/// `last` that the LED is known to show: nothing when the request equals it.
pub open spec fn led_request(last: Option<(Status, bool)>, status: Status, blink_on: bool) -> Option<
    Rgb8,
> {
    if last == Some((status, blink_on)) {
        None
    } else {
        Some(led_frame(status, blink_on))
    }
}

/// The frame that was last written for the remembered request.
pub open spec fn written_frame(last: Option<(Status, bool)>) -> Option<Rgb8> {
    match last {
        Some((s, b)) => Some(led_frame(s, b)),
        None => None,
    }
}

/// Status LED bookkeeping: remembers the (status, blink) pair last actually
/// written to the LED, so that an unchanged request is not sent again while a
/// request whose write failed is written again.
pub struct StatusLed {
    last: Option<(Status, bool)>,
}

impl View for StatusLed {
    type V = Option<(Status, bool)>;

    closed spec fn view(&self) -> Option<(Status, bool)> {
        self.last
    }
}

impl StatusLed {
    /// Nothing shown yet: the first request is always written.
    pub fn new() -> (led: StatusLed)
        ensures
            led@ == None::<(Status, bool)>,
    {
        StatusLed { last: None }
    }

    /// The frame to write for showing `status`, lit when `blink_on` and dark
    /// otherwise, or `None` when the LED already shows exactly this request.
    /// Nothing is recorded: call [`Self::shown`] once the frame was written.
    pub fn request(&self, status: Status, blink_on: bool) -> (frame: Option<Rgb8>)
        ensures
            frame == led_request(self@, status, blink_on),
    {
        let unchanged: bool = match self.last {
            Some((s, b)) => s == status && b == blink_on,
            None => false,
        };
        if unchanged {
            return None;
        }
        let c: Rgb8 = if blink_on {
            scale(status.color())
        } else {
            Rgb8 { r: 0, g: 0, b: 0 }
        };
        Some(c)
    }

    /// Records that the frame of `(status, blink_on)` was written to the LED
    /// successfully.
    pub fn shown(&mut self, status: Status, blink_on: bool)
        ensures
            final(self)@ == Some((status, blink_on)),
    {
        self.last = Some((status, blink_on));
    }
}

/// Loop ticks per blink period while advertising (1 s at a 10 ms loop).
pub const BLINK_PERIOD_TICKS: u32 = 100;

/// Whether the advertising blink is lit on loop tick `tick`.
pub open spec fn blink_lit(tick: int) -> bool {
    tick % (BLINK_PERIOD_TICKS as int) < (BLINK_PERIOD_TICKS / 2) as int
}

/// What the LED shows in the main loop: steady green while connected,
/// otherwise slow blue blinking, lit during the first half of each period.
pub open spec fn indication(connected: bool, tick: int) -> (Status, bool) {
    if connected {
        (Status::Connected, true)
    } else {
        (Status::Advertising, blink_lit(tick))
    }
}

/// The (status, lit) pair to show on loop tick `tick`.
pub fn connection_indication(connected: bool, tick: u32) -> (r: (Status, bool))
    ensures
        r == indication(connected, tick as int),
{
    if connected {
        (Status::Connected, true)
    } else {
        (Status::Advertising, tick % BLINK_PERIOD_TICKS < BLINK_PERIOD_TICKS / 2)
    }
}

/// Once the frame of a request was written successfully (and recorded), the
/// LED shows that request's frame and repeating the request writes nothing.
/// While a write has failed (nothing recorded), the same request is written
/// again. A request that writes nothing is one whose frame the LED already
/// shows.
pub proof fn lemma_led_request_shows_latest(
    last: Option<(Status, bool)>,
    status: Status,
    blink_on: bool,
)
    ensures
        written_frame(Some((status, blink_on))) == Some(led_frame(status, blink_on)),
        led_request(Some((status, blink_on)), status, blink_on) is None,
        led_request(last, status, blink_on) is Some ==> led_request(last, status, blink_on)
            == Some(led_frame(status, blink_on)),
        led_request(last, status, blink_on) is None ==> written_frame(last) == Some(
            led_frame(status, blink_on),
        ),
{
}

/// Position law of the advertising blink: on tick `i` of any period
/// (`0 <= i < BLINK_PERIOD_TICKS`) the LED is lit exactly when `i` is in the
/// first half, so it stays lit for the whole first half and dark for the
/// whole second half of every period.
pub proof fn lemma_blink_by_position(period: nat, i: nat)
    requires
        i < BLINK_PERIOD_TICKS,
    ensures
        blink_lit(period * BLINK_PERIOD_TICKS + i) == (i < BLINK_PERIOD_TICKS / 2),
{
    let p: int = BLINK_PERIOD_TICKS as int;
    lemma_fundamental_div_mod_converse(period * p + i, p, period as int, i as int);
}

/// While connected the LED is steadily lit with the connected status; while
/// not connected it shows advertising, lit exactly on the first half of each
/// blink period.
pub proof fn lemma_indication(tick: int)
    requires
        tick >= 0,
    ensures
        indication(true, tick) == (Status::Connected, true),
        indication(false, tick).0 == Status::Advertising,
        indication(false, tick).1 <==> tick % (BLINK_PERIOD_TICKS as int) < 50,
{
}

/// A lit frame is never dark, a dark phase is always dark, and the three
/// statuses stay distinguishable when lit.
pub proof fn lemma_frames_distinguishable(a: Status, b: Status)
    ensures
        led_frame(a, true) != (Rgb8 { r: 0, g: 0, b: 0 }),
        led_frame(a, false) == (Rgb8 { r: 0, g: 0, b: 0 }),
        a != b ==> led_frame(a, true) != led_frame(b, true),
{
    assert(dim_channel(255) == 20);
    assert(dim_channel(140) == 11);
    assert(dim_channel(80) == 6);
    assert(dim_channel(60) == 4);
    assert(dim_channel(0) == 0);
}

/// Dimming rounds down: the dimmed channel is the largest value whose
/// full-scale fraction does not exceed `BRIGHTNESS_PERCENT` of the input.
pub proof fn lemma_dim_channel_rounds_down(v: u8)
    ensures
        dim_channel(v) as int * 100 <= v as int * BRIGHTNESS_PERCENT,
        v as int * BRIGHTNESS_PERCENT < (dim_channel(v) as int + 1) * 100,
{
    let x: int = v as int * 8;
    lemma_fundamental_div_mod(x, 100);
    assert(x / 100 <= 20) by (nonlinear_arith)
        requires
            x == v as int * 8,
            v <= 255,
    ;
    assert((x / 100) as u8 as int == x / 100);
}

/// The advertising blink has a period of `BLINK_PERIOD_TICKS` ticks and is
/// lit for exactly the first half of each period.
pub proof fn lemma_advertising_blink(tick: int)
    requires
        tick >= 0,
    ensures
        blink_lit(tick) == blink_lit(tick + BLINK_PERIOD_TICKS),
        blink_lit(tick) != blink_lit(tick + BLINK_PERIOD_TICKS / 2),
{
    let p = BLINK_PERIOD_TICKS as int;
    lemma_fundamental_div_mod(tick, p);
    lemma_fundamental_div_mod(tick + p, p);
    lemma_fundamental_div_mod(tick + p / 2, p);
    lemma_fundamental_div_mod_converse(tick + p, p, tick / p + 1, tick % p);
    if tick % p < p / 2 {
        lemma_fundamental_div_mod_converse(tick + p / 2, p, tick / p, tick % p + p / 2);
    } else {
        lemma_fundamental_div_mod_converse(tick + p / 2, p, tick / p + 1, tick % p - p / 2);
    }
}

} // verus!
