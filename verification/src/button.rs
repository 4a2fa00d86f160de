//! Debounced push buttons and key-repeat for the scroll buttons.
//!
//! The pin itself is read by the caller; a [`Button`] only sees the raw
//! level of each loop tick (`true` while the active-low switch pulls the
//! pin to ground) and turns it into a debounced pressed/released state.
use vstd::prelude::*;

verus! {

use vstd::arithmetic::div_mod::{
    lemma_fundamental_div_mod,
    lemma_fundamental_div_mod_converse,
    lemma_mod_add_multiples_vanish,
};

/// Number of consecutive raw samples that must disagree with the debounced
/// state before the change is accepted (three samples at a 10 ms loop: 30 ms).
pub const DEBOUNCE_SAMPLES: u8 = 3;

/// Abstract state of a debounced button.
pub struct ButtonState {
    /// Debounced level: `true` while the button is held.
    pub pressed: bool,
    /// Debounced level before the latest update.
    pub prev_pressed: bool,
    /// Number of consecutive raw samples seen so far that disagree with
    /// `pressed`.
    pub counter: nat,
}

/// A reachable button state: the disagreement counter never reaches the
/// debounce length (it is reset when the change is accepted).
pub open spec fn button_state_valid(s: ButtonState) -> bool {
    s.counter < DEBOUNCE_SAMPLES
}

/// One debounce step on the raw sample `raw`.
pub open spec fn debounce_step(s: ButtonState, raw: bool) -> ButtonState {
    if raw == s.pressed {
        ButtonState { pressed: s.pressed, prev_pressed: s.pressed, counter: 0 }
    } else if s.counter + 1 >= DEBOUNCE_SAMPLES {
        ButtonState { pressed: raw, prev_pressed: s.pressed, counter: 0 }
    } else {
        ButtonState { pressed: s.pressed, prev_pressed: s.pressed, counter: s.counter + 1 }
    }
}

/// The state reached from `s` after the raw samples `samples`, oldest first.
pub open spec fn debounce_run(s: ButtonState, samples: Seq<bool>) -> ButtonState
    decreases samples.len(),
{
    if samples.len() == 0 {
        s
    } else {
        debounce_step(debounce_run(s, samples.drop_last()), samples.last())
    }
}

/// `true` exactly on the update in which the debounced state went from
/// released to pressed.
pub open spec fn state_just_pressed(s: ButtonState) -> bool {
    s.pressed && !s.prev_pressed
}

/// Debounced active-low push button.
pub struct Button {
    pressed: bool,
    prev_pressed: bool,
    counter: u8,
}

impl View for Button {
    type V = ButtonState;

    closed spec fn view(&self) -> ButtonState {
        ButtonState {
            pressed: self.pressed,
            prev_pressed: self.prev_pressed,
            counter: self.counter as nat,
        }
    }
}

impl Button {
    #[verifier::type_invariant]
    spec fn counter_in_range(self) -> bool {
        self.counter < DEBOUNCE_SAMPLES
    }

    /// A released button with no pending change.
    pub fn new() -> (b: Button)
        ensures
            b@ == (ButtonState { pressed: false, prev_pressed: false, counter: 0 }),
            button_state_valid(b@),
    {
        Button { pressed: false, prev_pressed: false, counter: 0 }
    }

    /// Feeds the raw level of this loop tick (`true` when the pin reads low,
    /// i.e. the switch is closed). Called once per loop period.
    pub fn update(&mut self, raw_low: bool)
        ensures
            final(self)@ == debounce_step(old(self)@, raw_low),
            button_state_valid(final(self)@),
    {
        proof {
            use_type_invariant(&*self);
        }
        let prev: bool = self.pressed;
        if raw_low == self.pressed {
            *self = Button { pressed: prev, prev_pressed: prev, counter: 0 };
        } else {
            let next: u8 = self.counter + 1;
            if next >= DEBOUNCE_SAMPLES {
                *self = Button { pressed: raw_low, prev_pressed: prev, counter: 0 };
            } else {
                *self = Button { pressed: prev, prev_pressed: prev, counter: next };
            }
        }
    }

    /// Debounced level: stays `true` for as long as the button is held
    /// (used for dragging).
    pub fn pressed(&self) -> (r: bool)
        ensures
            r == self@.pressed,
    {
        self.pressed
    }

    /// `true` only on the tick at which the press was accepted; used for
    /// actions that must run once per press.
    pub fn just_pressed(&self) -> (r: bool)
        ensures
            r == state_just_pressed(self@),
    {
        self.pressed && !self.prev_pressed
    }
}

/// Every debounce step keeps the state reachable.
pub proof fn lemma_debounce_step_valid(s: ButtonState, raw: bool)
    requires
        button_state_valid(s),
    ensures
        button_state_valid(debounce_step(s, raw)),
        debounce_step(s, raw).prev_pressed == s.pressed,
{
}

/// A press edge is reported on one update only: the update right after an
/// edge never reports another edge, whatever the raw sample.
pub proof fn lemma_just_pressed_once(s: ButtonState, raw: bool, next_raw: bool)
    requires
        state_just_pressed(debounce_step(s, raw)),
    ensures
        !state_just_pressed(debounce_step(debounce_step(s, raw), next_raw)),
{
}

/// Every run of samples keeps the state reachable.
pub proof fn lemma_debounce_run_valid(s: ButtonState, samples: Seq<bool>)
    requires
        button_state_valid(s),
    ensures
        button_state_valid(debounce_run(s, samples)),
    decreases samples.len(),
{
    if samples.len() > 0 {
        lemma_debounce_run_valid(s, samples.drop_last());
    }
}

/// Samples that agree with the debounced state change nothing and clear any
/// pending change.
pub proof fn lemma_debounce_agreeing_samples(s: ButtonState, samples: Seq<bool>)
    requires
        button_state_valid(s),
        forall|i: int| 0 <= i < samples.len() ==> #[trigger] samples[i] == s.pressed,
    ensures
        debounce_run(s, samples).pressed == s.pressed,
        samples.len() > 0 ==> debounce_run(s, samples).counter == 0,
    decreases samples.len(),
{
    if samples.len() > 0 {
        let prefix = samples.drop_last();
        assert forall|i: int| 0 <= i < prefix.len() implies #[trigger] prefix[i] == s.pressed by {
            assert(prefix[i] == samples[i]);
        }
        lemma_debounce_agreeing_samples(s, prefix);
        assert(samples.last() == samples[samples.len() - 1]);
    }
}

/// A glitch shorter than the remaining debounce window is ignored: while
/// fewer than `DEBOUNCE_SAMPLES` disagreeing samples (counting those already
/// pending) have been seen, the debounced state does not change.
pub proof fn lemma_debounce_rejects_short_glitch(s: ButtonState, samples: Seq<bool>)
    requires
        button_state_valid(s),
        s.counter + samples.len() < DEBOUNCE_SAMPLES,
        forall|i: int| 0 <= i < samples.len() ==> #[trigger] samples[i] != s.pressed,
    ensures
        debounce_run(s, samples).pressed == s.pressed,
        debounce_run(s, samples).counter == s.counter + samples.len(),
    decreases samples.len(),
{
    if samples.len() > 0 {
        let prefix = samples.drop_last();
        assert forall|i: int| 0 <= i < prefix.len() implies #[trigger] prefix[i] != s.pressed by {
            assert(prefix[i] == samples[i]);
        }
        lemma_debounce_rejects_short_glitch(s, prefix);
        assert(samples.last() == samples[samples.len() - 1]);
    }
}

/// Progress towards a steady level `v`: after `k` samples all equal to `v`,
/// either the state already shows `v` or the pending count grew by `k`.
proof fn lemma_debounce_progress(s: ButtonState, samples: Seq<bool>, v: bool)
    requires
        button_state_valid(s),
        forall|i: int| 0 <= i < samples.len() ==> #[trigger] samples[i] == v,
    ensures
        debounce_run(s, samples).pressed == v
            || debounce_run(s, samples).counter == s.counter + samples.len(),
    decreases samples.len(),
{
    if samples.len() > 0 {
        let prefix = samples.drop_last();
        assert forall|i: int| 0 <= i < prefix.len() implies #[trigger] prefix[i] == v by {
            assert(prefix[i] == samples[i]);
        }
        lemma_debounce_progress(s, prefix, v);
        lemma_debounce_run_valid(s, prefix);
        assert(samples.last() == samples[samples.len() - 1]);
    }
}

/// A steady level held for at least `DEBOUNCE_SAMPLES` samples is always
/// accepted, from any reachable state.
pub proof fn lemma_debounce_settles(s: ButtonState, samples: Seq<bool>, v: bool)
    requires
        button_state_valid(s),
        samples.len() >= DEBOUNCE_SAMPLES,
        forall|i: int| 0 <= i < samples.len() ==> #[trigger] samples[i] == v,
    ensures
        debounce_run(s, samples).pressed == v,
{
    lemma_debounce_progress(s, samples, v);
    lemma_debounce_run_valid(s, samples);
}

/// While the debounced state has not changed since a stable start, the
/// pending count is the length of the trailing run of disagreeing samples.
proof fn lemma_debounce_pending_tail(s: ButtonState, samples: Seq<bool>)
    requires
        button_state_valid(s),
        s.counter == 0,
        debounce_run(s, samples).pressed == s.pressed,
    ensures
        debounce_run(s, samples).counter <= samples.len(),
        forall|j: int|
            samples.len() - debounce_run(s, samples).counter <= j < samples.len()
                ==> #[trigger] samples[j] != s.pressed,
    decreases samples.len(),
{
    if samples.len() > 0 {
        let prefix = samples.drop_last();
        let t = debounce_run(s, prefix);
        lemma_debounce_run_valid(s, prefix);
        assert(samples.last() == samples[samples.len() - 1]);
        if t.pressed != s.pressed {
            // changed earlier and changed back on the last sample: the
            // accepted change cleared the counter
            assert(debounce_run(s, samples).counter == 0);
        } else {
            lemma_debounce_pending_tail(s, prefix);
            assert forall|j: int|
                samples.len() - debounce_run(s, samples).counter <= j < samples.len()
                    implies #[trigger] samples[j] != s.pressed by {
                if j < samples.len() - 1 {
                    assert(samples[j] == prefix[j]);
                }
            }
        }
    }
}

/// The `DEBOUNCE_SAMPLES` samples starting at `start` all differ from
/// `level`.
pub open spec fn window_disagrees(samples: Seq<bool>, start: int, level: bool) -> bool {
    &&& 0 <= start
    &&& start + DEBOUNCE_SAMPLES <= samples.len()
    &&& forall|j: int| start <= j < start + DEBOUNCE_SAMPLES ==> #[trigger] samples[j] != level
}

/// No change of the debounced state without a full window of agreeing
/// samples: starting from a state with nothing pending, if the debounced
/// level ever differs from the start, then some `DEBOUNCE_SAMPLES`
/// consecutive samples all showed the new level.
pub proof fn lemma_debounce_change_needs_full_window(s: ButtonState, samples: Seq<bool>)
    requires
        button_state_valid(s),
        s.counter == 0,
        debounce_run(s, samples).pressed != s.pressed,
    ensures
        exists|i: int| #[trigger] window_disagrees(samples, i, s.pressed),
    decreases samples.len(),
{
    let prefix = samples.drop_last();
    let t = debounce_run(s, prefix);
    lemma_debounce_run_valid(s, prefix);
    assert(samples.last() == samples[samples.len() - 1]);
    if t.pressed != s.pressed {
        lemma_debounce_change_needs_full_window(s, prefix);
        let i: int = choose|i: int| #[trigger] window_disagrees(prefix, i, s.pressed);
        assert forall|j: int| i <= j < i + DEBOUNCE_SAMPLES implies #[trigger] samples[j]
            != s.pressed by {
            assert(samples[j] == prefix[j]);
        }
        assert(window_disagrees(samples, i, s.pressed));
    } else {
        lemma_debounce_pending_tail(s, prefix);
        let i: int = samples.len() - DEBOUNCE_SAMPLES;
        assert forall|j: int| i <= j < i + DEBOUNCE_SAMPLES implies #[trigger] samples[j]
            != s.pressed by {
            if j < samples.len() - 1 {
                assert(samples[j] == prefix[j]);
            }
        }
        assert(window_disagrees(samples, i, s.pressed));
    }
}

// ---------------------------------------------------------------------------
// Key repeat
// ---------------------------------------------------------------------------

/// Ceiling of `a / b` for a positive `b`.
pub open spec fn ceil_div(a: nat, b: nat) -> nat
    recommends
        b > 0,
{
    a / b + if a % b == 0 {
        0nat
    } else {
        1nat
    }
}

/// Abstract state of a [`Repeater`], in loop ticks.
pub struct RepeaterState {
    /// Ticks from the press to the first repeated step.
    pub delay: nat,
    /// Ticks between repeated steps.
    pub interval: nat,
    /// Ticks the button has been held since the press.
    pub held: nat,
    /// Value of `held` at which the next repeated step is due.
    pub next: nat,
}

/// One repeater tick for a button whose debounced level is `pressed` and
/// whose press edge is `just_pressed`: the new state, and whether the cursor
/// moves one step on this tick.
pub open spec fn repeater_tick(r: RepeaterState, pressed: bool, just_pressed: bool) -> (
    RepeaterState,
    bool,
) {
    if !pressed {
        (RepeaterState { held: 0, ..r }, false)
    } else if just_pressed {
        (RepeaterState { held: 0, next: r.delay, ..r }, true)
    } else if r.held + 1 >= r.next {
        (RepeaterState { held: r.held + 1, next: r.next + r.interval, ..r }, true)
    } else {
        (RepeaterState { held: r.held + 1, ..r }, false)
    }
}

/// The tick counters stay within `u32` on this tick.
pub open spec fn repeater_tick_in_range(r: RepeaterState, b: ButtonState) -> bool {
    b.pressed && !state_just_pressed(b) ==> {
        &&& r.held + 1 <= u32::MAX
        &&& r.held + 1 >= r.next ==> r.next + r.interval <= u32::MAX
    }
}

/// Turns a held button into a stream of steps, like a keyboard key: one step
/// at the press, then after a delay one step per interval while held.
pub struct Repeater {
    delay_ticks: u32,
    interval_ticks: u32,
    held_ticks: u32,
    next_tick: u32,
}

impl View for Repeater {
    type V = RepeaterState;

    closed spec fn view(&self) -> RepeaterState {
        RepeaterState {
            delay: self.delay_ticks as nat,
            interval: self.interval_ticks as nat,
            held: self.held_ticks as nat,
            next: self.next_tick as nat,
        }
    }
}

/// `a / b` rounded up, for a positive `b`.
fn div_ceil_u32(a: u32, b: u32) -> (r: u32)
    requires
        b > 0,
    ensures
        r == ceil_div(a as nat, b as nat),
{
    let q: u32 = a / b;
    if a % b == 0 {
        q
    } else {
        proof {
            lemma_fundamental_div_mod(a as int, b as int);
            assert(b >= 2);
            assert(q as int * b as int <= a as int);
            assert(q < u32::MAX) by (nonlinear_arith)
                requires
                    q as int * b as int <= a as int,
                    b >= 2,
                    a <= u32::MAX,
            ;
        }
        q + 1
    }
}

impl Repeater {
    #[verifier::type_invariant]
    spec fn interval_positive(self) -> bool {
        self.interval_ticks >= 1
    }

    /// Converts the millisecond settings into loop ticks of
    /// `loop_period_ms` each: the delay rounded up, and the interval rounded
    /// up but at least one tick.
    pub fn new(delay_ms: u32, interval_ms: u32, loop_period_ms: u32) -> (r: Repeater)
        requires
            loop_period_ms > 0,
        ensures
            r@.delay == ceil_div(delay_ms as nat, loop_period_ms as nat),
            r@.interval == if ceil_div(interval_ms as nat, loop_period_ms as nat) >= 1 {
                ceil_div(interval_ms as nat, loop_period_ms as nat)
            } else {
                1
            },
            r@.interval >= 1,
            r@.held == 0,
            r@.next == 0,
    {
        let delay_ticks: u32 = div_ceil_u32(delay_ms, loop_period_ms);
        let raw_interval: u32 = div_ceil_u32(interval_ms, loop_period_ms);
        let interval_ticks: u32 = if raw_interval >= 1 {
            raw_interval
        } else {
            1
        };
        Repeater { delay_ticks, interval_ticks, held_ticks: 0, next_tick: 0 }
    }

    /// Whether the tick counters stay within `u32` on the next [`Self::tick`]
    /// for `button` (false only after about 2^32 ticks of holding).
    pub fn tick_in_range(&self, button: &Button) -> (r: bool)
        ensures
            r == repeater_tick_in_range(self@, button@),
    {
        if button.pressed() && !button.just_pressed() {
            if self.held_ticks == u32::MAX {
                false
            } else if self.held_ticks + 1 >= self.next_tick {
                self.next_tick <= u32::MAX - self.interval_ticks
            } else {
                true
            }
        } else {
            true
        }
    }

    /// Advances one loop tick; `true` when one step should be emitted now.
    pub fn tick(&mut self, button: &Button) -> (step: bool)
        requires
            repeater_tick_in_range(old(self)@, button@),
        ensures
            (final(self)@, step) == repeater_tick(old(self)@, button@.pressed, state_just_pressed(button@)),
            final(self)@.interval >= 1,
    {
        proof {
            use_type_invariant(&*self);
        }
        if !button.pressed() {
            self.held_ticks = 0;
            return false;
        }
        if button.just_pressed() {
            // one step right at the press, so a short tap moves exactly once
            self.held_ticks = 0;
            self.next_tick = self.delay_ticks;
            return true;
        }
        self.held_ticks = self.held_ticks + 1;
        if self.held_ticks >= self.next_tick {
            self.next_tick = self.next_tick + self.interval_ticks;
            return true;
        }
        false
    }
}

/// The state after `n` ticks with the button held (no new press edge).
pub open spec fn hold_run(r: RepeaterState, n: nat) -> RepeaterState
    decreases n,
{
    if n == 0 {
        r
    } else {
        repeater_tick(hold_run(r, (n - 1) as nat), true, false).0
    }
}

/// Whether the `n`-th tick (counting from 1) with the button held emits a
/// step.
pub open spec fn fires_while_held(r: RepeaterState, n: nat) -> bool
    recommends
        n >= 1,
{
    repeater_tick(hold_run(r, (n - 1) as nat), true, false).1
}

/// After a press edge, `next` is always the first element of the schedule
/// `delay, delay + interval, delay + 2 * interval, ...` beyond `held`.
proof fn lemma_hold_run_schedule(r: RepeaterState, n: nat)
    requires
        r.held == 0,
        r.next == r.delay,
        r.delay >= 1,
        r.interval >= 1,
    ensures
        hold_run(r, n).held == n,
        hold_run(r, n).delay == r.delay,
        hold_run(r, n).interval == r.interval,
        hold_run(r, n).next >= n + 1,
        hold_run(r, n).next >= r.delay,
        (hold_run(r, n).next - r.delay) % (r.interval as int) == 0,
        hold_run(r, n).next > r.delay ==> hold_run(r, n).next - r.interval <= n,
    decreases n,
{
    if n == 0 {
        lemma_fundamental_div_mod_converse(0, r.interval as int, 0, 0);
    } else {
        let m: nat = (n - 1) as nat;
        lemma_hold_run_schedule(r, m);
        let t = hold_run(r, m);
        if t.held + 1 >= t.next {
            lemma_mod_add_multiples_vanish(t.next - r.delay, r.interval as int);
        }
    }
}

/// Auto-repeat schedule: after the press edge (which itself emits a step),
/// holding the button emits a step on the `n`-th held tick exactly when
/// `n` is `delay`, `delay + interval`, `delay + 2 * interval`, and so on.
pub proof fn lemma_repeat_schedule(r0: RepeaterState, n: nat)
    requires
        r0.delay >= 1,
        r0.interval >= 1,
        n >= 1,
    ensures
        repeater_tick(r0, true, true).1,
        fires_while_held(repeater_tick(r0, true, true).0, n) <==> (n >= r0.delay && (n
            - r0.delay) % (r0.interval as int) == 0),
{
    let r = repeater_tick(r0, true, true).0;
    let m: nat = (n - 1) as nat;
    lemma_hold_run_schedule(r, m);
    let t = hold_run(r, m);
    let d: int = r.delay as int;
    let iv: int = r.interval as int;
    if fires_while_held(r, n) {
        assert(t.next == n);
    } else {
        assert(n < t.next);
        if n >= d && (n - d) % iv == 0 {
            // n lies strictly between two consecutive schedule points
            assert(t.next > d);
            let k: int = (t.next - d) / iv;
            let q: int = (n - d) / iv;
            lemma_fundamental_div_mod(t.next - d, iv);
            lemma_fundamental_div_mod(n - d, iv);
            assert(false) by (nonlinear_arith)
                requires
                    t.next - d == iv * k,
                    n - d == iv * q,
                    t.next - iv <= n - 1,
                    n < t.next,
                    iv >= 1,
            ;
        }
    }
}

/// `ceil_div` is the ceiling: the smallest count of `b`-sized periods that
/// covers `a`.
pub proof fn lemma_ceil_div_is_ceiling(a: nat, b: nat)
    requires
        b > 0,
    ensures
        ceil_div(a, b) * b >= a,
        ceil_div(a, b) == 0 || (ceil_div(a, b) - 1) * b < a,
{
    let q: int = a as int / b as int;
    let r: int = a as int % b as int;
    lemma_fundamental_div_mod(a as int, b as int);
    let c: int = ceil_div(a, b) as int;
    if r == 0 {
        assert(c == q);
        assert(c * b >= a && (c == 0 || (c - 1) * b < a)) by (nonlinear_arith)
            requires
                a == b * q + r,
                r == 0,
                c == q,
                b > 0,
        ;
    } else {
        assert(c == q + 1);
        assert(c * b >= a && (c - 1) * b < a) by (nonlinear_arith)
            requires
                a == b * q + r,
                0 < r < b,
                c == q + 1,
                b > 0,
        ;
    }
}

/// A tick on which the debounced button reads released never emits a step,
/// whatever the state; it clears the held time and changes nothing else.
/// A press edge always emits a step and restarts the schedule at `delay`.
/// A held tick counts one more tick held and keeps the settings.
pub proof fn lemma_tick_release_and_press(r: RepeaterState, just_pressed: bool)
    ensures
        repeater_tick(r, false, just_pressed).1 == false,
        repeater_tick(r, false, just_pressed).0 == (RepeaterState {
            delay: r.delay,
            interval: r.interval,
            held: 0,
            next: r.next,
        }),
        repeater_tick(r, true, true).1 == true,
        repeater_tick(r, true, true).0 == (RepeaterState {
            delay: r.delay,
            interval: r.interval,
            held: 0,
            next: r.delay,
        }),
        repeater_tick(r, true, false).0.held == r.held + 1,
        repeater_tick(r, true, false).0.delay == r.delay,
        repeater_tick(r, true, false).0.interval == r.interval,
        repeater_tick(r, true, false).1 ==> repeater_tick(r, true, false).0.next == r.next
            + r.interval,
        !repeater_tick(r, true, false).1 ==> repeater_tick(r, true, false).0.next == r.next,
{
}

} // verus!
