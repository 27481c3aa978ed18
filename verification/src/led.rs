//! The LED controller of the firmware: which colour the BusyLight shows, and how it reacts
//! to the events that the button and the USB host send it.

use vstd::prelude::*;
use crate::button::ButtonEvent;
use crate::neopixel::{buffer_size, encoded_frame, fill_with_color};

verus! {

/// Events that change what the LEDs show.
#[derive(Debug, Clone, Copy, PartialEq, Eq, Structural)]
pub enum LedEvent {
    Red,
    Yellow,
    Green,
    Off,
    On,
    ShortPress,
    LongPress,
}

/// Number of LEDs on the board.
pub const NUM_LEDS: usize = 5;

/// The colours the controller cycles through, as (red, green, blue): green, yellow, red.
pub open spec fn spec_colors() -> Seq<(u8, u8, u8)> {
    seq![(0u8, 255u8, 0u8), (255u8, 100u8, 0u8), (255u8, 0u8, 0u8)]
}

/// The colour of switched-off LEDs.
pub open spec fn spec_off_color() -> (u8, u8, u8) {
    (0u8, 0u8, 0u8)
}

/// Index of green in [`spec_colors`].
pub const GREEN_ID: usize = 0;
/// Index of yellow in [`spec_colors`].
pub const YELLOW_ID: usize = 1;
/// Index of red in [`spec_colors`].
pub const RED_ID: usize = 2;

/// What the controller holds: whether the LEDs are on, and which colour is selected.
pub struct LedModel {
    pub enabled: bool,
    pub color_id: nat,
}

impl LedModel {
    /// The controller state at start-up: on, green.
    pub open spec fn initial() -> LedModel {
        LedModel { enabled: true, color_id: 0 }
    }

    /// The selected colour is one of the three colours.
    pub open spec fn valid(self) -> bool {
        self.color_id < 3
    }

    /// The state after `event`.
    pub open spec fn handle(self, event: LedEvent) -> LedModel {
        match event {
            LedEvent::Red => LedModel { enabled: true, color_id: 2 },
            LedEvent::Yellow => LedModel { enabled: true, color_id: 1 },
            LedEvent::Green => LedModel { enabled: true, color_id: 0 },
            LedEvent::Off => LedModel { enabled: false, ..self },
            LedEvent::On => LedModel { enabled: true, ..self },
            LedEvent::ShortPress => if self.enabled {
                LedModel { color_id: ((self.color_id + 1) % 3) as nat, ..self }
            } else {
                self
            },
            LedEvent::LongPress => LedModel { enabled: !self.enabled, ..self },
        }
    }

    /// The colour the LEDs show when the controller cycles through `colors`.
    pub open spec fn shown_color_in(self, colors: Seq<(u8, u8, u8)>) -> (u8, u8, u8) {
        if self.enabled && self.color_id < colors.len() {
            colors[self.color_id as int]
        } else {
            spec_off_color()
        }
    }

    /// The colour the LEDs show.
    pub open spec fn shown_color(self) -> (u8, u8, u8) {
        if self.enabled && self.color_id < 3 {
            spec_colors()[self.color_id as int]
        } else {
            spec_off_color()
        }
    }
}

/// The state of the LED controller. It runs in a loop: show [`LedController::color`],
/// wait for the next [`LedEvent`], hand it to [`LedController::handle_event`].
pub struct LedController {
    enabled: bool,
    color_id: usize,
}

impl LedController {
    #[verifier::type_invariant]
    spec fn inv(self) -> bool {
        self.color_id < 3
    }

    pub closed spec fn model(self) -> LedModel {
        LedModel { enabled: self.enabled, color_id: self.color_id as nat }
    }
}

impl View for LedController {
    type V = LedModel;

    open spec fn view(&self) -> LedModel {
        self.model()
    }
}

impl LedController {
    /// A controller in the start-up state: on, green.
    pub fn new() -> (r: Self)
        ensures
            r@ == LedModel::initial(),
            r@.valid(),
    {
        LedController { enabled: true, color_id: 0 }
    }

    /// A controller that starts switched off, with green selected.
    pub fn new_off() -> (r: Self)
        ensures
            r@ == (LedModel { enabled: false, color_id: 0 }),
            r@.valid(),
    {
        LedController { enabled: false, color_id: 0 }
    }

    /// Whether the LEDs are switched on.
    pub fn enabled(&self) -> (r: bool)
        ensures
            r == self@.enabled,
    {
        self.enabled
    }

    /// The colour the LEDs show now.
    pub fn color(&self) -> (r: (u8, u8, u8))
        ensures
            r == self@.shown_color(),
    {
        let colors: [(u8, u8, u8); 3] = [(0, 255, 0), (255, 100, 0), (255, 0, 0)];
        assert(colors@ == spec_colors());
        if self.enabled && self.color_id < 3 {
            colors[self.color_id]
        } else {
            (0, 0, 0)
        }
    }

    /// Applies one event.
    pub fn handle_event(&mut self, event: LedEvent)
        ensures
            final(self)@ == old(self)@.handle(event),
            final(self)@.valid(),
    {
        proof {
            use_type_invariant(&*self);
        }
        match event {
            LedEvent::Red => {
                self.enabled = true;
                self.color_id = RED_ID;
            },
            LedEvent::Yellow => {
                self.enabled = true;
                self.color_id = YELLOW_ID;
            },
            LedEvent::Green => {
                self.enabled = true;
                self.color_id = GREEN_ID;
            },
            LedEvent::Off => {
                self.enabled = false;
            },
            LedEvent::On => {
                self.enabled = true;
            },
            LedEvent::ShortPress => {
                if self.enabled {
                    self.color_id = (self.color_id + 1) % 3;
                }
            },
            LedEvent::LongPress => {
                self.enabled = !self.enabled;
            },
        }
    }

    /// The colour the LEDs show now when the controller cycles through `colors` in place of
    /// the board's colours.
    pub fn color_in(&self, colors: &[(u8, u8, u8); 3]) -> (r: (u8, u8, u8))
        ensures
            r == self@.shown_color_in(colors@),
    {
        if self.enabled && self.color_id < 3 {
            colors[self.color_id]
        } else {
            (0, 0, 0)
        }
    }

    /// The bytes to write to the SPI bus to show the current colour on all LEDs.
    pub fn frame(&self) -> (r: Vec<u8>)
        ensures
            r@ == encoded_frame(NUM_LEDS as nat, self@.shown_color()),
    {
        led_frame(self.color())
    }
}

/// The bytes to write to the SPI bus to show `color` on `num_leds` LEDs.
fn frame_for(num_leds: usize, color: (u8, u8, u8)) -> (r: Vec<u8>)
    requires
        num_leds <= NUM_LEDS,
    ensures
        r@ == encoded_frame(num_leds as nat, color),
{
    let size = buffer_size(num_leds);
    let mut data: Vec<u8> = vec![0u8; size];
    let frame = fill_with_color(data.as_mut_slice(), color);
    let mut out: Vec<u8> = Vec::new();
    let mut i: usize = 0;
    while i < frame.len()
        invariant
            i <= frame@.len(),
            out@ == frame@.subrange(0, i as int),
        decreases frame@.len() - i,
    {
        out.push(frame[i]);
        i += 1;
        assert(out@ =~= frame@.subrange(0, i as int));
    }
    out
}

/// The bytes to write to the SPI bus to show `color` on the [`NUM_LEDS`] LEDs of the board.
pub fn led_frame(color: (u8, u8, u8)) -> (r: Vec<u8>)
    ensures
        r@ == encoded_frame(NUM_LEDS as nat, color),
{
    frame_for(NUM_LEDS, color)
}

/// The bytes to write to the SPI bus of a board with a single LED to show `color`.
pub fn single_led_frame(color: (u8, u8, u8)) -> (r: Vec<u8>)
    ensures
        r@ == encoded_frame(1, color),
{
    frame_for(1, color)
}

/// The colours of the single-LED board, as (red, green, blue): green, a warmer yellow, red.
pub fn single_led_colors() -> (r: [(u8, u8, u8); 3])
    ensures
        r@ == seq![(0u8, 255u8, 0u8), (255u8, 150u8, 0u8), (255u8, 0u8, 0u8)],
{
    [(0, 255, 0), (255, 150, 0), (255, 0, 0)]
}

/// The LED event that a button event stands for.
pub fn led_event_for_button(event: ButtonEvent) -> (r: LedEvent)
    ensures
        r == (match event {
            ButtonEvent::ShortPress { .. } => LedEvent::ShortPress,
            ButtonEvent::LongPress => LedEvent::LongPress,
        }),
{
    match event {
        ButtonEvent::ShortPress { count: _ } => LedEvent::ShortPress,
        ButtonEvent::LongPress => LedEvent::LongPress,
    }
}


/// Every event keeps the selected colour one of the three colours.
pub proof fn lemma_handle_keeps_valid(m: LedModel, event: LedEvent)
    requires
        m.valid(),
    ensures
        m.handle(event).valid(),
{
}

/// A short press while on moves to the next colour: green, yellow, red, then green again;
/// three short presses come back to the colour they started from.
pub proof fn lemma_short_press_cycles(m: LedModel)
    requires
        m.valid(),
        m.enabled,
    ensures
        m.handle(LedEvent::ShortPress) == (LedModel {
            enabled: true,
            color_id: ((m.color_id + 1) % 3) as nat,
        }),
        m.handle(LedEvent::ShortPress).handle(LedEvent::ShortPress).handle(LedEvent::ShortPress)
            == m,
{
}

/// While off, the LEDs show no colour, and a short press changes nothing.
pub proof fn lemma_off_ignores_short_press(m: LedModel)
    requires
        !m.enabled,
    ensures
        m.shown_color() == spec_off_color(),
        m.handle(LedEvent::ShortPress) == m,
{
}

/// A long press switches the LEDs on or off; two long presses change nothing.
pub proof fn lemma_long_press_toggles(m: LedModel)
    ensures
        m.handle(LedEvent::LongPress).enabled == !m.enabled,
        m.handle(LedEvent::LongPress).handle(LedEvent::LongPress) == m,
{
}

/// A long press only switches the LEDs on or off: the selected colour stays, so switching
/// a lit controller off with a long press and on again shows the colour it showed before.
pub proof fn lemma_long_press_keeps_color(m: LedModel)
    ensures
        m.handle(LedEvent::LongPress).color_id == m.color_id,
        m.handle(LedEvent::LongPress).enabled != m.enabled,
        m.enabled ==> m.handle(LedEvent::LongPress).shown_color() == spec_off_color(),
        m.enabled ==> m.handle(LedEvent::LongPress).handle(LedEvent::On).shown_color()
            == m.shown_color(),
        m.enabled ==> m.handle(LedEvent::LongPress).handle(LedEvent::LongPress).shown_color()
            == m.shown_color(),
{
}

/// A lit controller shows the entry of the colour table at the selected index, and an
/// unlit one shows no colour; from green, short presses show the table's entries one after
/// the other, the last one included.
pub proof fn lemma_shown_color_is_table_entry(m: LedModel, colors: Seq<(u8, u8, u8)>)
    ensures
        m.enabled && m.color_id < colors.len() ==> m.shown_color_in(colors)
            == colors[m.color_id as int],
        !m.enabled ==> m.shown_color_in(colors) == spec_off_color(),
        m.enabled && m.color_id < 3 ==> m.shown_color() == spec_colors()[m.color_id as int],
        colors.len() == 3 ==> {
            let green = LedModel { enabled: true, color_id: 0 };
            let next = green.handle(LedEvent::ShortPress);
            let last = next.handle(LedEvent::ShortPress);
            &&& green.shown_color_in(colors) == colors[0]
            &&& next.shown_color_in(colors) == colors[1]
            &&& last.shown_color_in(colors) == colors[2]
            &&& last.handle(LedEvent::ShortPress).shown_color_in(colors) == colors[0]
        },
{
}

/// Switching off and on again keeps the selected colour.
pub proof fn lemma_off_on_keeps_color(m: LedModel)
    requires
        m.valid(),
    ensures
        m.handle(LedEvent::Off).handle(LedEvent::On) == (LedModel { enabled: true, ..m }),
        m.handle(LedEvent::Off).handle(LedEvent::On).shown_color() == spec_colors()[m.color_id as int],
{
}

/// The colour events switch the LEDs on and show their colour, whatever the state before.
pub proof fn lemma_color_events(m: LedModel)
    ensures
        m.handle(LedEvent::Green).shown_color() == (0u8, 255u8, 0u8),
        m.handle(LedEvent::Yellow).shown_color() == (255u8, 100u8, 0u8),
        m.handle(LedEvent::Red).shown_color() == (255u8, 0u8, 0u8),
        m.handle(LedEvent::Off).shown_color() == spec_off_color(),
{
}

} // verus!
