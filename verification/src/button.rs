//! The decision logic of a debounced push button that reports short-press sequences and
//! long presses.
//!
//! The button is a state machine. In each state it asks its driver for one piece of outside
//! work (read the pin now, or wait for the pin to reach a level, possibly with a timeout, then
//! wait out the debounce time and read the pin) and then takes the outcome of that work as
//! its next input. The driver repeats this until a [`ButtonEvent`] comes out.

use vstd::prelude::*;

verus! {

/// Button direction.
#[derive(Debug, Clone, Copy, PartialEq, Eq, Structural)]
pub enum Mode {
    /// Button is connected to a pin with a pull-up resistor. Button pressed is logic 0.
    PullUp,
    /// Button is connected to a pin with a pull-down resistor. Button pressed is logic 1.
    PullDown,
}

impl Default for Mode {
    fn default() -> (r: Self)
        ensures
            r == Mode::PullUp,
    {
        Mode::PullUp
    }
}

impl Mode {
    /// Is button connected to a pin with a pull-up resistor?
    pub fn is_pullup(&self) -> (r: bool)
        ensures
            r == (*self == Mode::PullUp),
    {
        match self {
            Mode::PullUp => true,
            Mode::PullDown => false,
        }
    }

    /// Is button connected to a pin with a pull-down resistor?
    pub fn is_pulldown(&self) -> (r: bool)
        ensures
            r == (*self == Mode::PullDown),
            r == !(*self == Mode::PullUp),
    {
        !self.is_pullup()
    }

    /// The pin level (`true` for high) that the pin takes while the button is pressed.
    pub open spec fn spec_pressed_level(self) -> bool {
        self == Mode::PullDown
    }

    /// The pin level (`true` for high) that the driver waits for to see a press.
    pub fn pressed_level(&self) -> (r: bool)
        ensures
            r == self.spec_pressed_level(),
    {
        match self {
            Mode::PullUp => false,
            Mode::PullDown => true,
        }
    }

    /// The pin level (`true` for high) that the driver waits for to see a release.
    pub fn released_level(&self) -> (r: bool)
        ensures
            r == !self.spec_pressed_level(),
    {
        match self {
            Mode::PullUp => true,
            Mode::PullDown => false,
        }
    }

    /// Whether a pin reading means "pressed". `is_low` is the outcome of asking the pin
    /// whether it is low, `None` when the pin could not be read.
    pub open spec fn spec_is_pin_pressed(self, is_low: Option<bool>) -> bool {
        match is_low {
            Some(low) => low == (self == Mode::PullUp),
            None => false,
        }
    }

    /// Decides from a pin reading whether the button is pressed. A reading that failed
    /// counts as "released" in either mode.
    pub fn is_pin_pressed(&self, is_low: Option<bool>) -> (r: bool)
        ensures
            r == self.spec_is_pin_pressed(is_low),
    {
        let low = match is_low {
            Some(low) => low,
            None => self.is_pulldown(),
        };
        low == self.is_pullup()
    }
}

/// Button configuration. Times are in milliseconds.
#[derive(Debug, Clone, Copy, PartialEq, Eq, Structural)]
pub struct ButtonConfig {
    /// Time the button should be down in order to count it as a press.
    pub debounce: u32,
    /// Time between consecutive presses to count as a press in the same sequence instead of a new
    /// sequence.
    pub double_click: u32,
    /// Time the button is held before a long press is detected.
    pub long_press: u32,
    /// Button direction.
    pub mode: Mode,
}

impl ButtonConfig {
    /// Returns a new [ButtonConfig].
    pub fn new(debounce: u32, double_click: u32, long_press: u32, mode: Mode) -> (r: Self)
        ensures
            r == (ButtonConfig { debounce, double_click, long_press, mode }),
    {
        ButtonConfig { debounce, double_click, long_press, mode }
    }
}

impl Default for ButtonConfig {
    fn default() -> (r: Self)
        ensures
            r == (ButtonConfig {
                debounce: 10,
                double_click: 350,
                long_press: 1000,
                mode: Mode::PullUp,
            }),
    {
        ButtonConfig { debounce: 10, double_click: 350, long_press: 1000, mode: Mode::default() }
    }
}

/// State of the button.
#[derive(Debug, Clone, Copy, PartialEq, Eq, Structural)]
pub enum State {
    /// Initial state.
    Unknown,
    /// Debounced press.
    Pressed,
    /// The button was just released, waiting for more presses in the same sequence, or for the
    /// sequence to end.
    Released,
    /// Fully released state, idle.
    Idle,
    /// Waiting for the button to be released.
    PendingRelease,
}

/// Detected button events
#[derive(Debug, Clone, Copy, PartialEq, Eq, Structural)]
pub enum ButtonEvent {
    /// A sequence of 1 or more short presses.
    ShortPress {
        /// The number of short presses in the sequence.
        count: usize,
    },
    /// A long press. This event is returned directly when the button is held for more than
    /// [`ButtonConfig::long_press`].
    LongPress,
}

/// The outside work the driver performs before the next step.
#[derive(Debug, Clone, Copy, PartialEq, Eq, Structural)]
pub enum Wait {
    /// Read the pin right away.
    ReadPin,
    /// Wait until the pin is at `level` (`true` for high). With a `timeout` (milliseconds),
    /// give up when it runs out. When the level was reached, wait `debounce` milliseconds
    /// and read the pin.
    Level { level: bool, timeout: Option<u32>, debounce: u32 },
}

/// What the outside work of a [`Wait`] came to.
#[derive(Debug, Clone, Copy, PartialEq, Eq, Structural)]
pub enum WaitOutcome {
    /// The timeout of a [`Wait::Level`] ran out before the pin reached the level.
    TimedOut,
    /// The pin was read; `is_low` is the reading, `None` when reading failed.
    PinRead { is_low: Option<bool> },
}

/// A button that detects [`ButtonEvent`]s, without its pin: see the module documentation.
#[derive(Debug, Clone, Copy, PartialEq, Eq, Structural)]
pub struct Button {
    pub state: State,
    pub count: usize,
    pub config: ButtonConfig,
}

/// The wait that the button asks for in its current state.
pub open spec fn spec_next_wait(b: Button) -> Wait {
    match b.state {
        State::Unknown => Wait::ReadPin,
        State::Pressed => Wait::Level {
            level: !b.config.mode.spec_pressed_level(),
            timeout: Some(b.config.long_press),
            debounce: b.config.debounce,
        },
        State::Released => Wait::Level {
            level: b.config.mode.spec_pressed_level(),
            timeout: Some(b.config.double_click),
            debounce: b.config.debounce,
        },
        State::Idle => Wait::Level {
            level: b.config.mode.spec_pressed_level(),
            timeout: None,
            debounce: b.config.debounce,
        },
        State::PendingRelease => Wait::Level {
            level: !b.config.mode.spec_pressed_level(),
            timeout: None,
            debounce: b.config.debounce,
        },
    }
}

/// Whether `outcome` is an outcome that the wait of `b` can have.
pub open spec fn outcome_fits(b: Button, outcome: WaitOutcome) -> bool {
    match outcome {
        WaitOutcome::TimedOut => spec_next_wait(b) matches Wait::Level { timeout: Some(_), .. },
        WaitOutcome::PinRead { .. } => true,
    }
}

/// Whether a step from `b` with `outcome` is free of counter overflow.
pub open spec fn step_in_range(b: Button, outcome: WaitOutcome) -> bool {
    (b.state == State::Released && outcome is PinRead) ==> b.count < usize::MAX
}

/// One step of the button: the button after the step and the event it reports, if any.
pub open spec fn spec_step(b: Button, outcome: WaitOutcome) -> (Button, Option<ButtonEvent>) {
    let pressed = match outcome {
        WaitOutcome::PinRead { is_low } => b.config.mode.spec_is_pin_pressed(is_low),
        WaitOutcome::TimedOut => false,
    };
    match b.state {
        State::Unknown => if pressed {
            (Button { state: State::Pressed, count: 1, ..b }, None)
        } else {
            (Button { state: State::Idle, ..b }, None)
        },
        State::Pressed => match outcome {
            WaitOutcome::TimedOut => (
                Button { state: State::PendingRelease, count: 0, ..b },
                Some(ButtonEvent::LongPress),
            ),
            WaitOutcome::PinRead { .. } => if !pressed {
                (Button { state: State::Released, ..b }, None)
            } else {
                (b, None)
            },
        },
        State::Released => match outcome {
            WaitOutcome::TimedOut => (
                Button { state: State::Idle, count: 0, ..b },
                Some(ButtonEvent::ShortPress { count: b.count }),
            ),
            WaitOutcome::PinRead { .. } => if pressed {
                (Button { state: State::Pressed, count: (b.count + 1) as usize, ..b }, None)
            } else {
                (b, None)
            },
        },
        State::Idle => if pressed {
            (Button { state: State::Pressed, count: 1, ..b }, None)
        } else {
            (b, None)
        },
        State::PendingRelease => if !pressed {
            (Button { state: State::Idle, ..b }, None)
        } else {
            (b, None)
        },
    }
}

impl Button {
    /// Creates a new button with the provided config.
    pub fn new(config: ButtonConfig) -> (r: Self)
        ensures
            r == (Button { state: State::Unknown, count: 0, config }),
    {
        Button { state: State::Unknown, count: 0, config }
    }

    /// The outside work the driver has to perform before calling [`Button::update_step`].
    pub fn next_wait(&self) -> (r: Wait)
        ensures
            r == spec_next_wait(*self),
    {
        let mode = self.config.mode;
        match self.state {
            State::Unknown => Wait::ReadPin,
            State::Pressed => Wait::Level {
                level: mode.released_level(),
                timeout: Some(self.config.long_press),
                debounce: self.config.debounce,
            },
            State::Released => Wait::Level {
                level: mode.pressed_level(),
                timeout: Some(self.config.double_click),
                debounce: self.config.debounce,
            },
            State::Idle => Wait::Level {
                level: mode.pressed_level(),
                timeout: None,
                debounce: self.config.debounce,
            },
            State::PendingRelease => Wait::Level {
                level: mode.released_level(),
                timeout: None,
                debounce: self.config.debounce,
            },
        }
    }

    /// Takes the outcome of the wait that [`Button::next_wait`] asked for, moves to the next
    /// state and returns the detected event, if any.
    pub fn update_step(&mut self, outcome: WaitOutcome) -> (r: Option<ButtonEvent>)
        requires
            outcome_fits(*old(self), outcome),
            step_in_range(*old(self), outcome),
        ensures
            (*final(self), r) == spec_step(*old(self), outcome),
    {
        let pressed = match outcome {
            WaitOutcome::PinRead { is_low } => self.config.mode.is_pin_pressed(is_low),
            WaitOutcome::TimedOut => false,
        };
        match self.state {
            State::Unknown => {
                if pressed {
                    // A press that is already going on at start-up is the first press of
                    // a sequence.
                    self.count = 1;
                    self.state = State::Pressed;
                } else {
                    self.state = State::Idle;
                }
                None
            },
            State::Pressed => {
                match outcome {
                    WaitOutcome::PinRead { .. } => {
                        // Short press
                        if !pressed {
                            self.state = State::Released;
                        }
                        None
                    },
                    WaitOutcome::TimedOut => {
                        // Long press detected
                        self.count = 0;
                        self.state = State::PendingRelease;
                        Some(ButtonEvent::LongPress)
                    },
                }
            },
            State::Released => {
                match outcome {
                    WaitOutcome::PinRead { .. } => {
                        // Continue sequence
                        if pressed {
                            self.count = self.count + 1;
                            self.state = State::Pressed;
                        }
                        None
                    },
                    WaitOutcome::TimedOut => {
                        // Sequence ended
                        let count = self.count;
                        self.count = 0;
                        self.state = State::Idle;
                        Some(ButtonEvent::ShortPress { count })
                    },
                }
            },
            State::Idle => {
                if pressed {
                    self.count = 1;
                    self.state = State::Pressed;
                }
                None
            },
            State::PendingRelease => {
                if !pressed {
                    self.state = State::Idle;
                }
                None
            },
        }
    }
}


/// The event of one step as a sequence of zero or one events.
pub open spec fn event_seq(event: Option<ButtonEvent>) -> Seq<ButtonEvent> {
    match event {
        Some(e) => seq![e],
        None => Seq::empty(),
    }
}

/// The button after the outcomes `outcomes`, one step each, and the events it reported on
/// the way.
pub open spec fn spec_run(b: Button, outcomes: Seq<WaitOutcome>) -> (Button, Seq<ButtonEvent>)
    decreases outcomes.len(),
{
    if outcomes.len() == 0 {
        (b, Seq::empty())
    } else {
        let (next, event) = spec_step(b, outcomes[0]);
        let (last, events) = spec_run(next, outcomes.drop_first());
        (last, event_seq(event) + events)
    }
}

/// A pin reading that means "pressed" in `mode`.
pub open spec fn press_reading(mode: Mode) -> WaitOutcome {
    WaitOutcome::PinRead { is_low: Some(mode == Mode::PullUp) }
}

/// A pin reading that means "released" in `mode`.
pub open spec fn release_reading(mode: Mode) -> WaitOutcome {
    WaitOutcome::PinRead { is_low: Some(mode != Mode::PullUp) }
}

/// The outcomes of `k` short clicks: each a debounced press, then a debounced release
/// before the long-press time runs out.
pub open spec fn clicks(mode: Mode, k: nat) -> Seq<WaitOutcome>
    decreases k,
{
    if k == 0 {
        Seq::empty()
    } else {
        seq![press_reading(mode), release_reading(mode)] + clicks(mode, (k - 1) as nat)
    }
}

/// Every event ends the sequence it belongs to: the press count is back to zero, a long
/// press waits for the release, and a short-press sequence returns to idle with the count
/// of presses it had.
pub proof fn lemma_event_ends_sequence(b: Button, outcome: WaitOutcome)
    ensures
        ({
            let (next, event) = spec_step(b, outcome);
            &&& event matches Some(_) ==> next.count == 0
            &&& event == Some(ButtonEvent::LongPress) ==> next.state == State::PendingRelease
            &&& event matches Some(ButtonEvent::ShortPress { count }) ==> next.state == State::Idle
                && count == b.count
            &&& next.config == b.config
        }),
{
}

proof fn lemma_run_two(b: Button, o1: WaitOutcome, o2: WaitOutcome, rest: Seq<WaitOutcome>)
    requires
        spec_step(b, o1).1 is None,
        spec_step(spec_step(b, o1).0, o2).1 is None,
    ensures
        spec_run(b, seq![o1, o2] + rest) == spec_run(spec_step(spec_step(b, o1).0, o2).0, rest),
{
    let n1 = spec_step(b, o1).0;
    let n2 = spec_step(n1, o2).0;
    let s = seq![o1, o2] + rest;
    let t = seq![o2] + rest;
    assert(s[0] == o1);
    assert(s.drop_first() =~= t);
    assert(t[0] == o2);
    assert(t.drop_first() =~= rest);
    assert(spec_run(n1, t) == spec_run(n2, rest));
    assert(spec_run(b, s) == spec_run(n1, t));
}

proof fn lemma_released_clicks(b: Button, j: nat)
    requires
        b.state == State::Released,
        b.count + j < usize::MAX,
    ensures
        spec_run(b, clicks(b.config.mode, j) + seq![WaitOutcome::TimedOut]) == (
            Button { state: State::Idle, count: 0, config: b.config },
            seq![ButtonEvent::ShortPress { count: (b.count + j) as usize }],
        ),
    decreases j,
{
    let mode = b.config.mode;
    if j == 0 {
        let s = clicks(mode, 0) + seq![WaitOutcome::TimedOut];
        assert(s =~= seq![WaitOutcome::TimedOut]);
        assert(s.drop_first() =~= Seq::<WaitOutcome>::empty());
        assert(s[0] == WaitOutcome::TimedOut);
        let idle = Button { state: State::Idle, count: 0, config: b.config };
        assert(spec_step(b, s[0]) == (idle, Some(ButtonEvent::ShortPress { count: b.count })));
        assert(spec_run(idle, s.drop_first()) == (idle, Seq::<ButtonEvent>::empty()));
        assert(seq![ButtonEvent::ShortPress { count: b.count }] + Seq::<ButtonEvent>::empty()
            =~= seq![ButtonEvent::ShortPress { count: b.count }]);
    } else {
        let rest = clicks(mode, (j - 1) as nat) + seq![WaitOutcome::TimedOut];
        assert(clicks(mode, j) + seq![WaitOutcome::TimedOut] =~= seq![
            press_reading(mode),
            release_reading(mode),
        ] + rest);
        let pressed = Button { state: State::Pressed, count: (b.count + 1) as usize, ..b };
        let released = Button { state: State::Released, ..pressed };
        assert(spec_step(b, press_reading(mode)) == (pressed, None::<ButtonEvent>));
        assert(spec_step(pressed, release_reading(mode)) == (released, None::<ButtonEvent>));
        lemma_run_two(b, press_reading(mode), release_reading(mode), rest);
        lemma_released_clicks(released, (j - 1) as nat);
    }
}

/// A sequence of `k` short clicks, each next click coming before the double-click time
/// runs out, is reported as one short press with count `k` once the double-click time
/// runs out after the last release; the button is idle again afterwards.
pub proof fn lemma_click_sequence(b: Button, k: nat)
    requires
        b.state == State::Idle,
        1 <= k < usize::MAX,
    ensures
        spec_run(b, clicks(b.config.mode, k) + seq![WaitOutcome::TimedOut]) == (
            Button { state: State::Idle, count: 0, config: b.config },
            seq![ButtonEvent::ShortPress { count: k as usize }],
        ),
{
    let mode = b.config.mode;
    let rest = clicks(mode, (k - 1) as nat) + seq![WaitOutcome::TimedOut];
    assert(clicks(mode, k) + seq![WaitOutcome::TimedOut] =~= seq![
        press_reading(mode),
        release_reading(mode),
    ] + rest);
    let pressed = Button { state: State::Pressed, count: 1, ..b };
    let released = Button { state: State::Released, ..pressed };
    assert(spec_step(b, press_reading(mode)) == (pressed, None::<ButtonEvent>));
    assert(spec_step(pressed, release_reading(mode)) == (released, None::<ButtonEvent>));
    lemma_run_two(b, press_reading(mode), release_reading(mode), rest);
    lemma_released_clicks(released, (k - 1) as nat);
}

/// Holding the button down past the long-press time reports one long press and nothing
/// else: the release that follows brings the button back to idle without a short press.
pub proof fn lemma_long_press(b: Button)
    requires
        b.state == State::Idle,
    ensures
        spec_run(
            b,
            seq![
                press_reading(b.config.mode),
                WaitOutcome::TimedOut,
                release_reading(b.config.mode),
            ],
        ) == (Button { state: State::Idle, count: 0, config: b.config }, seq![
            ButtonEvent::LongPress,
        ]),
{
    let mode = b.config.mode;
    let s = seq![press_reading(mode), WaitOutcome::TimedOut, release_reading(mode)];
    let s1 = s.drop_first();
    let s2 = s1.drop_first();
    let s3 = s2.drop_first();
    assert(s1 =~= seq![WaitOutcome::TimedOut, release_reading(mode)]);
    assert(s2 =~= seq![release_reading(mode)]);
    assert(s3 =~= Seq::<WaitOutcome>::empty());
    let pressed = Button { state: State::Pressed, count: 1, ..b };
    let pending = Button { state: State::PendingRelease, count: 0, ..b };
    let idle = Button { state: State::Idle, count: 0, ..b };
    assert(spec_step(b, s[0]) == (pressed, None::<ButtonEvent>));
    assert(spec_step(pressed, s1[0]) == (pending, Some(ButtonEvent::LongPress)));
    assert(spec_step(pending, s2[0]) == (idle, None::<ButtonEvent>));
    assert(spec_run(idle, s3) == (idle, Seq::<ButtonEvent>::empty()));
    assert(spec_run(pending, s2) == (idle, Seq::<ButtonEvent>::empty()));
    assert(seq![ButtonEvent::LongPress] + Seq::<ButtonEvent>::empty() =~= seq![
        ButtonEvent::LongPress,
    ]);
    assert(spec_run(pressed, s1) == (idle, seq![ButtonEvent::LongPress]));
    assert(spec_run(b, s) == (idle, seq![ButtonEvent::LongPress]));
}

/// While a press sequence is going on, it has counted at least one press.
pub open spec fn count_invariant(b: Button) -> bool {
    (b.state == State::Pressed || b.state == State::Released) ==> b.count >= 1
}

/// Every step keeps the press count of a running sequence at one or more, so a short-press
/// event always reports a sequence of one or more presses. A new button starts in a state
/// that satisfies this.
pub proof fn lemma_short_press_counts_presses(b: Button, outcome: WaitOutcome)
    requires
        count_invariant(b),
        step_in_range(b, outcome),
    ensures
        count_invariant(spec_step(b, outcome).0),
        spec_step(b, outcome).1 matches Some(ButtonEvent::ShortPress { count }) ==> count >= 1,
        count_invariant(Button { state: State::Unknown, count: 0, config: b.config }),
{
}


/// Every step of a run gets an outcome that the wait of its state can have, without
/// counter overflow: the outcomes a driver can produce.
pub open spec fn run_ok(b: Button, outcomes: Seq<WaitOutcome>) -> bool
    decreases outcomes.len(),
{
    outcomes.len() == 0 || {
        &&& outcome_fits(b, outcomes[0])
        &&& step_in_range(b, outcomes[0])
        &&& run_ok(spec_step(b, outcomes[0]).0, outcomes.drop_first())
    }
}

/// A run with one more outcome is the run, then one more step.
pub proof fn lemma_run_push(b: Button, s: Seq<WaitOutcome>, o: WaitOutcome)
    ensures
        ({
            let (mid, events) = spec_run(b, s);
            let (last, event) = spec_step(mid, o);
            spec_run(b, s.push(o)) == (last, events + event_seq(event))
        }),
    decreases s.len(),
{
    if s.len() == 0 {
        let t = s.push(o);
        assert(t[0] == o);
        assert(t.drop_first() =~= Seq::<WaitOutcome>::empty());
        let (last, event) = spec_step(b, o);
        assert(spec_run(last, t.drop_first()) == (last, Seq::<ButtonEvent>::empty()));
        assert(event_seq(event) + Seq::<ButtonEvent>::empty() =~= Seq::<ButtonEvent>::empty()
            + event_seq(event));
    } else {
        let t = s.push(o);
        assert(t[0] == s[0]);
        assert(t.drop_first() =~= s.drop_first().push(o));
        let (next, e0) = spec_step(b, s[0]);
        lemma_run_push(next, s.drop_first(), o);
        let (mid, events) = spec_run(next, s.drop_first());
        let (last, event) = spec_step(mid, o);
        assert(event_seq(e0) + (events + event_seq(event)) =~= (event_seq(e0) + events)
            + event_seq(event));
    }
}

/// Over any run that a driver can produce from a new button (or from any state where a
/// running sequence has counted a press), every short press reports one or more presses.
pub proof fn lemma_run_short_press_counts(b: Button, outcomes: Seq<WaitOutcome>)
    requires
        count_invariant(b),
        run_ok(b, outcomes),
    ensures
        count_invariant(spec_run(b, outcomes).0),
        forall|i: int|
            0 <= i < spec_run(b, outcomes).1.len() ==> (#[trigger] spec_run(b, outcomes).1[i] matches ButtonEvent::ShortPress {
                count,
            } ==> count >= 1),
    decreases outcomes.len(),
{
    if outcomes.len() > 0 {
        let (next, e0) = spec_step(b, outcomes[0]);
        lemma_short_press_counts_presses(b, outcomes[0]);
        lemma_run_short_press_counts(next, outcomes.drop_first());
        let rest = spec_run(next, outcomes.drop_first()).1;
        let all = event_seq(e0) + rest;
        assert forall|i: int| 0 <= i < all.len() implies (#[trigger] all[i] matches ButtonEvent::ShortPress {
            count,
        } ==> count >= 1) by {
            if i >= event_seq(e0).len() {
                assert(all[i] == rest[i - event_seq(e0).len()]);
            }
        }
    }
}

/// Once a long press was reported, holding the button reports nothing more: every reading
/// that the button is still pressed leaves it waiting for the release.
pub proof fn lemma_held_after_long_press(b: Button, outcomes: Seq<WaitOutcome>)
    requires
        b.state == State::PendingRelease,
        forall|i: int|
            0 <= i < outcomes.len() ==> (#[trigger] outcomes[i] matches WaitOutcome::PinRead {
                is_low,
            } && b.config.mode.spec_is_pin_pressed(is_low)),
    ensures
        spec_run(b, outcomes) == (b, Seq::<ButtonEvent>::empty()),
    decreases outcomes.len(),
{
    if outcomes.len() > 0 {
        assert(outcomes[0] matches WaitOutcome::PinRead { .. });
        assert(spec_step(b, outcomes[0]) == (b, None::<ButtonEvent>));
        let rest = outcomes.drop_first();
        assert forall|i: int| 0 <= i < rest.len() implies (#[trigger] rest[i] matches WaitOutcome::PinRead {
            is_low,
        } && b.config.mode.spec_is_pin_pressed(is_low)) by {
            assert(rest[i] == outcomes[i + 1]);
        }
        lemma_held_after_long_press(b, rest);
        assert(Seq::<ButtonEvent>::empty() + Seq::<ButtonEvent>::empty() =~= Seq::<
            ButtonEvent,
        >::empty());
    }
}

/// A pin reading that means "pressed" for the button `b`.
pub open spec fn is_press_reading(b: Button, o: WaitOutcome) -> bool {
    o matches WaitOutcome::PinRead { is_low } && b.config.mode.spec_is_pin_pressed(is_low)
}

/// A pin reading that means "released" for the button `b`.
pub open spec fn is_release_reading(b: Button, o: WaitOutcome) -> bool {
    o matches WaitOutcome::PinRead { is_low } && !b.config.mode.spec_is_pin_pressed(is_low)
}

/// `outcomes` hold a "released" reading followed, later, by a "pressed" reading.
pub open spec fn release_then_press(b: Button, outcomes: Seq<WaitOutcome>) -> bool {
    exists|i: int, j: int|
        0 <= i < j < outcomes.len() && is_release_reading(b, #[trigger] outcomes[i])
            && is_press_reading(b, #[trigger] outcomes[j])
}

proof fn lemma_idle_without_press(b: Button, outcomes: Seq<WaitOutcome>)
    requires
        b.state == State::Idle,
        run_ok(b, outcomes),
        forall|j: int| 0 <= j < outcomes.len() ==> !is_press_reading(b, #[trigger] outcomes[j]),
    ensures
        spec_run(b, outcomes) == (b, Seq::<ButtonEvent>::empty()),
    decreases outcomes.len(),
{
    if outcomes.len() > 0 {
        assert(!is_press_reading(b, outcomes[0]));
        assert(spec_step(b, outcomes[0]) == (b, None::<ButtonEvent>));
        let rest = outcomes.drop_first();
        assert forall|j: int| 0 <= j < rest.len() implies !is_press_reading(b, #[trigger] rest[j]) by {
            assert(rest[j] == outcomes[j + 1]);
        }
        lemma_idle_without_press(b, rest);
        assert(Seq::<ButtonEvent>::empty() + Seq::<ButtonEvent>::empty() =~= Seq::<
            ButtonEvent,
        >::empty());
    }
}

/// After a long press the button reports nothing until it has been released and then
/// pressed again: over any run that a driver can produce from the state that a long press
/// leaves, without a "released" reading followed by a "pressed" reading, no event comes,
/// and the button is still waiting for the release or idle.
pub proof fn lemma_no_event_until_released_and_pressed(b: Button, outcomes: Seq<WaitOutcome>)
    requires
        b.state == State::PendingRelease,
        run_ok(b, outcomes),
        !release_then_press(b, outcomes),
    ensures
        spec_run(b, outcomes).1 == Seq::<ButtonEvent>::empty(),
        spec_run(b, outcomes).0.state == State::PendingRelease || spec_run(b, outcomes).0.state
            == State::Idle,
        spec_run(b, outcomes).0.config == b.config,
    decreases outcomes.len(),
{
    if outcomes.len() > 0 {
        let o = outcomes[0];
        let rest = outcomes.drop_first();
        assert(o is PinRead);
        if is_release_reading(b, o) {
            let idle = Button { state: State::Idle, ..b };
            assert(spec_step(b, o) == (idle, None::<ButtonEvent>));
            assert forall|j: int| 0 <= j < rest.len() implies !is_press_reading(
                idle,
                #[trigger] rest[j],
            ) by {
                assert(rest[j] == outcomes[j + 1]);
                if is_press_reading(idle, rest[j]) {
                    assert(is_release_reading(b, outcomes[0]));
                    assert(is_press_reading(b, outcomes[j + 1]));
                    assert(release_then_press(b, outcomes));
                }
            }
            lemma_idle_without_press(idle, rest);
        } else {
            assert(spec_step(b, o) == (b, None::<ButtonEvent>));
            if release_then_press(b, rest) {
                let (i, j) = choose|i: int, j: int|
                    0 <= i < j < rest.len() && is_release_reading(b, #[trigger] rest[i])
                        && is_press_reading(b, #[trigger] rest[j]);
                assert(outcomes[i + 1] == rest[i]);
                assert(outcomes[j + 1] == rest[j]);
                assert(release_then_press(b, outcomes));
            }
            lemma_no_event_until_released_and_pressed(b, rest);
        }
        assert(Seq::<ButtonEvent>::empty() + Seq::<ButtonEvent>::empty() =~= Seq::<
            ButtonEvent,
        >::empty());
    }
}

/// Every wait for a level waits for the level that moves the button on: once the pin is
/// read at the awaited level, the button leaves its state. A pressed button (and one
/// waiting for the release after a long press) waits for the level at which a reading counts
/// as released; an idle or released button waits for the level at which it counts as
/// pressed. A pressed button waits with the long-press timeout, a released one with the
/// double-click timeout, and the two others without timeout.
pub proof fn lemma_wait_level_moves_on(b: Button)
    requires
        b.state != State::Unknown,
    ensures
        spec_next_wait(b) matches Wait::Level { level, timeout, debounce } && {
            let reading = WaitOutcome::PinRead { is_low: Some(!level) };
            &&& spec_step(b, reading).0.state != b.state
            &&& (b.state == State::Pressed || b.state == State::PendingRelease)
                ==> !b.config.mode.spec_is_pin_pressed(Some(!level))
            &&& (b.state == State::Idle || b.state == State::Released)
                ==> b.config.mode.spec_is_pin_pressed(Some(!level))
            &&& debounce == b.config.debounce
            &&& (b.state == State::Pressed ==> timeout == Some(b.config.long_press))
            &&& (b.state == State::Released ==> timeout == Some(b.config.double_click))
            &&& (b.state == State::Idle || b.state == State::PendingRelease) ==> timeout is None
        },
        b.state == State::Pressed ==> (spec_next_wait(b) matches Wait::Level { level, .. }
            && level == (b.config.mode == Mode::PullUp)),
{
}

/// What a driver's update returns: it steps until the first event. When a run reports its
/// first event at its last step, that event is the only one, the press count is back to
/// zero, a long press waits for the release and a short press returns to idle.
pub proof fn lemma_update_result(b: Button, outcomes: Seq<WaitOutcome>)
    requires
        outcomes.len() > 0,
        spec_run(b, outcomes.drop_last()).1.len() == 0,
        spec_step(spec_run(b, outcomes.drop_last()).0, outcomes.last()).1 is Some,
    ensures
        ({
            let (last, events) = spec_run(b, outcomes);
            let e = spec_step(spec_run(b, outcomes.drop_last()).0, outcomes.last()).1.unwrap();
            &&& events == seq![e]
            &&& last.count == 0
            &&& e == ButtonEvent::LongPress ==> last.state == State::PendingRelease
            &&& e is ShortPress ==> last.state == State::Idle
        }),
{
    let s = outcomes.drop_last();
    let o = outcomes.last();
    assert(s.push(o) =~= outcomes);
    lemma_run_push(b, s, o);
    let mid = spec_run(b, s).0;
    lemma_event_ends_sequence(mid, o);
    let e = spec_step(mid, o).1.unwrap();
    assert(Seq::<ButtonEvent>::empty() + seq![e] =~= seq![e]);
}

} // verus!
