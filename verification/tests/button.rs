use busylight::button::{
    Button, ButtonConfig, ButtonEvent, Mode, State, Wait, WaitOutcome,
};

fn pressed(mode: Mode) -> WaitOutcome {
    WaitOutcome::PinRead { is_low: Some(mode == Mode::PullUp) }
}

fn released(mode: Mode) -> WaitOutcome {
    WaitOutcome::PinRead { is_low: Some(mode != Mode::PullUp) }
}

#[test]
fn mode_directions() {
    assert!(Mode::PullUp.is_pullup());
    assert!(!Mode::PullUp.is_pulldown());
    assert!(!Mode::PullDown.is_pullup());
    assert!(Mode::PullDown.is_pulldown());
    assert_eq!(Mode::default(), Mode::PullUp);
    assert!(!Mode::PullUp.pressed_level());
    assert!(Mode::PullUp.released_level());
    assert!(Mode::PullDown.pressed_level());
    assert!(!Mode::PullDown.released_level());
}

#[test]
fn pin_readings() {
    assert!(Mode::PullUp.is_pin_pressed(Some(true)));
    assert!(!Mode::PullUp.is_pin_pressed(Some(false)));
    assert!(!Mode::PullDown.is_pin_pressed(Some(true)));
    assert!(Mode::PullDown.is_pin_pressed(Some(false)));
    // A failed reading counts as released in both modes.
    assert!(!Mode::PullUp.is_pin_pressed(None));
    assert!(!Mode::PullDown.is_pin_pressed(None));
}

#[test]
fn config_defaults_and_new() {
    let d = ButtonConfig::default();
    assert_eq!(d.debounce, 10);
    assert_eq!(d.double_click, 350);
    assert_eq!(d.long_press, 1000);
    assert_eq!(d.mode, Mode::PullUp);
    let c = ButtonConfig::new(5, 0, 700, Mode::PullDown);
    assert_eq!(c, ButtonConfig { debounce: 5, double_click: 0, long_press: 700, mode: Mode::PullDown });
}

#[test]
fn startup_reads_pin_first() {
    let mut b = Button::new(ButtonConfig::default());
    assert_eq!(b.next_wait(), Wait::ReadPin);
    assert_eq!(b.update_step(released(Mode::PullUp)), None);
    assert_eq!(b.state, State::Idle);
    assert_eq!(
        b.next_wait(),
        Wait::Level { level: false, timeout: None, debounce: 10 }
    );
}

#[test]
fn startup_with_button_held() {
    let mut b = Button::new(ButtonConfig::default());
    assert_eq!(b.update_step(pressed(Mode::PullUp)), None);
    assert_eq!(b.state, State::Pressed);
    assert_eq!(b.count, 1);
    assert_eq!(b.update_step(released(Mode::PullUp)), None);
    assert_eq!(b.update_step(WaitOutcome::TimedOut), Some(ButtonEvent::ShortPress { count: 1 }));
}

#[test]
fn double_click_sequence() {
    let mode = Mode::PullDown;
    let mut b = Button::new(ButtonConfig::new(10, 350, 1000, mode));
    b.update_step(released(mode));
    for _ in 0..2 {
        assert_eq!(b.update_step(pressed(mode)), None);
        assert_eq!(
            b.next_wait(),
            Wait::Level { level: false, timeout: Some(1000), debounce: 10 }
        );
        assert_eq!(b.update_step(released(mode)), None);
        assert_eq!(
            b.next_wait(),
            Wait::Level { level: true, timeout: Some(350), debounce: 10 }
        );
    }
    assert_eq!(b.update_step(WaitOutcome::TimedOut), Some(ButtonEvent::ShortPress { count: 2 }));
    assert_eq!(b.state, State::Idle);
    assert_eq!(b.count, 0);
}

#[test]
fn long_press_then_release() {
    let mode = Mode::PullUp;
    let mut b = Button::new(ButtonConfig::default());
    b.update_step(released(mode));
    assert_eq!(b.update_step(pressed(mode)), None);
    assert_eq!(b.update_step(WaitOutcome::TimedOut), Some(ButtonEvent::LongPress));
    assert_eq!(b.state, State::PendingRelease);
    assert_eq!(b.next_wait(), Wait::Level { level: true, timeout: None, debounce: 10 });
    assert_eq!(b.update_step(released(mode)), None);
    assert_eq!(b.state, State::Idle);
}

#[test]
fn bounce_is_ignored() {
    let mode = Mode::PullUp;
    let mut b = Button::new(ButtonConfig::default());
    b.update_step(released(mode));
    // The press edge came, but after the debounce time the pin is released again.
    assert_eq!(b.update_step(released(mode)), None);
    assert_eq!(b.state, State::Idle);
    assert_eq!(b.count, 0);
    // A failed reading counts as released.
    assert_eq!(b.update_step(WaitOutcome::PinRead { is_low: None }), None);
    assert_eq!(b.state, State::Idle);
}

#[test]
fn no_second_long_press_until_released_and_pressed() {
    let mode = Mode::PullUp;
    let mut b = Button::new(ButtonConfig::default());
    b.update_step(released(mode));
    b.update_step(pressed(mode));
    assert_eq!(b.update_step(WaitOutcome::TimedOut), Some(ButtonEvent::LongPress));
    // Still held: nothing.
    for _ in 0..5 {
        assert_eq!(b.update_step(pressed(mode)), None);
        assert_eq!(b.state, State::PendingRelease);
    }
    // Released, but no new press: nothing.
    assert_eq!(b.update_step(released(mode)), None);
    assert_eq!(b.update_step(released(mode)), None);
    assert_eq!(b.state, State::Idle);
    // Pressed again and held: a new long press.
    assert_eq!(b.update_step(pressed(mode)), None);
    assert_eq!(b.update_step(WaitOutcome::TimedOut), Some(ButtonEvent::LongPress));
}
