use busylight::button::ButtonEvent;
use busylight::led::{
    led_event_for_button, led_frame, single_led_colors, single_led_frame, LedController, LedEvent,
};
use busylight::neopixel::fill_with_color;

const GREEN: (u8, u8, u8) = (0, 255, 0);
const YELLOW: (u8, u8, u8) = (255, 100, 0);
const RED: (u8, u8, u8) = (255, 0, 0);
const OFF: (u8, u8, u8) = (0, 0, 0);

#[test]
fn starts_green() {
    let c = LedController::new();
    assert!(c.enabled());
    assert_eq!(c.color(), GREEN);
}

#[test]
fn short_press_cycles_colors() {
    let mut c = LedController::new();
    c.handle_event(LedEvent::ShortPress);
    assert_eq!(c.color(), YELLOW);
    c.handle_event(LedEvent::ShortPress);
    assert_eq!(c.color(), RED);
    c.handle_event(LedEvent::ShortPress);
    assert_eq!(c.color(), GREEN);
}

#[test]
fn long_press_toggles() {
    let mut c = LedController::new();
    c.handle_event(LedEvent::ShortPress);
    c.handle_event(LedEvent::LongPress);
    assert_eq!(c.color(), OFF);
    // Short presses do nothing while off.
    c.handle_event(LedEvent::ShortPress);
    c.handle_event(LedEvent::LongPress);
    assert_eq!(c.color(), YELLOW);
}

#[test]
fn color_events_and_off_on() {
    let mut c = LedController::new();
    c.handle_event(LedEvent::Red);
    assert_eq!(c.color(), RED);
    c.handle_event(LedEvent::Off);
    assert_eq!(c.color(), OFF);
    assert!(!c.enabled());
    c.handle_event(LedEvent::On);
    assert_eq!(c.color(), RED);
    c.handle_event(LedEvent::Off);
    c.handle_event(LedEvent::Yellow);
    assert_eq!(c.color(), YELLOW);
    c.handle_event(LedEvent::Green);
    assert_eq!(c.color(), GREEN);
}

#[test]
fn frame_matches_encoder() {
    let mut c = LedController::new();
    c.handle_event(LedEvent::Red);
    let frame = c.frame();
    assert_eq!(frame.len(), 62);
    let mut data = [0u8; 62];
    let expected: Vec<u8> = fill_with_color(&mut data, RED).to_vec();
    assert_eq!(frame, expected);
    assert_eq!(led_frame(OFF)[1..61], [0x88u8; 60]);
}

#[test]
fn button_events_map_to_led_events() {
    assert_eq!(led_event_for_button(ButtonEvent::ShortPress { count: 3 }), LedEvent::ShortPress);
    assert_eq!(led_event_for_button(ButtonEvent::LongPress), LedEvent::LongPress);
}

#[test]
fn single_led_board() {
    let colors = single_led_colors();
    assert_eq!(colors, [(0, 255, 0), (255, 150, 0), (255, 0, 0)]);
    let mut c = LedController::new_off();
    assert!(!c.enabled());
    assert_eq!(c.color_in(&colors), OFF);
    c.handle_event(led_event_for_button(ButtonEvent::LongPress));
    assert_eq!(c.color_in(&colors), (0, 255, 0));
    c.handle_event(led_event_for_button(ButtonEvent::ShortPress { count: 1 }));
    assert_eq!(c.color_in(&colors), (255, 150, 0));
    let frame = single_led_frame((255, 150, 0));
    let mut data = [0u8; 14];
    let expected: Vec<u8> = fill_with_color(&mut data, (255, 150, 0)).to_vec();
    assert_eq!(frame, expected);
    assert_eq!(frame.len(), 14);
}
