use busylight::host::{output_report, BusyLightState};
use busylight::led::{LedController, LedEvent};
use busylight::usb::{
    hid_report_event, str_to_one, str_to_two, usb_bcd_device_version, HidRequestHandler,
    UsbEventHandler,
};
use rtic_sync::channel::{Channel, Receiver};

#[test]
fn bcd_conversions() {
    assert_eq!(str_to_two("42"), 0x42);
    assert_eq!(str_to_two("7"), 0x07);
    assert_eq!(str_to_two("+99"), 0x99);
    assert_eq!(str_to_two("0"), 0x00);
    assert_eq!(str_to_one("9"), 9);
    assert_eq!(str_to_one("+3"), 3);
    assert_eq!(str_to_one("0"), 0);
}

#[test]
fn bcd_device_version() {
    assert_eq!(usb_bcd_device_version("1", "2", "3"), 0x0123);
    assert_eq!(usb_bcd_device_version("12", "0", "9"), 0x1209);
    assert_eq!(usb_bcd_device_version("0", "1", "0"), 0x0010);
}

#[test]
fn get_report_writes_led_state() {
    let mut handler = HidRequestHandler::new();
    let mut buf = [0xffu8; 4];
    assert_eq!(handler.get_report(2, &mut buf), Some(1));
    assert_eq!(buf, [2, 0xff, 0xff, 0xff]);
    let mut empty: [u8; 0] = [];
    assert_eq!(handler.get_report(2, &mut empty), None);
}

#[test]
fn hid_reports_select_colors() {
    let mut report = [0u8; 8];
    assert_eq!(hid_report_event(1, &report), Some(LedEvent::Off));
    report[0] = 1;
    assert_eq!(hid_report_event(8, &report), Some(LedEvent::Green));
    report[0] = 2;
    assert_eq!(hid_report_event(1, &report), Some(LedEvent::Yellow));
    report[0] = 3;
    assert_eq!(hid_report_event(1, &report), Some(LedEvent::Red));
    report[0] = 4;
    assert_eq!(hid_report_event(1, &report), None);
    report[0] = 3;
    assert_eq!(hid_report_event(0, &report), None);
}

fn channel() -> (
    rtic_sync::channel::Sender<'static, LedEvent, 10>,
    Receiver<'static, LedEvent, 10>,
) {
    let ch: &'static mut Channel<LedEvent, 10> = Box::leak(Box::new(Channel::new()));
    ch.split()
}

/// Offers the event to the channel and reports the outcome, as the firmware does.
fn deliver(
    handler: &mut UsbEventHandler,
    sender: &mut rtic_sync::channel::Sender<'static, LedEvent, 10>,
    event: Option<LedEvent>,
) -> Option<bool> {
    let sent = event.map(|e| sender.try_send(e).is_ok());
    handler.finish_update(sent);
    sent
}

#[test]
fn usb_handler_waits_for_first_connection() {
    let (mut sender, mut receiver) = channel();
    let mut handler = UsbEventHandler::new();
    // Powered without a host: suspend and reset send nothing.
    let ev = handler.suspended(true);
    assert_eq!(ev, None);
    deliver(&mut handler, &mut sender, ev);
    let ev = handler.reset();
    assert_eq!(ev, None);
    deliver(&mut handler, &mut sender, ev);
    assert!(receiver.try_recv().is_err());
    // The host connects: still nothing to send, the LEDs are as they are.
    let ev = handler.addressed(5);
    assert_eq!(ev, None);
    deliver(&mut handler, &mut sender, ev);
    assert!(receiver.try_recv().is_err());
    // The host goes to sleep: LEDs off.
    let ev = handler.suspended(true);
    assert_eq!(ev, Some(LedEvent::Off));
    assert_eq!(deliver(&mut handler, &mut sender, ev), Some(true));
    assert_eq!(receiver.try_recv().ok(), Some(LedEvent::Off));
    // Nothing new while the state does not change.
    let ev = handler.suspended(true);
    assert_eq!(ev, None);
    deliver(&mut handler, &mut sender, ev);
    // The host wakes up: LEDs on.
    let ev = handler.suspended(false);
    assert_eq!(ev, Some(LedEvent::On));
    assert_eq!(deliver(&mut handler, &mut sender, ev), Some(true));
    assert_eq!(receiver.try_recv().ok(), Some(LedEvent::On));
    // Bus reset: off again.
    let ev = handler.reset();
    assert_eq!(ev, Some(LedEvent::Off));
    deliver(&mut handler, &mut sender, ev);
    assert_eq!(receiver.try_recv().ok(), Some(LedEvent::Off));
}

#[test]
fn usb_handler_retries_refused_event() {
    let (mut sender, mut receiver) = channel();
    let mut handler = UsbEventHandler::new();
    let ev = handler.addressed(1);
    deliver(&mut handler, &mut sender, ev);
    for _ in 0..10 {
        assert!(sender.try_send(LedEvent::ShortPress).is_ok());
    }
    // The channel is full: the event is refused and stays due.
    let ev = handler.suspended(true);
    assert_eq!(ev, Some(LedEvent::Off));
    assert_eq!(deliver(&mut handler, &mut sender, ev), Some(false));
    assert_eq!(handler.pending_event(), Some(LedEvent::Off));
    for _ in 0..10 {
        assert_eq!(receiver.try_recv().ok(), Some(LedEvent::ShortPress));
    }
    let ev = handler.suspended(true);
    assert_eq!(ev, Some(LedEvent::Off));
    assert_eq!(deliver(&mut handler, &mut sender, ev), Some(true));
    assert_eq!(receiver.try_recv().ok(), Some(LedEvent::Off));
    assert_eq!(handler.pending_event(), None);
}

#[test]
fn usb_handler_finish_update() {
    let mut handler = UsbEventHandler::new();
    handler.addressed(1);
    handler.finish_update(None);
    assert_eq!(handler.pending_event(), None);
    assert_eq!(handler.suspended(true), Some(LedEvent::Off));
    handler.finish_update(Some(false));
    assert_eq!(handler.pending_event(), Some(LedEvent::Off));
    handler.finish_update(Some(true));
    assert_eq!(handler.pending_event(), None);
}

#[test]
fn host_state_reaches_the_leds() {
    let cases = [
        (BusyLightState::Off, (0, 0, 0)),
        (BusyLightState::Green, (0, 255, 0)),
        (BusyLightState::Yellow, (255, 100, 0)),
        (BusyLightState::Red, (255, 0, 0)),
    ];
    for (state, color) in cases {
        let mut controller = LedController::new();
        controller.handle_event(LedEvent::LongPress);
        let report = output_report(state);
        let event = hid_report_event(1, &report[1..]).unwrap();
        controller.handle_event(event);
        assert_eq!(controller.color(), color);
    }
}
