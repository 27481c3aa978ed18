use busylight::host::{
    connection_state, find_device, find_device_with_serial, keep_device_after_set,
    list_device_infos, menu_enabled, output_report, parse_feature_report, parse_input_report,
    menu_action, tray_icon, BusyLightDeviceInfo, BusyLightError, BusyLightState, ConnectionMonitor,
    HidDeviceInfo, LedState, TrayAction, TrayIcon, TrayMenuItem, UsbDeviceInfo, PID, VID,
};

#[test]
fn state_bytes_round_trip() {
    for state in [
        BusyLightState::Off,
        BusyLightState::Green,
        BusyLightState::Yellow,
        BusyLightState::Red,
    ] {
        assert_eq!(BusyLightState::try_from(state.value()).ok(), Some(state));
    }
    assert_eq!(BusyLightState::Red.value(), 3);
    assert!(matches!(
        BusyLightState::try_from(4u8),
        Err(BusyLightError::UnexpectedDeviceState)
    ));
}

#[test]
fn output_reports() {
    assert_eq!(output_report(BusyLightState::Off), [0x01, 0]);
    assert_eq!(output_report(BusyLightState::Yellow), [0x01, 2]);
}

#[test]
fn feature_reports() {
    assert_eq!(parse_feature_report(2, &[0x02, 3]).ok(), Some(BusyLightState::Red));
    assert_eq!(parse_feature_report(1, &[1, 0]).ok(), Some(BusyLightState::Green));
    assert!(matches!(
        parse_feature_report(0, &[1, 1]),
        Err(BusyLightError::InvalidFeatureReport)
    ));
    assert!(matches!(
        parse_feature_report(2, &[0x02, 9]),
        Err(BusyLightError::UnexpectedDeviceState)
    ));
}

#[test]
fn input_reports() {
    assert_eq!(parse_input_report(2, &[0x03, 2]).ok(), Some(BusyLightState::Yellow));
    assert!(matches!(parse_input_report(1, &[0x03, 2]), Err(BusyLightError::InvalidInputReport)));
    assert!(matches!(parse_input_report(2, &[0x02, 2]), Err(BusyLightError::InvalidInputReport)));
    assert!(matches!(
        parse_input_report(2, &[0x03, 7]),
        Err(BusyLightError::UnexpectedDeviceState)
    ));
}

fn hid(name: &str, vid: u16, pid: u16, serial: Option<&str>) -> HidDeviceInfo {
    HidDeviceInfo {
        name: name.to_string(),
        vendor_id: vid,
        product_id: pid,
        serial_number: serial.map(|s| s.to_string()),
    }
}

fn usb(vid: u16, pid: u16, serial: Option<&str>, version: u16) -> UsbDeviceInfo {
    UsbDeviceInfo {
        vendor_id: vid,
        product_id: pid,
        serial_number: serial.map(|s| s.to_string()),
        device_version: version,
    }
}

#[test]
fn device_selection() {
    let devices = vec![
        hid("mouse", 0x046d, 0xc077, Some("M1")),
        hid("light", VID, PID, Some("A")),
        hid("light", VID, PID, Some("B")),
    ];
    assert_eq!(find_device(&devices).ok(), Some(1));
    assert_eq!(find_device_with_serial(&devices, "B").ok(), Some(2));
    assert!(matches!(find_device_with_serial(&devices, "M1"), Err(BusyLightError::DeviceNotFound)));
    assert!(matches!(find_device_with_serial(&devices, "C"), Err(BusyLightError::DeviceNotFound)));
    assert!(matches!(find_device(&devices[..1]), Err(BusyLightError::DeviceNotFound)));
}

#[test]
fn device_list_joins_versions() {
    let hid_devices = vec![
        hid("light", VID, PID, Some("A")),
        hid("mouse", 0x046d, 0xc077, Some("A")),
        hid("light", VID, PID, None),
        hid("light", VID, PID, Some("B")),
    ];
    let usb_devices = vec![
        usb(VID, PID, Some("A"), 0x0100),
        usb(0x046d, 0xc077, Some("B"), 0x9999),
        usb(VID, PID, Some("A"), 0x0102),
    ];
    let list = list_device_infos(&hid_devices, Some(&usb_devices));
    assert_eq!(
        list,
        vec![
            BusyLightDeviceInfo {
                name: "light".to_string(),
                vendor_id: VID,
                product_id: PID,
                serial_number: Some("A".to_string()),
                version: Some(0x0102),
            },
            BusyLightDeviceInfo {
                name: "light".to_string(),
                vendor_id: VID,
                product_id: PID,
                serial_number: None,
                version: None,
            },
            BusyLightDeviceInfo {
                name: "light".to_string(),
                vendor_id: VID,
                product_id: PID,
                serial_number: Some("B".to_string()),
                version: None,
            },
        ]
    );
    let without_usb = list_device_infos(&hid_devices, None);
    assert!(without_usb.iter().all(|d| d.version.is_none()));
    assert_eq!(without_usb.len(), 3);
    assert!(list_device_infos(&hid_devices[1..2], Some(&usb_devices)).is_empty());
}

#[test]
fn connection_states() {
    assert_eq!(
        connection_state(Some(Ok(BusyLightState::Green))),
        LedState::Connected(BusyLightState::Green)
    );
    assert_eq!(connection_state(Some(Err(BusyLightError::InvalidFeatureReport))), LedState::Disconnected);
    assert_eq!(connection_state(None), LedState::Disconnected);
    assert!(keep_device_after_set(&Ok(())));
    assert!(!keep_device_after_set(&Err(BusyLightError::IoError("gone".to_string()))));
    assert!(!keep_device_after_set(&Err(BusyLightError::DeviceNotFound)));
}

#[test]
fn connection_monitor_reports_changes_only() {
    let mut m = ConnectionMonitor::new();
    assert_eq!(m.previous, LedState::Disconnected);
    // The first connection attempt is always told, even when it is still disconnected.
    assert_eq!(m.start(LedState::Disconnected), LedState::Disconnected);
    assert_eq!(m.observe(LedState::Disconnected), None);
    let red = LedState::Connected(BusyLightState::Red);
    assert_eq!(m.observe(red), Some(red));
    assert_eq!(m.observe(red), None);
    assert_eq!(m.observe(LedState::Disconnected), Some(LedState::Disconnected));
}

#[test]
fn tray_icons() {
    assert_eq!(tray_icon(LedState::Connected(BusyLightState::Off)), TrayIcon::BlackCircle);
    assert_eq!(tray_icon(LedState::Connected(BusyLightState::Green)), TrayIcon::GreenCircle);
    assert_eq!(tray_icon(LedState::Connected(BusyLightState::Yellow)), TrayIcon::YellowCircle);
    assert_eq!(tray_icon(LedState::Connected(BusyLightState::Red)), TrayIcon::RedCircle);
    assert_eq!(tray_icon(LedState::Disconnected), TrayIcon::CrossMark);
    assert!(menu_enabled(LedState::Connected(BusyLightState::Off)));
    assert!(!menu_enabled(LedState::Disconnected));
}

#[test]
fn tray_menu_actions() {
    assert_eq!(menu_action(TrayMenuItem::Red), TrayAction::SetState(BusyLightState::Red));
    assert_eq!(menu_action(TrayMenuItem::Yellow), TrayAction::SetState(BusyLightState::Yellow));
    assert_eq!(menu_action(TrayMenuItem::Green), TrayAction::SetState(BusyLightState::Green));
    assert_eq!(menu_action(TrayMenuItem::Off), TrayAction::SetState(BusyLightState::Off));
    assert_eq!(menu_action(TrayMenuItem::Quit), TrayAction::Quit);
}
