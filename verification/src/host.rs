//! The host side: the reports that the PC exchanges with the BusyLight, the choice of the
//! device to talk to, and the connection state that the tray program shows.

use vstd::prelude::*;
use vstd::std_specs::convert::TryFromSpecImpl;

verus! {

/// USB vendor id of the BusyLight.
pub const VID: u16 = 0x1209;
/// USB product id of the BusyLight.
pub const PID: u16 = 0xd9d0;

/// Errors of the host library.
#[derive(Debug)]
pub enum BusyLightError {
    /// The HID backend failed; the text is its error message.
    IoError(String),
    /// No BusyLight is connected.
    DeviceNotFound,
    /// Device reported an unexpected state.
    UnexpectedDeviceState,
    /// Device responded with an invalid feature report.
    InvalidFeatureReport,
    /// Device sent an invalid input report.
    InvalidInputReport,
}

/// The colour a BusyLight shows.
#[derive(Debug, PartialEq, Eq, PartialOrd, Ord, Clone, Copy, Structural)]
pub enum BusyLightState {
    Off,
    Green,
    Yellow,
    Red,
}

/// The byte that stands for a state on the wire.
pub open spec fn state_value(state: BusyLightState) -> u8 {
    match state {
        BusyLightState::Off => 0,
        BusyLightState::Green => 1,
        BusyLightState::Yellow => 2,
        BusyLightState::Red => 3,
    }
}

/// The state that a byte on the wire stands for.
pub open spec fn state_from_value(value: u8) -> Result<BusyLightState, BusyLightError> {
    if value == 0 {
        Ok(BusyLightState::Off)
    } else if value == 1 {
        Ok(BusyLightState::Green)
    } else if value == 2 {
        Ok(BusyLightState::Yellow)
    } else if value == 3 {
        Ok(BusyLightState::Red)
    } else {
        Err(BusyLightError::UnexpectedDeviceState)
    }
}

impl BusyLightState {
    /// The byte that stands for this state on the wire.
    pub fn value(self) -> (r: u8)
        ensures
            r == state_value(self),
    {
        match self {
            BusyLightState::Off => 0,
            BusyLightState::Green => 1,
            BusyLightState::Yellow => 2,
            BusyLightState::Red => 3,
        }
    }
}

impl TryFrom<u8> for BusyLightState {
    type Error = BusyLightError;

    fn try_from(value: u8) -> (r: Result<Self, Self::Error>) {
        match value {
            0 => Ok(BusyLightState::Off),
            1 => Ok(BusyLightState::Green),
            2 => Ok(BusyLightState::Yellow),
            3 => Ok(BusyLightState::Red),
            _ => Err(BusyLightError::UnexpectedDeviceState),
        }
    }
}

impl TryFromSpecImpl<u8> for BusyLightState {
    open spec fn obeys_try_from_spec() -> bool {
        true
    }

    open spec fn try_from_spec(v: u8) -> Result<Self, BusyLightError> {
        state_from_value(v)
    }
}

/// The output report that sets `state`: report id 1, then the state byte.
pub fn output_report(state: BusyLightState) -> (r: [u8; 2])
    ensures
        r@ == seq![0x01u8, state_value(state)],
{
    [0x01, state.value()]
}

/// The state that a feature report gives, or the error it stands for.
pub open spec fn spec_parse_feature_report(read_len: usize, buf: Seq<u8>) -> Result<
    BusyLightState,
    BusyLightError,
> {
    if read_len == 2 {
        state_from_value(buf[1])
    } else if read_len == 1 {
        state_from_value(buf[0])
    } else {
        Err(BusyLightError::InvalidFeatureReport)
    }
}

/// Reads the state from a feature report of `read_len` bytes. Some backends return the
/// report id and the state byte, others only the state byte.
pub fn parse_feature_report(read_len: usize, buf: &[u8; 2]) -> (r: Result<
    BusyLightState,
    BusyLightError,
>)
    ensures
        r == spec_parse_feature_report(read_len, buf@),
{
    match read_len {
        // Backends that return report ID + one-byte payload.
        2 => BusyLightState::try_from(buf[1]),
        // Backends that return only the one-byte payload.
        1 => BusyLightState::try_from(buf[0]),
        _ => Err(BusyLightError::InvalidFeatureReport),
    }
}

/// The state that an input report gives, or the error it stands for.
pub open spec fn spec_parse_input_report(read_len: usize, buf: Seq<u8>) -> Result<
    BusyLightState,
    BusyLightError,
> {
    if read_len != 2 || buf[0] != 0x03 {
        Err(BusyLightError::InvalidInputReport)
    } else {
        state_from_value(buf[1])
    }
}

/// Reads the state from an input report of `read_len` bytes: report id 3, then the state
/// byte.
pub fn parse_input_report(read_len: usize, buf: &[u8; 2]) -> (r: Result<
    BusyLightState,
    BusyLightError,
>)
    ensures
        r == spec_parse_input_report(read_len, buf@),
{
    if read_len != 2 || buf[0] != 0x03 {
        Err(BusyLightError::InvalidInputReport)
    } else {
        BusyLightState::try_from(buf[1])
    }
}


/// What the HID backend reports of a device it enumerates.
#[derive(Debug, PartialEq, Eq, Clone)]
pub struct HidDeviceInfo {
    pub name: String,
    pub vendor_id: u16,
    pub product_id: u16,
    pub serial_number: Option<String>,
}

/// What the USB backend reports of a device it lists.
#[derive(Debug, PartialEq, Eq, Clone)]
pub struct UsbDeviceInfo {
    pub vendor_id: u16,
    pub product_id: u16,
    pub serial_number: Option<String>,
    pub device_version: u16,
}

/// A BusyLight found on the host.
#[derive(Debug, PartialEq, Eq, PartialOrd, Ord, Clone)]
pub struct BusyLightDeviceInfo {
    pub name: String,
    pub vendor_id: u16,
    pub product_id: u16,
    pub serial_number: Option<String>,
    pub version: Option<u16>,
}

/// The HID device is a BusyLight.
pub open spec fn is_busylight(dev: HidDeviceInfo) -> bool {
    dev.vendor_id == VID && dev.product_id == PID
}

/// The HID device is a BusyLight with serial number `serial`.
pub open spec fn is_busylight_with_serial(dev: HidDeviceInfo, serial: Seq<char>) -> bool {
    &&& is_busylight(dev)
    &&& dev.serial_number matches Some(s) && s@ == serial
}

/// Finds the first BusyLight among `devices`; `DeviceNotFound` when there is none.
pub fn find_device(devices: &[HidDeviceInfo]) -> (r: Result<usize, BusyLightError>)
    ensures
        match r {
            Ok(i) => i < devices@.len() && is_busylight(devices@[i as int]) && forall|j: int|
                0 <= j < i ==> !is_busylight(#[trigger] devices@[j]),
            Err(e) => e == BusyLightError::DeviceNotFound && forall|j: int|
                0 <= j < devices@.len() ==> !is_busylight(#[trigger] devices@[j]),
        },
{
    let mut i: usize = 0;
    while i < devices.len()
        invariant
            i <= devices@.len(),
            forall|j: int| 0 <= j < i ==> !is_busylight(#[trigger] devices@[j]),
        decreases devices@.len() - i,
    {
        if devices[i].vendor_id == VID && devices[i].product_id == PID {
            return Ok(i);
        }
        i += 1;
    }
    Err(BusyLightError::DeviceNotFound)
}

/// Finds the first BusyLight with serial number `serial` among `devices`;
/// `DeviceNotFound` when there is none.
pub fn find_device_with_serial(devices: &[HidDeviceInfo], serial: &str) -> (r: Result<
    usize,
    BusyLightError,
>)
    ensures
        match r {
            Ok(i) => i < devices@.len() && is_busylight_with_serial(devices@[i as int], serial@)
                && forall|j: int|
                0 <= j < i ==> !is_busylight_with_serial(#[trigger] devices@[j], serial@),
            Err(e) => e == BusyLightError::DeviceNotFound && forall|j: int|
                0 <= j < devices@.len() ==> !is_busylight_with_serial(#[trigger] devices@[j], serial@),
        },
{
    let wanted: String = serial.to_owned();
    let mut i: usize = 0;
    while i < devices.len()
        invariant
            i <= devices@.len(),
            wanted@ == serial@,
            forall|j: int| 0 <= j < i ==> !is_busylight_with_serial(#[trigger] devices@[j], serial@),
        decreases devices@.len() - i,
    {
        let dev = &devices[i];
        if dev.vendor_id == VID && dev.product_id == PID {
            match &dev.serial_number {
                Some(s) => {
                    if *s == wanted {
                        return Ok(i);
                    }
                },
                None => {},
            }
        }
        i += 1;
    }
    Err(BusyLightError::DeviceNotFound)
}

/// The USB device is a BusyLight with serial number `serial`.
pub open spec fn usb_matches(dev: UsbDeviceInfo, serial: Seq<char>) -> bool {
    &&& dev.vendor_id == VID
    &&& dev.product_id == PID
    &&& dev.serial_number matches Some(s) && s@ == serial
}

/// The firmware version of the BusyLight with serial number `serial` in a USB device list:
/// that of the last matching entry, as a map built from the list in order keeps it.
pub open spec fn version_for(usb: Seq<UsbDeviceInfo>, serial: Seq<char>) -> Option<u16>
    decreases usb.len(),
{
    if usb.len() == 0 {
        None
    } else if usb_matches(usb.last(), serial) {
        Some(usb.last().device_version)
    } else {
        version_for(usb.drop_last(), serial)
    }
}

/// The entry of the device list for a HID device, given the USB device list if the USB
/// backend could list the devices.
pub open spec fn device_info(dev: HidDeviceInfo, usb: Option<Seq<UsbDeviceInfo>>) -> BusyLightDeviceInfo {
    BusyLightDeviceInfo {
        name: dev.name,
        vendor_id: dev.vendor_id,
        product_id: dev.product_id,
        serial_number: dev.serial_number,
        version: match (usb, dev.serial_number) {
            (Some(list), Some(serial)) => version_for(list, serial@),
            _ => None,
        },
    }
}

/// The device list: an entry for each BusyLight among the HID devices, in order.
pub open spec fn device_infos(hid: Seq<HidDeviceInfo>, usb: Option<Seq<UsbDeviceInfo>>) -> Seq<
    BusyLightDeviceInfo,
>
    decreases hid.len(),
{
    if hid.len() == 0 {
        Seq::empty()
    } else {
        let rest = device_infos(hid.drop_last(), usb);
        if is_busylight(hid.last()) {
            rest.push(device_info(hid.last(), usb))
        } else {
            rest
        }
    }
}

fn clone_serial(serial: &Option<String>) -> (r: Option<String>)
    ensures
        r == *serial,
{
    match serial {
        Some(s) => Some(s.clone()),
        None => None,
    }
}

/// Looks up the firmware version of the BusyLight with serial number `serial`.
fn lookup_version(usb: &[UsbDeviceInfo], serial: &String) -> (r: Option<u16>)
    ensures
        r == version_for(usb@, serial@),
{
    let mut found: Option<u16> = None;
    let mut i: usize = 0;
    while i < usb.len()
        invariant
            i <= usb@.len(),
            found == version_for(usb@.subrange(0, i as int), serial@),
        decreases usb@.len() - i,
    {
        let dev = &usb[i];
        let ghost prefix = usb@.subrange(0, i + 1);
        assert(prefix.drop_last() =~= usb@.subrange(0, i as int));
        assert(prefix.last() == usb@[i as int]);
        if dev.vendor_id == VID && dev.product_id == PID {
            match &dev.serial_number {
                Some(s) => {
                    if *s == *serial {
                        found = Some(dev.device_version);
                    }
                },
                None => {},
            }
        }
        i += 1;
    }
    assert(usb@.subrange(0, usb@.len() as int) =~= usb@);
    found
}

/// Builds the device list from the HID devices and, when the USB backend could list the
/// devices, the USB devices that give the firmware versions.
pub fn list_device_infos(hid: &[HidDeviceInfo], usb: Option<&[UsbDeviceInfo]>) -> (r: Vec<
    BusyLightDeviceInfo,
>)
    ensures
        r@ == device_infos(
            hid@,
            match usb {
                Some(u) => Some(u@),
                None => None,
            },
        ),
{
    let ghost usb_view = match usb {
        Some(u) => Some(u@),
        None => None,
    };
    let mut out: Vec<BusyLightDeviceInfo> = Vec::new();
    let mut i: usize = 0;
    while i < hid.len()
        invariant
            i <= hid@.len(),
            usb_view == match usb {
                Some(u) => Some(u@),
                None => None::<Seq<UsbDeviceInfo>>,
            },
            out@ == device_infos(hid@.subrange(0, i as int), usb_view),
        decreases hid@.len() - i,
    {
        let dev = &hid[i];
        let ghost prefix = hid@.subrange(0, i + 1);
        assert(prefix.drop_last() =~= hid@.subrange(0, i as int));
        assert(prefix.last() == hid@[i as int]);
        if dev.vendor_id == VID && dev.product_id == PID {
            let version = match (usb, &dev.serial_number) {
                (Some(list), Some(serial)) => lookup_version(list, serial),
                _ => None,
            };
            out.push(
                BusyLightDeviceInfo {
                    name: dev.name.clone(),
                    vendor_id: dev.vendor_id,
                    product_id: dev.product_id,
                    serial_number: clone_serial(&dev.serial_number),
                    version,
                },
            );
        }
        i += 1;
    }
    assert(hid@.subrange(0, hid@.len() as int) =~= hid@);
    out
}


/// What the tray program shows of the BusyLight.
#[derive(Debug, PartialEq, Eq, PartialOrd, Ord, Clone, Copy, Structural)]
pub enum LedState {
    Connected(BusyLightState),
    Disconnected,
}

/// The connection state after an attempt to read the state of the device: `read` is
/// `None` when no device could be opened, else the outcome of the read.
pub fn connection_state(read: Option<Result<BusyLightState, BusyLightError>>) -> (r: LedState)
    ensures
        r == (match read {
            Some(Ok(state)) => LedState::Connected(state),
            _ => LedState::Disconnected,
        }),
{
    match read {
        Some(Ok(state)) => LedState::Connected(state),
        _ => LedState::Disconnected,
    }
}

/// One step of the device loop of the tray program: the state it was last told of after
/// seeing `new_state`, and the state to tell it, if any (only a changed state).
pub open spec fn observe_step(previous: LedState, new_state: LedState) -> (LedState, Option<
    LedState,
>) {
    if new_state != previous {
        (new_state, Some(new_state))
    } else {
        (previous, None)
    }
}

/// The states that the tray program is told when the loop sees `states` one after the
/// other, having last told it `previous`.
pub open spec fn observed(previous: LedState, states: Seq<LedState>) -> Seq<LedState>
    decreases states.len(),
{
    if states.len() == 0 {
        Seq::empty()
    } else {
        let (next, told) = observe_step(previous, states[0]);
        match told {
            Some(state) => seq![state] + observed(next, states.drop_first()),
            None => observed(next, states.drop_first()),
        }
    }
}

/// Everything the tray program is told: `Disconnected` at start, the state of the first
/// connection attempt, then each later state that differs from the last one told.
pub open spec fn tray_notifications(first: LedState, later: Seq<LedState>) -> Seq<LedState> {
    seq![LedState::Disconnected, first] + observed(first, later)
}

/// Remembers the connection state that the tray program was last told of.
pub struct ConnectionMonitor {
    pub previous: LedState,
}

impl ConnectionMonitor {
    /// Starts out disconnected, which is also the first state the tray program is told.
    pub fn new() -> (r: Self)
        ensures
            r.previous == LedState::Disconnected,
    {
        ConnectionMonitor { previous: LedState::Disconnected }
    }

    /// Takes the state of the first connection attempt, which the tray program is always
    /// told, and returns it.
    pub fn start(&mut self, first: LedState) -> (r: LedState)
        ensures
            r == first,
            final(self).previous == first,
    {
        self.previous = first;
        first
    }

    /// Takes the latest connection state and returns it when the tray program has to be
    /// told, that is when it differs from the one it was last told.
    pub fn observe(&mut self, new_state: LedState) -> (r: Option<LedState>)
        ensures
            (final(self).previous, r) == observe_step(old(self).previous, new_state),
    {
        if new_state != self.previous {
            self.previous = new_state;
            Some(new_state)
        } else {
            None
        }
    }
}

/// Observing a state leaves the monitor remembering it, and the tray program is told of
/// it exactly when it differs from the state it was last told of: any change, from or to
/// disconnected or between two colours, is passed on.
pub proof fn lemma_observe_tells_every_change(previous: LedState, new_state: LedState)
    ensures
        observe_step(previous, new_state).0 == new_state,
        observe_step(previous, new_state).1 is Some <==> new_state != previous,
        observe_step(previous, new_state).1 matches Some(told) ==> told == new_state,
{
}

/// The states passed on after `previous` never repeat one another: the first differs from
/// `previous`, and each differs from the one before it.
pub proof fn lemma_observed_no_repeats(previous: LedState, states: Seq<LedState>)
    ensures
        observed(previous, states).len() > 0 ==> observed(previous, states)[0] != previous,
        forall|i: int|
            0 < i < observed(previous, states).len() ==> observed(previous, states)[i - 1]
                != #[trigger] observed(previous, states)[i],
    decreases states.len(),
{
    if states.len() > 0 {
        let (next, told) = observe_step(previous, states[0]);
        let rest = observed(next, states.drop_first());
        lemma_observed_no_repeats(next, states.drop_first());
        match told {
            Some(state) => {
                let all = seq![state] + rest;
                assert(observed(previous, states) == all);
                assert forall|i: int| 0 < i < all.len() implies all[i - 1] != #[trigger] all[i] by {
                    assert(all[i] == rest[i - 1]);
                    if i > 1 {
                        assert(all[i - 1] == rest[i - 2]);
                    }
                }
            },
            None => {},
        }
    }
}

/// The tray program is told `Disconnected`, then the state of the first connection
/// attempt; after that, no state is told twice in a row.
pub proof fn lemma_tray_notifications(first: LedState, later: Seq<LedState>)
    ensures
        tray_notifications(first, later)[0] == LedState::Disconnected,
        tray_notifications(first, later)[1] == first,
        forall|i: int|
            2 <= i < tray_notifications(first, later).len() ==> tray_notifications(first, later)[i
                - 1] != #[trigger] tray_notifications(first, later)[i],
{
    let all = tray_notifications(first, later);
    let obs = observed(first, later);
    lemma_observed_no_repeats(first, later);
    assert forall|i: int| 2 <= i < all.len() implies all[i - 1] != #[trigger] all[i] by {
        assert(all[i] == obs[i - 2]);
        if i > 2 {
            assert(all[i - 1] == obs[i - 3]);
        }
    }
}

/// Whether the device should be kept open after an attempt to set its state: a device
/// that failed to take a state is dropped and opened again.
pub fn keep_device_after_set(result: &Result<(), BusyLightError>) -> (r: bool)
    ensures
        r == result is Ok,
{
    result.is_ok()
}

/// The icons of the tray program.
#[derive(Debug, PartialEq, Eq, Clone, Copy, Structural)]
pub enum TrayIcon {
    BlackCircle,
    GreenCircle,
    YellowCircle,
    RedCircle,
    CrossMark,
}

/// The icon that shows a connection state.
pub fn tray_icon(state: LedState) -> (r: TrayIcon)
    ensures
        r == (match state {
            LedState::Connected(BusyLightState::Off) => TrayIcon::BlackCircle,
            LedState::Connected(BusyLightState::Green) => TrayIcon::GreenCircle,
            LedState::Connected(BusyLightState::Yellow) => TrayIcon::YellowCircle,
            LedState::Connected(BusyLightState::Red) => TrayIcon::RedCircle,
            LedState::Disconnected => TrayIcon::CrossMark,
        }),
{
    match state {
        LedState::Connected(BusyLightState::Off) => TrayIcon::BlackCircle,
        LedState::Connected(BusyLightState::Green) => TrayIcon::GreenCircle,
        LedState::Connected(BusyLightState::Yellow) => TrayIcon::YellowCircle,
        LedState::Connected(BusyLightState::Red) => TrayIcon::RedCircle,
        LedState::Disconnected => TrayIcon::CrossMark,
    }
}

/// The entries of the tray menu that can be chosen.
#[derive(Debug, PartialEq, Eq, Clone, Copy, Structural)]
pub enum TrayMenuItem {
    /// "Do not disturb".
    Red,
    /// "Concentrated".
    Yellow,
    /// "Casual".
    Green,
    /// "Off".
    Off,
    /// "Quit".
    Quit,
}

/// What choosing a tray menu entry does.
#[derive(Debug, PartialEq, Eq, Clone, Copy, Structural)]
pub enum TrayAction {
    /// Close the tray program.
    Quit,
    /// Ask the device loop to set the BusyLight to this state.
    SetState(BusyLightState),
}

/// The action of a tray menu entry.
pub fn menu_action(item: TrayMenuItem) -> (r: TrayAction)
    ensures
        r == (match item {
            TrayMenuItem::Red => TrayAction::SetState(BusyLightState::Red),
            TrayMenuItem::Yellow => TrayAction::SetState(BusyLightState::Yellow),
            TrayMenuItem::Green => TrayAction::SetState(BusyLightState::Green),
            TrayMenuItem::Off => TrayAction::SetState(BusyLightState::Off),
            TrayMenuItem::Quit => TrayAction::Quit,
        }),
{
    match item {
        TrayMenuItem::Red => TrayAction::SetState(BusyLightState::Red),
        TrayMenuItem::Yellow => TrayAction::SetState(BusyLightState::Yellow),
        TrayMenuItem::Green => TrayAction::SetState(BusyLightState::Green),
        TrayMenuItem::Off => TrayAction::SetState(BusyLightState::Off),
        TrayMenuItem::Quit => TrayAction::Quit,
    }
}

/// Whether the colour entries of the tray menu can be chosen: only while connected.
pub fn menu_enabled(state: LedState) -> (r: bool)
    ensures
        r == state is Connected,
{
    match state {
        LedState::Connected(_) => true,
        LedState::Disconnected => false,
    }
}


/// The byte of a state gives that state back, and only the bytes 0 to 3 stand for a state.
pub proof fn lemma_state_value_round_trip(state: BusyLightState, value: u8)
    ensures
        state_from_value(state_value(state)) == Ok::<BusyLightState, BusyLightError>(state),
        state_from_value(value) is Ok <==> value <= 3,
        state_from_value(value) matches Ok(s) ==> state_value(s) == value,
{
}

/// A feature report that holds the state byte, with or without the report id before it,
/// reads as that state; so does an input report with report id 3.
pub proof fn lemma_reports_read_state(state: BusyLightState, other: u8)
    ensures
        spec_parse_feature_report(1, seq![state_value(state), other]) == Ok::<
            BusyLightState,
            BusyLightError,
        >(state),
        spec_parse_feature_report(2, seq![other, state_value(state)]) == Ok::<
            BusyLightState,
            BusyLightError,
        >(state),
        spec_parse_input_report(2, seq![0x03u8, state_value(state)]) == Ok::<
            BusyLightState,
            BusyLightError,
        >(state),
{
}

/// Every entry of the device list is a BusyLight, and the list has no more entries than
/// there are HID devices.
pub proof fn lemma_device_infos_are_busylights(
    hid: Seq<HidDeviceInfo>,
    usb: Option<Seq<UsbDeviceInfo>>,
)
    ensures
        device_infos(hid, usb).len() <= hid.len(),
        forall|i: int|
            0 <= i < device_infos(hid, usb).len() ==> (#[trigger] device_infos(hid, usb)[i]).vendor_id
                == VID && device_infos(hid, usb)[i].product_id == PID,
    decreases hid.len(),
{
    if hid.len() > 0 {
        lemma_device_infos_are_busylights(hid.drop_last(), usb);
    }
}

/// The device list is empty exactly when no HID device is a BusyLight, that is when
/// opening the first BusyLight fails.
pub proof fn lemma_device_infos_empty(hid: Seq<HidDeviceInfo>, usb: Option<Seq<UsbDeviceInfo>>)
    ensures
        device_infos(hid, usb).len() == 0 <==> forall|j: int|
            0 <= j < hid.len() ==> !is_busylight(#[trigger] hid[j]),
    decreases hid.len(),
{
    if hid.len() > 0 {
        lemma_device_infos_empty(hid.drop_last(), usb);
        let rest = hid.drop_last();
        assert forall|j: int| 0 <= j < rest.len() implies rest[j] == hid[j] by {}
        if forall|j: int| 0 <= j < hid.len() ==> !is_busylight(#[trigger] hid[j]) {
            assert(!is_busylight(hid[hid.len() - 1]));
        }
    }
}

} // verus!
