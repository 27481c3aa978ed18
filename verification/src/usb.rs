//! The USB side of the firmware: the device version number, the HID requests and the
//! reaction to the USB bus state.

use vstd::prelude::*;
use crate::led::{LedEvent, LedModel, spec_off_color};
use crate::host::{BusyLightState, state_value};

verus! {

/// Whether `c` is one of the ASCII digits `0` to `9`.
pub open spec fn is_decimal_digit(c: char) -> bool {
    '0' <= c <= '9'
}

/// The number that a string of decimal digits spells.
pub open spec fn digits_value(ds: Seq<char>) -> int
    decreases ds.len(),
{
    if ds.len() == 0 {
        0
    } else {
        digits_value(ds.drop_last()) * 10 + (ds.last() as int - '0' as int)
    }
}

/// The digits of a decimal number written with an optional leading `+`.
pub open spec fn unsigned_digits(s: Seq<char>) -> Seq<char> {
    if s.len() > 0 && s[0] == '+' {
        s.drop_first()
    } else {
        s
    }
}

/// The value of `s` read as an unsigned decimal number that fits in a `u16`: an optional
/// `+` followed by one or more digits, and nothing else. `None` for any other string.
pub open spec fn parse_decimal_u16(s: Seq<char>) -> Option<u16> {
    let ds = unsigned_digits(s);
    if ds.len() > 0 && (forall|i: int| 0 <= i < ds.len() ==> is_decimal_digit(#[trigger] ds[i]))
        && digits_value(ds) <= u16::MAX {
        Some(digits_value(ds) as u16)
    } else {
        None
    }
}

/// `u16::from_str_radix(s, 10)`, with the error dropped. The standard library documents
/// that it accepts exactly an optional `+` followed by at least one decimal digit, and fails
/// when the value does not fit in a `u16`; this contract states that.
#[verifier::external_body]
fn u16_from_decimal(s: &str) -> (r: Option<u16>)
    ensures
        r == parse_decimal_u16(s@),
{
    u16::from_str_radix(s, 10).ok()
}

/// The binary-coded decimal form of a number below 100: tens in the high nibble, units in
/// the low nibble.
pub open spec fn bcd_two(v: int) -> int {
    (v / 10) * 16 + v % 10
}

/// Reads a decimal number below 100 from `s` and returns it as two BCD digits.
pub fn str_to_two(s: &str) -> (r: u16)
    requires
        parse_decimal_u16(s@) matches Some(v) && v <= 99,
    ensures
        r == bcd_two(parse_decimal_u16(s@).unwrap() as int),
{
    let value = match u16_from_decimal(s) {
        Some(value) => value,
        None => 0,
    };
    assert(((value / 10) << 4u16) | (value % 10) == (value / 10) * 16 + value % 10) by (bit_vector)
        requires
            value <= 99,
    ;
    ((value / 10) << 4) | (value % 10)
}

/// Reads a single decimal digit from `s`.
pub fn str_to_one(s: &str) -> (r: u16)
    requires
        parse_decimal_u16(s@) matches Some(v) && v <= 9,
    ensures
        r == parse_decimal_u16(s@).unwrap(),
{
    match u16_from_decimal(s) {
        Some(value) => value,
        None => 0,
    }
}

/// The `bcdDevice` field of the USB device descriptor: major version in the high byte (two
/// BCD digits), minor and patch version in the two nibbles of the low byte.
pub open spec fn bcd_device_version(major: int, minor: int, patch: int) -> int {
    bcd_two(major) * 256 + minor * 16 + patch
}

/// The `bcdDevice` field for the version `major.minor.patch`, each part given as the
/// decimal string of the package version.
pub fn usb_bcd_device_version(major: &str, minor: &str, patch: &str) -> (r: u16)
    requires
        parse_decimal_u16(major@) matches Some(v) && v <= 99,
        parse_decimal_u16(minor@) matches Some(v) && v <= 9,
        parse_decimal_u16(patch@) matches Some(v) && v <= 9,
    ensures
        r == bcd_device_version(
            parse_decimal_u16(major@).unwrap() as int,
            parse_decimal_u16(minor@).unwrap() as int,
            parse_decimal_u16(patch@).unwrap() as int,
        ),
{
    let two = str_to_two(major);
    let minor_v = str_to_one(minor);
    let patch_v = str_to_one(patch);
    assert((two << 8u16) | (minor_v << 4u16) | patch_v == two * 256 + minor_v * 16 + patch_v)
        by (bit_vector)
        requires
            two <= 0x99,
            minor_v <= 9,
            patch_v <= 9,
    ;
    (two << 8) | (minor_v << 4) | patch_v
}

/// Answers the HID "get report" requests of the host with the LED state.
pub struct HidRequestHandler;

impl HidRequestHandler {
    pub fn new() -> (r: Self) {
        HidRequestHandler
    }

    /// Writes `led_state` as the one-byte report into `buf` and returns its length; `None`
    /// when `buf` has no room.
    pub fn get_report(&mut self, led_state: u8, buf: &mut [u8]) -> (r: Option<usize>)
        ensures
            old(buf)@.len() == 0 ==> r is None && final(buf)@ == old(buf)@,
            old(buf)@.len() > 0 ==> r == Some(1usize) && final(buf)@ == old(buf)@.update(
                0,
                led_state,
            ),
    {
        if buf.len() == 0 {
            return None;
        }
        buf[0] = led_state;
        Some(1)
    }
}

/// The LED event that a HID output report asks for. `read_len` is the number of bytes the
/// host sent; the first byte selects off (0), green (1), yellow (2) or red (3).
pub open spec fn spec_report_event(read_len: usize, report: Seq<u8>) -> Option<LedEvent> {
    if read_len >= 1 && report.len() >= 1 {
        if report[0] == 0 {
            Some(LedEvent::Off)
        } else if report[0] == 1 {
            Some(LedEvent::Green)
        } else if report[0] == 2 {
            Some(LedEvent::Yellow)
        } else if report[0] == 3 {
            Some(LedEvent::Red)
        } else {
            None
        }
    } else {
        None
    }
}

/// Decides which LED event a received HID output report asks for, if any.
pub fn hid_report_event(read_len: usize, report: &[u8]) -> (r: Option<LedEvent>)
    ensures
        r == spec_report_event(read_len, report@),
{
    if read_len >= 1 && report.len() >= 1 {
        match report[0] {
            0 => Some(LedEvent::Off),
            1 => Some(LedEvent::Green),
            2 => Some(LedEvent::Yellow),
            3 => Some(LedEvent::Red),
            _ => None,
        }
    } else {
        None
    }
}

/// What the USB event handler remembers of the bus.
pub struct UsbLinkModel {
    pub was_already_connected: bool,
    pub suspended: bool,
    pub addressed: bool,
    pub was_on_previously: bool,
}

impl UsbLinkModel {
    /// The host is connected and awake.
    pub open spec fn should_be_on(self) -> bool {
        self.addressed && !self.suspended
    }

    /// The event to send to the LEDs, if any: only once the host was connected at least
    /// once, and only when the connection state differs from the one last passed on.
    pub open spec fn pending_event(self) -> Option<LedEvent> {
        if self.was_already_connected && self.should_be_on() != self.was_on_previously {
            if self.should_be_on() {
                Some(LedEvent::On)
            } else {
                Some(LedEvent::Off)
            }
        } else {
            None
        }
    }

    /// The state after an update in which `sent` tells whether an event was tried
    /// (`Some`) and whether the channel took it.
    pub open spec fn after_update(self, sent: Option<bool>) -> UsbLinkModel {
        UsbLinkModel {
            was_already_connected: self.was_already_connected || self.should_be_on(),
            was_on_previously: if sent != Some(false) {
                self.should_be_on()
            } else {
                self.was_on_previously
            },
            ..self
        }
    }
}

/// Follows the USB bus state and switches the LEDs off while the host is gone or asleep,
/// and on again when it comes back. It only does so after the host was connected at least
/// once, so a device that is powered without a host keeps its LEDs.
///
/// Each bus callback records the change and returns the LED event to send, if any. The
/// caller offers that event to the LED channel and reports with
/// [`UsbEventHandler::finish_update`] whether an event was offered and whether the channel
/// took it.
pub struct UsbEventHandler {
    // Only activate after the PC was connected at least once
    was_already_connected: bool,
    suspended: bool,
    addressed: bool,
    was_on_previously: bool,
}

impl UsbEventHandler {
    pub closed spec fn model(&self) -> UsbLinkModel {
        UsbLinkModel {
            was_already_connected: self.was_already_connected,
            suspended: self.suspended,
            addressed: self.addressed,
            was_on_previously: self.was_on_previously,
        }
    }
}

impl View for UsbEventHandler {
    type V = UsbLinkModel;

    open spec fn view(&self) -> UsbLinkModel {
        self.model()
    }
}

impl UsbEventHandler {
    /// A handler that has not seen a host yet.
    pub fn new() -> (r: Self)
        ensures
            r@ == (UsbLinkModel {
                was_already_connected: false,
                suspended: false,
                addressed: false,
                was_on_previously: false,
            }),
    {
        UsbEventHandler {
            was_already_connected: false,
            suspended: false,
            addressed: false,
            was_on_previously: false,
        }
    }

    /// The LED event that passes the current connection state on, if one is due.
    pub fn pending_event(&self) -> (r: Option<LedEvent>)
        ensures
            r == self@.pending_event(),
    {
        let should_be_on = self.addressed && !self.suspended;
        if self.was_already_connected && (should_be_on != self.was_on_previously) {
            if should_be_on {
                Some(LedEvent::On)
            } else {
                Some(LedEvent::Off)
            }
        } else {
            None
        }
    }

    /// Records the outcome of an update: `sent` is `None` when no event was offered, else
    /// whether the channel took it. An event that the channel refused is due again on the
    /// next update.
    pub fn finish_update(&mut self, sent: Option<bool>)
        ensures
            final(self)@ == old(self)@.after_update(sent),
    {
        let should_be_on = self.addressed && !self.suspended;
        if should_be_on {
            self.was_already_connected = true;
        }
        let success = match sent {
            Some(ok) => ok,
            None => true,
        };
        if success {
            self.was_on_previously = should_be_on;
        }
    }

    /// The bus was suspended (`true`) or resumed (`false`). Returns the LED event to send.
    pub fn suspended(&mut self, suspended: bool) -> (r: Option<LedEvent>)
        ensures
            final(self)@ == (UsbLinkModel { suspended, ..old(self)@ }),
            r == final(self)@.pending_event(),
    {
        self.suspended = suspended;
        self.pending_event()
    }

    /// The host assigned an address to the device. Returns the LED event to send.
    pub fn addressed(&mut self, _addr: u8) -> (r: Option<LedEvent>)
        ensures
            final(self)@ == (UsbLinkModel { addressed: true, ..old(self)@ }),
            r == final(self)@.pending_event(),
    {
        self.addressed = true;
        self.pending_event()
    }

    /// The bus was reset. Returns the LED event to send.
    pub fn reset(&mut self) -> (r: Option<LedEvent>)
        ensures
            final(self)@ == (UsbLinkModel { suspended: false, addressed: false, ..old(self)@ }),
            r == final(self)@.pending_event(),
    {
        self.suspended = false;
        self.addressed = false;
        self.pending_event()
    }
}

/// The two BCD digits of a number below 100 are its tens and its units.
pub proof fn lemma_bcd_two_digits(v: int)
    requires
        0 <= v <= 99,
    ensures
        bcd_two(v) / 16 == v / 10,
        bcd_two(v) % 16 == v % 10,
        0 <= bcd_two(v) <= 0x99,
{
}

/// Each nibble of the `bcdDevice` field is one decimal digit of the version: tens and
/// units of the major version, then the minor version, then the patch version.
pub proof fn lemma_bcd_device_version_digits(major: int, minor: int, patch: int)
    requires
        0 <= major <= 99,
        0 <= minor <= 9,
        0 <= patch <= 9,
    ensures
        bcd_device_version(major, minor, patch) / 4096 == major / 10,
        (bcd_device_version(major, minor, patch) / 256) % 16 == major % 10,
        (bcd_device_version(major, minor, patch) / 16) % 16 == minor,
        bcd_device_version(major, minor, patch) % 16 == patch,
        0 <= bcd_device_version(major, minor, patch) <= 0x9999,
{
    let t = major / 10;
    let u = major % 10;
    let r = bcd_device_version(major, minor, patch);
    assert(r == t * 4096 + u * 256 + minor * 16 + patch);
    assert(r / 4096 == t && (r / 256) % 16 == u && (r / 16) % 16 == minor && r % 16 == patch)
        by (nonlinear_arith)
        requires
            r == t * 4096 + u * 256 + minor * 16 + patch,
            0 <= t <= 9,
            0 <= u <= 9,
            0 <= minor <= 9,
            0 <= patch <= 9,
    ;
}

/// The colour that the LEDs show for a state the host sets.
pub open spec fn state_color(state: BusyLightState) -> (u8, u8, u8) {
    match state {
        BusyLightState::Off => spec_off_color(),
        BusyLightState::Green => (0u8, 255u8, 0u8),
        BusyLightState::Yellow => (255u8, 100u8, 0u8),
        BusyLightState::Red => (255u8, 0u8, 0u8),
    }
}

/// A state byte that the host sends in an output report turns, whatever the LEDs showed
/// before, into the LED event that makes them show the colour of that state.
pub proof fn lemma_report_sets_color(m: LedModel, state: BusyLightState)
    ensures
        ({
            let event = spec_report_event(1, seq![state_value(state)]);
            &&& event is Some
            &&& m.handle(event.unwrap()).shown_color() == state_color(state)
        }),
{
}

/// No LED event is sent before the host was connected at least once.
pub proof fn lemma_no_event_before_first_connection(m: UsbLinkModel)
    requires
        !m.was_already_connected,
    ensures
        m.pending_event() is None,
{
}

/// The event passes the connection state on: `On` when the host is connected and awake,
/// `Off` when it went away or asleep.
pub proof fn lemma_event_follows_connection(m: UsbLinkModel)
    ensures
        m.pending_event() == Some(LedEvent::On) ==> m.should_be_on(),
        m.pending_event() == Some(LedEvent::Off) ==> !m.should_be_on(),
        m.was_already_connected && m.was_on_previously && !m.should_be_on() ==> m.pending_event()
            == Some(LedEvent::Off),
        m.was_already_connected && !m.was_on_previously && m.should_be_on() ==> m.pending_event()
            == Some(LedEvent::On),
{
}

/// A host that goes to sleep or away turns the LEDs off, and once that event went through,
/// the host coming back turns them on again.
pub proof fn lemma_sleep_and_wake(m: UsbLinkModel)
    requires
        m.was_already_connected,
        m.was_on_previously,
        m.should_be_on(),
    ensures
        (UsbLinkModel { suspended: true, ..m }).pending_event() == Some(LedEvent::Off),
        (UsbLinkModel { suspended: false, addressed: false, ..m }).pending_event() == Some(
            LedEvent::Off,
        ),
        ({
            let asleep = (UsbLinkModel { suspended: true, ..m }).after_update(Some(true));
            (UsbLinkModel { suspended: false, ..asleep }).pending_event() == Some(LedEvent::On)
        }),
{
}

/// A call on the USB event handler.
pub enum UsbCall {
    /// [`UsbEventHandler::suspended`].
    Suspended(bool),
    /// [`UsbEventHandler::addressed`].
    Addressed,
    /// [`UsbEventHandler::reset`].
    Reset,
    /// [`UsbEventHandler::finish_update`].
    Finish(Option<bool>),
}

/// What a call does to the handler's state, and the LED event it returns: the bus
/// callbacks as their contracts state them, `finish_update` returning nothing.
pub open spec fn usb_step(m: UsbLinkModel, call: UsbCall) -> (UsbLinkModel, Option<LedEvent>) {
    match call {
        UsbCall::Suspended(suspended) => {
            let n = UsbLinkModel { suspended, ..m };
            (n, n.pending_event())
        },
        UsbCall::Addressed => {
            let n = UsbLinkModel { addressed: true, ..m };
            (n, n.pending_event())
        },
        UsbCall::Reset => {
            let n = UsbLinkModel { suspended: false, addressed: false, ..m };
            (n, n.pending_event())
        },
        UsbCall::Finish(sent) => (m.after_update(sent), None),
    }
}

/// The state after `calls`, and the LED events that the calls returned.
pub open spec fn usb_run(m: UsbLinkModel, calls: Seq<UsbCall>) -> (UsbLinkModel, Seq<LedEvent>)
    decreases calls.len(),
{
    if calls.len() == 0 {
        (m, Seq::empty())
    } else {
        let (next, event) = usb_step(m, calls[0]);
        let (last, events) = usb_run(next, calls.drop_first());
        (
            last,
            match event {
                Some(e) => seq![e] + events,
                None => events,
            },
        )
    }
}

/// The state of a new handler.
pub open spec fn usb_initial() -> UsbLinkModel {
    UsbLinkModel {
        was_already_connected: false,
        suspended: false,
        addressed: false,
        was_on_previously: false,
    }
}

/// The LEDs were only ever told "on" after the host had been connected.
pub open spec fn usb_inv(m: UsbLinkModel) -> bool {
    m.was_on_previously ==> m.was_already_connected
}

/// No `finish_update` of `calls` comes while the host is addressed and awake.
pub open spec fn no_finish_while_awake(m: UsbLinkModel, calls: Seq<UsbCall>) -> bool
    decreases calls.len(),
{
    calls.len() == 0 || {
        &&& !(calls[0] is Finish && m.should_be_on())
        &&& no_finish_while_awake(usb_step(m, calls[0]).0, calls.drop_first())
    }
}

/// A new handler satisfies [`usb_inv`], and every sequence of calls keeps it, whatever the
/// channel answered.
pub proof fn lemma_usb_inv(m: UsbLinkModel, calls: Seq<UsbCall>)
    requires
        usb_inv(m),
    ensures
        usb_inv(usb_run(m, calls).0),
        usb_inv(usb_initial()),
    decreases calls.len(),
{
    if calls.len() > 0 {
        lemma_usb_inv(usb_step(m, calls[0]).0, calls.drop_first());
    }
}

/// A new handler sends nothing up to and including the call after which the host is first
/// addressed and awake: over any calls in which no `finish_update` comes while the host is
/// addressed and awake, no call returns an event, and the host does not count as connected
/// yet.
pub proof fn lemma_quiet_until_first_connection(m: UsbLinkModel, calls: Seq<UsbCall>)
    requires
        !m.was_already_connected,
        !m.was_on_previously,
        no_finish_while_awake(m, calls),
    ensures
        usb_run(m, calls).1 == Seq::<LedEvent>::empty(),
        !usb_run(m, calls).0.was_already_connected,
        !usb_run(m, calls).0.was_on_previously,
    decreases calls.len(),
{
    if calls.len() > 0 {
        let (next, event) = usb_step(m, calls[0]);
        assert(event is None);
        lemma_quiet_until_first_connection(next, calls.drop_first());
    }
}

/// Once an update went through (nothing to send, or the channel took the event), the next
/// update with the bus unchanged has nothing to send; an event that the channel refused is
/// tried again on the next update.
pub proof fn lemma_update_settles(m: UsbLinkModel, sent: Option<bool>)
    requires
        (sent is Some) == (m.pending_event() is Some),
    ensures
        sent != Some(false) ==> m.after_update(sent).pending_event() is None,
        sent == Some(false) ==> m.after_update(sent).pending_event() == m.pending_event(),
{
}

} // verus!
