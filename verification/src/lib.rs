//! Verified core of the BusyLight: the NeoPixel SPI frame encoder, the button and LED
//! state machines of the firmware, the USB request logic, and the host-side report handling.

pub mod button;
pub mod crlf;
pub mod host;
pub mod led;
pub mod neopixel;
pub mod usb;
