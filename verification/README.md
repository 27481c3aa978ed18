# busylight

The verified core of the BusyLight, an indicator that shows coworkers whether you are busy
(green: casual, yellow: concentrated, red: do not disturb).

- `src/neopixel.rs`: the SPI byte stream that drives the WS2812B LEDs, with the proof that
  every LED of a frame decodes to the colour the frame was made for.
- `src/button.rs`: the debounced button as a state machine that asks its driver for one wait
  at a time and reports short-press sequences and long presses.
- `src/led.rs`: the LED controller: colour cycling, on/off, and the colours set over USB.
- `src/usb.rs`: the USB device version in BCD, HID reports and requests, and the reaction to
  the USB bus state.
- `src/host.rs`: the host side: reports, device selection, the device list, and the
  connection state of the tray program.
- `src/crlf.rs`: `\r\n` line endings for the serial console.
- `app/`: the command-line tool and the drivers that connect pins, timers, channels, USB and
  the HID backend of the host to the library.

The library uses no outside crate. The tests and the firmware drivers in `app/` pass LED
events through rtic-sync channels; `critical-section` is named with its `std` feature so that
those channels have a critical section to use off the microcontroller.
