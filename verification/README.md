# card25

Firmware logic of the Card25 badge (a CH32V003 board with an 8 x 9 LED
matrix, a chain of six WS2812 LEDs and four buttons), verified with Verus.

`src/` is the library. Every function in it carries a contract that Verus
proves:

- `time`: instants on a wrapping 32-bit tick counter, durations and periodic
  tickers.
- `drivers`: the multiplexing timer logic (matrix PWM values, button
  debouncing, the time base), the framebuffer with its gamma table, the
  WS2812 colour encoding, the high score store and the USB keyboard
  descriptors and reports.
- `util`: the LFSR random generator, decimal digits, the scrolling text
  font, the fading LED filter and small synchronisation helpers.
- `apps`: the animations (message, snowfall, sparkle, random pulse, fire,
  snowball, hue wheel) and the games (Tetris, Snake, Pong, Four in a Row)
  with the game menu and the score display, each as a state machine that
  is polled with the current time and the pending button event.

Hardware state that the firmware keeps in statics (the framebuffer, the
button state, the random generator, the LED filter) is passed to the
library explicitly.

`app/main.rs` is the firmware around the library: clock setup, the timer
interrupt that performs the register writes the library decides, the SPI
transfer to the LED chain, flash programming and the main loop.

`tests/` exercises the library on concrete values.
