# esp_circuits

Verified decision logic for a set of ESP32 breadboard circuits, and the
firmware around it.

- `src/` is the library, verified with Verus:
  - `simon`: the rules of the Simon memory game, with laws on rounds, mistakes and winning.
  - `http`, `lights`, `state_sync`, `rgb`: request routing and response building of the
    web server circuits, and the piecewise sending of a response.
  - `motion`, `button_led`: the motion alarm and the LED that follows a button.
  - `i2c_probe`: scanning an I2C bus and probing a device's transfer limits.
  - `buzzer`, `music`: the passive buzzer's volume and tone decisions, songs, and the
    order in which a tune is played.
  - `display`, `text`: the text the OLED screen shows, and decimal formatting.
  - `network`: the network stack's seed.
- `app/` is the firmware: hardware set-up, the async tasks and the loops that carry out
  the library's decisions on the ESP32's peripherals.
- `tests/` runs the library on concrete values.
