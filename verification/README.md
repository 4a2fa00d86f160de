# esp32c3-airmouse

Firmware of a gyro air mouse on an ESP32-C3 board: the ICM-42670-P gyro
moves the cursor, tact switches click and scroll, and the mouse talks BLE HID
to the host.

- `src/` is the verified library: button debouncing and key repeat
  (`button`), the bookkeeping of the gyro bias calibration (`calibration`),
  the status LED decisions (`status_led`) and the HID report layout and report
  descriptor (`report`), each with its contracts and laws.
- `app/` is the firmware around it: peripheral drivers (GPIO, I2C IMU, WS2812
  LED, NimBLE HID), the floating-point cursor mapping and the main loop.
- `tests/` runs the library on concrete scenarios.
