//! Core logic of a gyro air mouse: button debouncing and key repeat,
//! gyro calibration bookkeeping, status indication and HID report framing.
pub mod button;
pub mod calibration;
pub mod status_led;
pub mod report;
