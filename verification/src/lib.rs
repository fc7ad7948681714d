//! Verified decision logic for a set of ESP32 breadboard circuits.
use vstd::prelude::*;

pub mod simon;
pub mod text;
pub mod display;
pub mod http;
pub mod lights;
pub mod state_sync;
pub mod rgb;
pub mod motion;
pub mod button_led;
pub mod i2c_probe;
pub mod buzzer;
pub mod music;
pub mod network;

verus! {
} // verus!
