//! The LED that follows a push button (the button and LED circuit).
use vstd::prelude::*;

verus! {

/// How often the button is read.
pub const BUTTON_POLL_MS: u64 = 50;

/// What to do with the LED after reading the button: the level to drive it
/// to, and whether that is a change worth reporting.
#[derive(PartialEq, Eq, Structural, Clone, Copy, Debug)]
pub struct LedUpdate {
    pub led_high: bool,
    pub changed: bool,
}

/// The LED takes the button's level; a change of the LED is reported.
pub fn follow_button(button_high: bool, led_high: bool) -> (update: LedUpdate)
    ensures
        update.led_high == button_high,
        update.changed == (button_high != led_high),
{
    LedUpdate { led_high: button_high, changed: button_high != led_high }
}

} // verus!
