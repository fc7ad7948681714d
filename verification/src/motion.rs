//! The motion alarm (the motion sensor circuit): the buzzer sounds while the
//! sensor sees motion and goes quiet once no motion was seen for more than
//! 200 milliseconds.
use vstd::prelude::*;

verus! {

/// How long the buzzer keeps sounding after the last motion.
pub const MOTION_HOLD_MS: u64 = 200;

/// A message the alarm reports when it changes.
#[derive(PartialEq, Eq, Structural, Clone, Copy, Debug)]
pub enum MotionNotice {
    /// Motion was seen while the buzzer was quiet.
    MotionDetected,
    /// No motion was seen for the hold time while the buzzer sounded.
    MotionStopped,
}

/// What one look at the sensor asks of the hardware: the level to drive the
/// buzzer to (if any), and the message to report (if any).
#[derive(PartialEq, Eq, Structural, Clone, Copy, Debug)]
pub struct MotionAction {
    pub buzzer: Option<bool>,
    pub notice: Option<MotionNotice>,
}

/// The milliseconds from `since` to `now`, or zero if `now` is earlier.
pub open spec fn elapsed_ms(since: u64, now: u64) -> int {
    if now >= since {
        now - since
    } else {
        0
    }
}

/// The alarm's state: whether the buzzer sounds, and when motion was last seen.
#[derive(PartialEq, Eq, Structural, Clone, Copy, Debug)]
pub struct MotionAlarm {
    pub buzzing: bool,
    pub last_motion_ms: u64,
}

/// One look at the sensor at time `now_ms`: the next state and the action.
/// Motion drives the buzzer high and restarts the hold time; without motion
/// the buzzer is driven low once more than the hold time has passed since the
/// last motion; otherwise nothing happens.
pub open spec fn motion_step(alarm: MotionAlarm, motion: bool, now_ms: u64) -> (MotionAlarm, MotionAction) {
    if motion {
        (
            MotionAlarm { buzzing: true, last_motion_ms: now_ms },
            MotionAction {
                buzzer: Some(true),
                notice: if alarm.buzzing { None } else { Some(MotionNotice::MotionDetected) },
            },
        )
    } else if elapsed_ms(alarm.last_motion_ms, now_ms) > MOTION_HOLD_MS {
        (
            MotionAlarm { buzzing: false, ..alarm },
            MotionAction {
                buzzer: Some(false),
                notice: if alarm.buzzing { Some(MotionNotice::MotionStopped) } else { None },
            },
        )
    } else {
        (alarm, MotionAction { buzzer: None, notice: None })
    }
}

impl MotionAlarm {
    /// A quiet alarm, started at `now_ms`.
    pub fn new(now_ms: u64) -> (alarm: Self)
        ensures
            !alarm.buzzing,
            alarm.last_motion_ms == now_ms,
    {
        MotionAlarm { buzzing: false, last_motion_ms: now_ms }
    }

    /// One look at the sensor at time `now_ms`. Motion drives the buzzer high
    /// and restarts the hold time; without motion the buzzer is driven low once
    /// more than the hold time has passed since the last motion.
    pub fn step(&mut self, motion: bool, now_ms: u64) -> (action: MotionAction)
        ensures
            (*final(self), action) == motion_step(*old(self), motion, now_ms),
    {
        if motion {
            let was_buzzing = self.buzzing;
            self.last_motion_ms = now_ms;
            self.buzzing = true;
            MotionAction {
                buzzer: Some(true),
                notice: if was_buzzing {
                    None
                } else {
                    Some(MotionNotice::MotionDetected)
                },
            }
        } else if now_ms >= self.last_motion_ms && now_ms - self.last_motion_ms > MOTION_HOLD_MS {
            let was_buzzing = self.buzzing;
            self.buzzing = false;
            MotionAction {
                buzzer: Some(false),
                notice: if was_buzzing {
                    Some(MotionNotice::MotionStopped)
                } else {
                    None
                },
            }
        } else {
            MotionAction { buzzer: None, notice: None }
        }
    }
}

/// The buzzer follows the alarm: whenever a step changes whether the alarm
/// sounds, it drives the buzzer to the new state, and it never drives the
/// buzzer against it.
pub proof fn lemma_buzzer_follows_alarm(alarm: MotionAlarm, motion: bool, now_ms: u64)
    ensures
        ({
            let (after, action) = motion_step(alarm, motion, now_ms);
            &&& after.buzzing != alarm.buzzing ==> action.buzzer == Some(after.buzzing)
            &&& action.buzzer matches Some(level) ==> level == after.buzzing
        }),
{
}

/// The buzzer keeps sounding for the whole hold time after the last motion:
/// a step without motion within the hold time changes nothing.
pub proof fn lemma_hold_time(alarm: MotionAlarm, now_ms: u64)
    requires
        alarm.buzzing,
        alarm.last_motion_ms <= now_ms <= alarm.last_motion_ms + MOTION_HOLD_MS,
    ensures
        motion_step(alarm, false, now_ms).0 == alarm,
        motion_step(alarm, false, now_ms).1.buzzer is None,
{
}

/// A change is reported exactly when the alarm starts or stops sounding.
pub proof fn lemma_notices(alarm: MotionAlarm, motion: bool, now_ms: u64)
    ensures
        ({
            let (after, action) = motion_step(alarm, motion, now_ms);
            &&& action.notice == Some(MotionNotice::MotionDetected) <==> (!alarm.buzzing && after.buzzing)
            &&& action.notice == Some(MotionNotice::MotionStopped) <==> (alarm.buzzing && !after.buzzing)
        }),
{
}

/// After motion seen at time `t`, a look without motion at a later time
/// `t2` leaves the buzzer sounding and untouched while `t2` is at most 200 ms
/// after `t`, and drives it low and reports the stop once `t2` is later.
pub proof fn lemma_motion_then_quiet(alarm: MotionAlarm, t: u64, t2: u64)
    requires
        t <= t2,
    ensures
        ({
            let (seen, first) = motion_step(alarm, true, t);
            let (after, second) = motion_step(seen, false, t2);
            &&& seen.buzzing
            &&& first.buzzer == Some(true)
            &&& t2 - t <= 200 ==> after.buzzing && second.buzzer is None && second.notice is None
            &&& t2 - t > 200 ==> !after.buzzing && second.buzzer == Some(false) && second.notice
                == Some(MotionNotice::MotionStopped)
        }),
{
}

} // verus!
