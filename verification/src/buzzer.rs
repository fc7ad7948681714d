//! The decisions of the passive buzzer driver: its volume control, the duty
//! resolution for a tone, and the errors it reports. The driver itself (LEDC
//! timer, channel and pins) carries these decisions out.
use vstd::prelude::*;

verus! {

/// How the volume pin is driven.
#[derive(PartialEq, Eq, Structural, Clone, Copy, Debug)]
pub enum VolumeType {
    /// The volume pin is only switched on or off.
    OnOff,
    /// The volume pin carries a PWM duty cycle.
    Duty,
}

/// Why fading a channel's duty cycle was refused.
#[derive(PartialEq, Eq, Structural, Clone, Copy, Debug)]
pub enum FadeError {
    StartDuty,
    EndDuty,
    DutyRange,
    Duration,
}

/// Why configuring a PWM channel failed.
#[derive(PartialEq, Eq, Structural, Clone, Copy, Debug)]
pub enum ChannelError {
    /// The duty cycle is out of range.
    Duty,
    /// The channel's timer is not configured.
    Timer,
    /// The channel is not configured.
    Channel,
    /// The fade parameters are invalid.
    Fade(FadeError),
}

/// Why configuring a PWM timer failed.
#[derive(PartialEq, Eq, Structural, Clone, Copy, Debug)]
pub enum TimerError {
    /// No valid divisor exists for the frequency.
    Divisor,
    /// The source frequency is unknown.
    FrequencyUnset,
}

/// Errors of the buzzer.
#[derive(PartialEq, Eq, Structural, Clone, Copy, Debug)]
pub enum Error {
    Channel(ChannelError),
    Timer(TimerError),
    /// The buzzer has no volume control.
    VolumeNotSet,
    /// A volume above 100.
    VolumeOutOfRange,
    /// Tone and timing lists of different lengths.
    LengthMismatch,
}

impl From<ChannelError> for Error {
    fn from(error: ChannelError) -> (e: Self) {
        Error::Channel(error)
    }
}

impl vstd::std_specs::convert::FromSpecImpl<ChannelError> for Error {
    open spec fn obeys_from_spec() -> bool {
        true
    }

    open spec fn from_spec(error: ChannelError) -> Self {
        Error::Channel(error)
    }
}

impl From<TimerError> for Error {
    fn from(error: TimerError) -> (e: Self) {
        Error::Timer(error)
    }
}

impl vstd::std_specs::convert::FromSpecImpl<TimerError> for Error {
    open spec fn obeys_from_spec() -> bool {
        true
    }

    open spec fn from_spec(error: TimerError) -> Self {
        Error::Timer(error)
    }
}

/// The volume control of a buzzer: how its pin is driven and the duty level.
#[derive(PartialEq, Eq, Structural, Clone, Copy, Debug)]
pub struct Volume {
    pub volume_type: VolumeType,
    pub level: u8,
}

/// The duty cycle, in percent, that a tone plays at without a volume control.
pub const DEFAULT_DUTY_PCT: u8 = 50;

/// The duty level a volume control starts with.
pub const DEFAULT_VOLUME_LEVEL: u8 = 50;

/// The PWM frequency of a duty-cycle volume control.
pub const VOLUME_PWM_HZ: u32 = 20_000;

/// The duty resolution, in bits, of a duty-cycle volume control.
pub const VOLUME_DUTY_BITS: u32 = 11;

/// The finest duty resolution a tone is played with.
pub const MAX_TONE_DUTY_BITS: u32 = 14;

/// What setting the volume asks of the hardware.
#[derive(PartialEq, Eq, Structural, Clone, Copy, Debug)]
pub enum VolumeCommand {
    /// Drive the volume pin as a plain output, high or low.
    DrivePin { high: bool },
    /// Give the volume pin a duty cycle, configuring the timer first (at
    /// 20 kHz and 11 bits) when it is not configured yet.
    SetDuty { configure_timer: bool, duty_pct: u8 },
}

/// What playing a frequency asks of the hardware.
#[derive(PartialEq, Eq, Structural, Clone, Copy, Debug)]
pub enum PlayCommand {
    /// Silence the buzzer.
    Mute,
    /// Configure the timer to the frequency with this duty resolution, and the
    /// channel to this duty cycle.
    Tone { frequency: u32, duty_bits: u32, duty_pct: u8 },
}

/// The integer base-2 logarithm, with 0 and 1 both giving 0.
pub open spec fn log2_floor(n: nat) -> nat
    decreases n,
{
    if n <= 1 {
        0
    } else {
        1 + log2_floor(n / 2)
    }
}

/// The duty resolution for a tone: the base-2 logarithm of the ratio of the
/// timer's clock to the tone's frequency, at most 14 bits.
pub open spec fn tone_duty_bits(clock_hz: nat, frequency: nat) -> nat {
    let l = log2_floor(clock_hz / frequency);
    if l < MAX_TONE_DUTY_BITS {
        l
    } else {
        MAX_TONE_DUTY_BITS as nat
    }
}

/// The duty resolution for a tone of `frequency` from a timer clocked at
/// `clock_hz`: the number of times the ratio can be halved while it is above
/// one, at most 14.
pub fn duty_bits_for(clock_hz: u32, frequency: u32) -> (bits: u32)
    requires
        frequency > 0,
    ensures
        bits == tone_duty_bits(clock_hz as nat, frequency as nat),
        bits <= MAX_TONE_DUTY_BITS,
{
    let mut result: u32 = 0;
    let mut value: u32 = clock_hz / frequency;
    let ghost ratio = (clock_hz / frequency) as nat;
    while value > 1 && result < MAX_TONE_DUTY_BITS
        invariant
            result <= MAX_TONE_DUTY_BITS,
            result + log2_floor(value as nat) == log2_floor(ratio),
        decreases value,
    {
        assert(value >> 1u32 == value / 2) by (bit_vector);
        value = value >> 1;
        result = result + 1;
    }
    result
}

/// The buzzer's settings that its decisions depend on.
#[derive(PartialEq, Eq, Structural, Clone, Copy, Debug)]
pub struct BuzzerModel {
    pub volume: Option<Volume>,
}

/// The effect of setting the volume to `level`: the new settings and the
/// command, or the error.
pub open spec fn set_volume_spec(model: BuzzerModel, level: u8, timer_configured: bool) -> (
    BuzzerModel,
    Result<VolumeCommand, Error>,
) {
    match model.volume {
        None => (model, Err(Error::VolumeNotSet)),
        Some(v) => match v.volume_type {
            VolumeType::OnOff => (model, Ok(VolumeCommand::DrivePin { high: level != 0 })),
            VolumeType::Duty => if level <= 99 {
                (
                    BuzzerModel { volume: Some(Volume { level, ..v }) },
                    Ok(VolumeCommand::SetDuty { configure_timer: !timer_configured, duty_pct: level }),
                )
            } else if level == 100 {
                (model, Ok(VolumeCommand::DrivePin { high: true }))
            } else {
                (model, Err(Error::VolumeOutOfRange))
            },
        },
    }
}

/// The duty cycle a tone is played at: the volume level, or 50 percent
/// without a volume control.
pub open spec fn tone_duty_pct(model: BuzzerModel) -> u8 {
    match model.volume {
        Some(v) => v.level,
        None => DEFAULT_DUTY_PCT,
    }
}

impl BuzzerModel {
    /// A buzzer without volume control.
    pub fn new() -> (model: Self)
        ensures
            model.volume is None,
    {
        BuzzerModel { volume: None }
    }

    /// Adds a volume control of the given type, starting at level 50.
    pub fn with_volume(self, volume_type: VolumeType) -> (model: Self)
        ensures
            model.volume == Some(Volume { volume_type, level: DEFAULT_VOLUME_LEVEL }),
    {
        BuzzerModel { volume: Some(Volume { volume_type, level: DEFAULT_VOLUME_LEVEL }) }
    }

    /// Sets the volume. Without volume control it fails. An on/off control
    /// switches the pin on for any level but 0. A duty control takes levels up
    /// to 99 as its duty cycle (and remembers them), drives the pin fully on at
    /// 100, and refuses anything above.
    pub fn set_volume(&mut self, level: u8, timer_configured: bool) -> (result: Result<
        VolumeCommand,
        Error,
    >)
        ensures
            (*final(self), result) == set_volume_spec(*old(self), level, timer_configured),
    {
        match self.volume {
            None => Err(Error::VolumeNotSet),
            Some(v) => match v.volume_type {
                VolumeType::OnOff => Ok(VolumeCommand::DrivePin { high: level != 0 }),
                VolumeType::Duty => {
                    if level <= 99 {
                        self.volume = Some(Volume { volume_type: v.volume_type, level });
                        Ok(VolumeCommand::SetDuty { configure_timer: !timer_configured, duty_pct: level })
                    } else if level == 100 {
                        Ok(VolumeCommand::DrivePin { high: true })
                    } else {
                        Err(Error::VolumeOutOfRange)
                    }
                },
            },
        }
    }

    /// Plays a frequency from a timer clocked at `clock_hz`: frequency 0
    /// silences the buzzer; any other is played with the duty resolution of
    /// `duty_bits_for` and the volume's duty cycle.
    pub fn play(&self, frequency: u32, clock_hz: u32) -> (command: PlayCommand)
        ensures
            frequency == 0 ==> command == PlayCommand::Mute,
            frequency != 0 ==> command == (PlayCommand::Tone {
                frequency,
                duty_bits: tone_duty_bits(clock_hz as nat, frequency as nat) as u32,
                duty_pct: tone_duty_pct(*self),
            }),
    {
        if frequency == 0 {
            return PlayCommand::Mute;
        }
        let duty_bits = duty_bits_for(clock_hz, frequency);
        let duty_pct = match self.volume {
            Some(v) => v.level,
            None => DEFAULT_DUTY_PCT,
        };
        PlayCommand::Tone { frequency, duty_bits, duty_pct }
    }
}

/// A volume control of either type keeps its type, and only a duty control
/// set to a level below 100 changes its level.
pub proof fn lemma_volume_level(model: BuzzerModel, level: u8, timer_configured: bool)
    requires
        model.volume is Some,
    ensures
        ({
            let (after, result) = set_volume_spec(model, level, timer_configured);
            &&& after.volume is Some
            &&& after.volume.unwrap().volume_type == model.volume.unwrap().volume_type
            &&& after.volume.unwrap().level != model.volume.unwrap().level ==> (
                model.volume.unwrap().volume_type == VolumeType::Duty && level <= 99
                    && after.volume.unwrap().level == level)
            &&& result is Err <==> (model.volume.unwrap().volume_type == VolumeType::Duty && level
                > 100)
        }),
{
}

/// A tone's duty resolution is the largest number of bits, up to 14, whose
/// power of two does not exceed the ratio of clock to frequency (when the
/// ratio is at least 2).
pub proof fn lemma_duty_bits_bound(clock_hz: nat, frequency: nat)
    requires
        frequency > 0,
        clock_hz / frequency >= 2,
    ensures
        1 <= tone_duty_bits(clock_hz, frequency) <= MAX_TONE_DUTY_BITS,
        vstd::arithmetic::power2::pow2(tone_duty_bits(clock_hz, frequency)) <= clock_hz / frequency,
{
    lemma_log2_floor(clock_hz / frequency);
    let l = log2_floor(clock_hz / frequency);
    if l > MAX_TONE_DUTY_BITS {
        vstd::arithmetic::power2::lemma_pow2_strictly_increases(MAX_TONE_DUTY_BITS as nat, l);
    }
}

/// `2^log2_floor(n) <= n < 2^(log2_floor(n) + 1)` for positive `n`.
pub proof fn lemma_log2_floor(n: nat)
    requires
        n >= 1,
    ensures
        vstd::arithmetic::power2::pow2(log2_floor(n)) <= n,
        n < vstd::arithmetic::power2::pow2(log2_floor(n) + 1),
        n >= 2 ==> log2_floor(n) >= 1,
    decreases n,
{
    vstd::arithmetic::power2::lemma_pow2_unfold(log2_floor(n) + 1);
    if n >= 2 {
        lemma_log2_floor(n / 2);
        vstd::arithmetic::power2::lemma_pow2_unfold(log2_floor(n));
        vstd::arithmetic::power2::lemma_pow2_unfold(log2_floor(n / 2) + 1);
    } else {
        vstd::arithmetic::power2::lemma2_to64();
    }
}

/// Setting the volume, case by case: without a volume control it fails and
/// changes nothing; an on/off control drives its pin high exactly for a level
/// other than 0 and keeps its settings; a duty control takes a level up to 99
/// as its duty cycle and remembers it (configuring the timer only when it is
/// not configured), drives its pin fully on at 100 without remembering it,
/// and refuses anything above 100, changing nothing.
pub proof fn lemma_set_volume_cases(model: BuzzerModel, level: u8, timer_configured: bool)
    ensures
        ({
            let (after, result) = set_volume_spec(model, level, timer_configured);
            &&& model.volume is None ==> after == model && result == Err::<VolumeCommand, Error>(
                Error::VolumeNotSet,
            )
            &&& (model.volume matches Some(v) && v.volume_type == VolumeType::OnOff) ==> {
                &&& after == model
                &&& result == Ok::<VolumeCommand, Error>(VolumeCommand::DrivePin { high: level != 0 })
            }
            &&& (model.volume matches Some(v) && v.volume_type == VolumeType::Duty) ==> {
                &&& level < 100 ==> after.volume == Some(
                    Volume { volume_type: VolumeType::Duty, level },
                ) && result == Ok::<VolumeCommand, Error>(
                    VolumeCommand::SetDuty { configure_timer: !timer_configured, duty_pct: level },
                )
                &&& level == 100 ==> after == model && result == Ok::<VolumeCommand, Error>(
                    VolumeCommand::DrivePin { high: true },
                )
                &&& level > 100 ==> after == model && result == Err::<VolumeCommand, Error>(
                    Error::VolumeOutOfRange,
                )
            }
        }),
{
}

/// A tone is played at the duty cycle of the volume's level, whatever the
/// type of the volume control, and at 50 percent without one.
pub proof fn lemma_tone_duty(model: BuzzerModel)
    ensures
        model.volume matches Some(v) ==> tone_duty_pct(model) == v.level,
        model.volume is None ==> tone_duty_pct(model) == 50,
{
}

/// After a duty volume control is set to a level below 100, tones play at
/// that level; a fresh volume control of either type plays them at 50.
pub proof fn lemma_volume_then_tone(volume_type: VolumeType, level: u8, timer_configured: bool)
    ensures
        tone_duty_pct(BuzzerModel { volume: Some(Volume { volume_type, level: 50 }) }) == 50,
        level < 100 ==> tone_duty_pct(
            set_volume_spec(
                BuzzerModel { volume: Some(Volume { volume_type: VolumeType::Duty, level: 50 }) },
                level,
                timer_configured,
            ).0,
        ) == level,
{
}

/// The duty resolution of a tone is the largest number of bits, up to 14,
/// whose power of two does not exceed the ratio of clock to frequency, and 0
/// when the ratio is below 2.
pub proof fn lemma_duty_bits_is_largest(clock_hz: nat, frequency: nat)
    requires
        frequency > 0,
    ensures
        clock_hz / frequency < 2 ==> tone_duty_bits(clock_hz, frequency) == 0,
        clock_hz / frequency >= 2 ==> vstd::arithmetic::power2::pow2(
            tone_duty_bits(clock_hz, frequency),
        ) <= clock_hz / frequency,
        tone_duty_bits(clock_hz, frequency) < 14 ==> clock_hz / frequency
            < vstd::arithmetic::power2::pow2(tone_duty_bits(clock_hz, frequency) + 1),
        tone_duty_bits(clock_hz, frequency) <= 14,
{
    let r = clock_hz / frequency;
    if r >= 2 {
        lemma_duty_bits_bound(clock_hz, frequency);
        lemma_log2_floor(r);
    } else if r == 1 {
        lemma_log2_floor(r);
    } else {
        assert(log2_floor(0) == 0);
        vstd::arithmetic::power2::lemma2_to64();
    }
}

} // verus!
