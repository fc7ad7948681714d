use esp_circuits::buzzer::{
    duty_bits_for, BuzzerModel, ChannelError, Error, PlayCommand, TimerError, VolumeCommand, VolumeType,
};
use esp_circuits::display::{count_frame_due_ms, count_text, reading_text, uptime_text};
use esp_circuits::i2c_probe::{BusScan, TransferProbe};
use esp_circuits::music::{song, song_tone, whole_note_ms, PlayStep, Playback, ToneValue};
use esp_circuits::text::push_decimal;

#[test]
fn bus_scan_collects_acknowledging_addresses() {
    let mut scan = BusScan::new();
    let mut probed = Vec::new();
    while let Some(address) = scan.next_address() {
        probed.push(address);
        scan.record(address == 0x3c || address == 0x50 || address == 127);
    }
    assert_eq!(probed, (1..=127).collect::<Vec<u8>>());
    assert_eq!(scan.found(), vec![0x3c, 0x50, 127]);
    scan.record(true);
    assert_eq!(scan.found(), vec![0x3c, 0x50, 127]);
}

#[test]
fn transfer_probe_stops_at_first_failure() {
    let mut probe = TransferProbe::new();
    let mut tried = Vec::new();
    while let Some(size) = probe.next_size() {
        tried.push(size);
        probe.record(size <= 32);
    }
    assert_eq!(tried, (1..=33).collect::<Vec<usize>>());
    assert_eq!(probe.limit(), 32);

    let mut probe = TransferProbe::new();
    probe.record(false);
    assert_eq!(probe.limit(), 0);
    assert_eq!(probe.next_size(), None);

    let mut probe = TransferProbe::new();
    let mut count = 0;
    while let Some(_) = probe.next_size() {
        probe.record(true);
        count += 1;
    }
    assert_eq!(count, 1024);
    assert_eq!(probe.limit(), 1024);
}

#[test]
fn decimal_text() {
    let mut out = Vec::new();
    push_decimal(&mut out, 0);
    assert_eq!(out, b"0".to_vec());
    let mut out = b"x".to_vec();
    push_decimal(&mut out, u64::MAX);
    assert_eq!(out, format!("x{}", u64::MAX).into_bytes());
    assert_eq!(count_text(1234), b"1234".to_vec());
    assert_eq!(count_text(u32::MAX), format!("{}", u32::MAX).into_bytes());
}

#[test]
fn uptime_and_reading_screens() {
    assert_eq!(uptime_text(0), b"Up: 00:00".to_vec());
    assert_eq!(uptime_text(65), b"Up: 01:05".to_vec());
    assert_eq!(uptime_text(6000), b"Up: 100:00".to_vec());
    for secs in [0u64, 9, 59, 60, 599, 3599, 3600, 12345, u64::MAX] {
        assert_eq!(uptime_text(secs), format!("Up: {:02}:{:02}", secs / 60, secs % 60).into_bytes());
    }
    assert_eq!(reading_text(125, 23, 41), b"Up: 02:05\nTemp: 23C\nHum:  41%".to_vec());
    assert_eq!(reading_text(0, 0, 100), b"Up: 00:00\nTemp: 0C\nHum:  100%".to_vec());
    assert_eq!(count_frame_due_ms(0), 500);
    assert_eq!(count_frame_due_ms(3), 2000);
}

#[test]
fn buzzer_volume_control() {
    let mut model = BuzzerModel::new();
    assert_eq!(model.set_volume(10, false), Err(Error::VolumeNotSet));

    let mut model = BuzzerModel::new().with_volume(VolumeType::OnOff);
    assert_eq!(model.set_volume(0, false), Ok(VolumeCommand::DrivePin { high: false }));
    assert_eq!(model.set_volume(200, false), Ok(VolumeCommand::DrivePin { high: true }));
    assert_eq!(model.volume.unwrap().level, 50);

    let mut model = BuzzerModel::new().with_volume(VolumeType::Duty);
    assert_eq!(model.set_volume(30, false), Ok(VolumeCommand::SetDuty { configure_timer: true, duty_pct: 30 }));
    assert_eq!(model.volume.unwrap().level, 30);
    assert_eq!(model.set_volume(99, true), Ok(VolumeCommand::SetDuty { configure_timer: false, duty_pct: 99 }));
    assert_eq!(model.set_volume(100, true), Ok(VolumeCommand::DrivePin { high: true }));
    assert_eq!(model.volume.unwrap().level, 99);
    assert_eq!(model.set_volume(101, true), Err(Error::VolumeOutOfRange));
    assert_eq!(model.volume.unwrap().level, 99);
}

#[test]
fn buzzer_play_commands() {
    let model = BuzzerModel::new();
    assert_eq!(model.play(0, 80_000_000), PlayCommand::Mute);
    assert_eq!(
        model.play(440, 80_000_000),
        PlayCommand::Tone { frequency: 440, duty_bits: 14, duty_pct: 50 }
    );
    let mut model = BuzzerModel::new().with_volume(VolumeType::Duty);
    let _ = model.set_volume(20, true);
    assert_eq!(
        model.play(2_000_000, 80_000_000),
        PlayCommand::Tone { frequency: 2_000_000, duty_bits: 5, duty_pct: 20 }
    );
    assert_eq!(duty_bits_for(80_000_000, 40_000_001), 0);
    assert_eq!(duty_bits_for(80_000_000, 40_000_000), 1);
    assert_eq!(duty_bits_for(80_000_000, 1), 14);
    assert_eq!(duty_bits_for(1024, 1), 10);
    assert_eq!(duty_bits_for(1023, 1), 9);
    assert_eq!(Error::from(ChannelError::Duty), Error::Channel(ChannelError::Duty));
    assert_eq!(Error::from(TimerError::Divisor), Error::Timer(TimerError::Divisor));
}

#[test]
fn songs_and_playback() {
    assert_eq!(whole_note_ms(120), 24_000);
    assert_eq!(song_tone(120, 494, 16), ToneValue { frequency: 494, duration: 1500 });
    let tones = song(105, &[(494, 16), (0, 8)]);
    assert_eq!(tones, vec![ToneValue { frequency: 494, duration: 1714 }, ToneValue { frequency: 0, duration: 3428 }]);

    let mut playback = Playback::from_song(&tones);
    let mut steps = Vec::new();
    loop {
        let step = playback.next_step();
        steps.push(step);
        if step == PlayStep::Done {
            break;
        }
    }
    assert_eq!(
        steps,
        vec![
            PlayStep::Play(494),
            PlayStep::Wait(1714),
            PlayStep::Mute,
            PlayStep::Play(0),
            PlayStep::Wait(3428),
            PlayStep::Mute,
            PlayStep::Mute,
            PlayStep::Done
        ]
    );
    assert_eq!(playback.next_step(), PlayStep::Done);

    assert_eq!(Playback::from_pairs(&[1, 2], &[3]).err(), Some(Error::LengthMismatch));
    let mut playback = Playback::from_pairs(&[261], &[500]).ok().unwrap();
    assert_eq!(playback.next_step(), PlayStep::Play(261));
    assert_eq!(playback.next_step(), PlayStep::Wait(500));
    assert_eq!(playback.next_step(), PlayStep::Mute);
    assert_eq!(playback.next_step(), PlayStep::Mute);
    assert_eq!(playback.next_step(), PlayStep::Done);
    let mut empty = Playback::from_song(&[]);
    assert_eq!(empty.next_step(), PlayStep::Mute);
    assert_eq!(empty.next_step(), PlayStep::Done);
}
