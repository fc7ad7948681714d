use esp_circuits::button_led::{follow_button, LedUpdate};
use esp_circuits::motion::{MotionAction, MotionAlarm, MotionNotice};
use esp_circuits::simon::{end_of_game_blink, first_pressed, Blink, PressOutcome, SimonGame, SEQUENCE_LENGTH};

fn words() -> Vec<u32> {
    (0..SEQUENCE_LENGTH as u32).map(|i| i * 7 + 1).collect()
}

#[test]
fn simon_sequence_from_words() {
    let game = SimonGame::new(&words());
    let expected: Vec<u8> = words().iter().map(|w| (w % 3) as u8).collect();
    assert_eq!(game.sequence(), expected);
    assert_eq!(game.round_length(), 1);
    assert_eq!(game.shown(), vec![expected[0]]);
}

#[test]
fn simon_full_game_is_won() {
    let mut game = SimonGame::new(&words());
    let sequence = game.sequence();
    for round in 1..=SEQUENCE_LENGTH {
        assert_eq!(game.round_length(), round);
        assert_eq!(game.shown(), sequence[..round].to_vec());
        for k in 0..round {
            assert_eq!(game.expected(), sequence[k]);
            let outcome = game.press(sequence[k] as usize);
            if k + 1 < round {
                assert_eq!(outcome, PressOutcome::Correct);
            } else if round < SEQUENCE_LENGTH {
                assert_eq!(outcome, PressOutcome::RoundComplete);
            } else {
                assert_eq!(outcome, PressOutcome::Won);
            }
        }
    }
    assert_eq!(game.round_length(), 1);
    let fresh: Vec<u32> = (0..SEQUENCE_LENGTH as u32).map(|i| i).collect();
    game.new_sequence(&fresh);
    assert_eq!(game.sequence(), fresh.iter().map(|w| (w % 3) as u8).collect::<Vec<u8>>());
    assert_eq!(game.round_length(), 1);
}

#[test]
fn simon_wrong_press_restarts_same_sequence() {
    let mut game = SimonGame::new(&words());
    let sequence = game.sequence();
    assert_eq!(game.press(sequence[0] as usize), PressOutcome::RoundComplete);
    assert_eq!(game.round_length(), 2);
    assert_eq!(game.press(sequence[0] as usize), PressOutcome::Correct);
    let wrong = (sequence[1] as usize + 1) % 3;
    assert_eq!(game.press(wrong), PressOutcome::GameOver);
    assert_eq!(game.round_length(), 1);
    assert_eq!(game.sequence(), sequence);
    assert_eq!(game.press(7), PressOutcome::GameOver);
}

#[test]
fn simon_buttons_and_blinks() {
    assert_eq!(first_pressed(&[false, true, true]), Some(1));
    assert_eq!(first_pressed(&[true, false, false]), Some(0));
    assert_eq!(first_pressed(&[false, false, false]), None);
    assert_eq!(end_of_game_blink(PressOutcome::GameOver), Some(Blink { times: 3, on_ms: 200, off_ms: 200 }));
    assert_eq!(end_of_game_blink(PressOutcome::Won), Some(Blink { times: 3, on_ms: 150, off_ms: 150 }));
    assert_eq!(end_of_game_blink(PressOutcome::Correct), None);
}

#[test]
fn motion_alarm_holds_and_stops() {
    let mut alarm = MotionAlarm::new(0);
    assert_eq!(alarm.step(false, 100), MotionAction { buzzer: None, notice: None });
    assert_eq!(alarm.step(false, 201), MotionAction { buzzer: Some(false), notice: None });
    assert_eq!(alarm.step(true, 300), MotionAction { buzzer: Some(true), notice: Some(MotionNotice::MotionDetected) });
    assert_eq!(alarm.step(true, 350), MotionAction { buzzer: Some(true), notice: None });
    assert_eq!(alarm.step(false, 550), MotionAction { buzzer: None, notice: None });
    assert!(alarm.buzzing);
    assert_eq!(alarm.step(false, 551), MotionAction { buzzer: Some(false), notice: Some(MotionNotice::MotionStopped) });
    assert!(!alarm.buzzing);
    assert_eq!(alarm.step(false, 600), MotionAction { buzzer: Some(false), notice: None });
}

#[test]
fn led_follows_button() {
    assert_eq!(follow_button(true, false), LedUpdate { led_high: true, changed: true });
    assert_eq!(follow_button(true, true), LedUpdate { led_high: true, changed: false });
    assert_eq!(follow_button(false, true), LedUpdate { led_high: false, changed: true });
}
