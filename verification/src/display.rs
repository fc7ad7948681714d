//! The text that the OLED screen circuits show.
use vstd::prelude::*;
use crate::text::{
    all_digits, ascii, decimal, decimal_padded, decimal_value, is_ascii_bytes, lemma_ascii_concat,
    lemma_decimal_padded_value, push_decimal, push_decimal_2, push_literal,
};

verus! {

/// The time between two frames of the counting screen.
pub const COUNT_FRAME_MS: u64 = 500;

/// The time between two readings of the temperature screen.
pub const READING_PERIOD_MS: u64 = 1000;

/// The uptime line: `Up: MM:SS`, minutes and seconds each at least two digits.
pub open spec fn uptime_line(uptime_secs: nat) -> Seq<u8> {
    ascii("Up: "@) + decimal_padded(uptime_secs / 60, 2) + ascii(":"@) + decimal_padded(
        uptime_secs % 60,
        2,
    )
}

/// The three lines of the temperature screen: the uptime, the temperature in
/// degrees Celsius and the relative humidity in percent.
pub open spec fn reading_screen(uptime_secs: nat, temperature: nat, humidity: nat) -> Seq<u8> {
    uptime_line(uptime_secs) + ascii("\nTemp: "@) + decimal(temperature) + ascii("C\nHum:  "@)
        + decimal(humidity) + ascii("%"@)
}

/// The uptime line for an uptime in whole seconds.
pub fn uptime_text(uptime_secs: u64) -> (text: Vec<u8>)
    ensures
        text@ == uptime_line(uptime_secs as nat),
        is_ascii_bytes(text@),
{
    let mins = uptime_secs / 60;
    let secs = uptime_secs % 60;
    let mut text: Vec<u8> = Vec::new();
    proof {
        reveal_strlit("Up: ");
        reveal_strlit(":");
    }
    push_literal(&mut text, "Up: ");
    push_decimal_2(&mut text, mins);
    push_literal(&mut text, ":");
    push_decimal_2(&mut text, secs);
    assert(text@ =~= uptime_line(uptime_secs as nat));
    proof {
        lemma_decimal_padded_value(mins as nat, 2);
        lemma_decimal_padded_value(secs as nat, 2);
        let a = ascii("Up: "@);
        let b = decimal_padded(mins as nat, 2);
        let c = ascii(":"@);
        let d = decimal_padded(secs as nat, 2);
        assert(is_ascii_bytes(a));
        assert(is_ascii_bytes(c));
        lemma_ascii_concat(a, b);
        lemma_ascii_concat(a + b, c);
        lemma_ascii_concat(a + b + c, d);
    }
    text
}

/// The temperature screen for an uptime and a sensor reading.
pub fn reading_text(uptime_secs: u64, temperature: u8, humidity: u8) -> (text: Vec<u8>)
    ensures
        text@ == reading_screen(uptime_secs as nat, temperature as nat, humidity as nat),
        is_ascii_bytes(text@),
{
    let mut text = uptime_text(uptime_secs);
    proof {
        reveal_strlit("\nTemp: ");
        reveal_strlit("C\nHum:  ");
        reveal_strlit("%");
    }
    push_literal(&mut text, "\nTemp: ");
    push_decimal(&mut text, temperature as u64);
    push_literal(&mut text, "C\nHum:  ");
    push_decimal(&mut text, humidity as u64);
    push_literal(&mut text, "%");
    assert(text@ =~= reading_screen(uptime_secs as nat, temperature as nat, humidity as nat));
    proof {
        lemma_decimal_padded_value(temperature as nat, 0);
        lemma_decimal_padded_value(humidity as nat, 0);
        let u = uptime_line(uptime_secs as nat);
        let a = ascii("\nTemp: "@);
        let t = decimal(temperature as nat);
        let b = ascii("C\nHum:  "@);
        let h = decimal(humidity as nat);
        let c = ascii("%"@);
        assert(is_ascii_bytes(a));
        assert(is_ascii_bytes(b));
        assert(is_ascii_bytes(c));
        assert(decimal_padded(temperature as nat, 0) == t);
        assert(decimal_padded(humidity as nat, 0) == h);
        lemma_ascii_concat(u, a);
        lemma_ascii_concat(u + a, t);
        lemma_ascii_concat(u + a + t, b);
        lemma_ascii_concat(u + a + t + b, h);
        lemma_ascii_concat(u + a + t + b + h, c);
    }
    text
}

/// The counting screen shows the frame number in decimal.
pub fn count_text(frame: u32) -> (text: Vec<u8>)
    ensures
        text@ == decimal(frame as nat),
        is_ascii_bytes(text@),
{
    let mut text: Vec<u8> = Vec::new();
    push_decimal(&mut text, frame as u64);
    assert(text@ =~= decimal(frame as nat));
    proof {
        lemma_decimal_padded_value(frame as nat, 0);
        assert(decimal_padded(frame as nat, 0) == decimal(frame as nat));
    }
    text
}

/// The frames of the counting screen: frame `i` is shown `500 * (i + 1)`
/// milliseconds after the start, for `i` below `u32::MAX`.
pub fn count_frame_due_ms(frame: u32) -> (due: u64)
    requires
        frame < u32::MAX,
    ensures
        due == COUNT_FRAME_MS * (frame + 1),
{
    COUNT_FRAME_MS * (frame as u64 + 1)
}

/// The uptime line reads back as the uptime: the minutes field times 60
/// plus the seconds field, and the seconds field is exactly two digits below 60.
pub proof fn lemma_uptime_reads_back(uptime_secs: nat)
    ensures
        decimal_value(decimal_padded(uptime_secs / 60, 2)) * 60 + decimal_value(
            decimal_padded(uptime_secs % 60, 2),
        ) == uptime_secs,
        decimal_padded(uptime_secs % 60, 2).len() == 2,
        decimal_value(decimal_padded(uptime_secs % 60, 2)) < 60,
{
    lemma_decimal_padded_value(uptime_secs / 60, 2);
    lemma_decimal_padded_value(uptime_secs % 60, 2);
}

/// True when `line` is `Up: M:SS` for digit fields whose minutes times 60
/// plus seconds is `uptime_secs`, with at least two minute digits and
/// seconds below 60.
pub open spec fn reads_as_uptime(line: Seq<u8>, uptime_secs: nat) -> bool {
    exists|m: Seq<u8>, s: Seq<u8>|
        #![trigger decimal_value(m), decimal_value(s)]
        line == ascii("Up: "@) + m + ascii(":"@) + s && m.len() >= 2 && s.len() == 2 && all_digits(m)
            && all_digits(s) && decimal_value(m) * 60 + decimal_value(s) == uptime_secs
            && decimal_value(s) < 60
}

/// The uptime line shows the whole uptime, however long: minutes (at least
/// two digits) times 60 plus seconds (two digits, below 60).
pub proof fn lemma_uptime_line_shows_uptime(uptime_secs: nat)
    ensures
        reads_as_uptime(uptime_line(uptime_secs), uptime_secs),
{
    let m = decimal_padded(uptime_secs / 60, 2);
    let s = decimal_padded(uptime_secs % 60, 2);
    lemma_decimal_padded_value(uptime_secs / 60, 2);
    lemma_decimal_padded_value(uptime_secs % 60, 2);
    assert(decimal_value(m) * 60 + decimal_value(s) == uptime_secs);
    assert(uptime_line(uptime_secs) == ascii("Up: "@) + m + ascii(":"@) + s);
}

/// The temperature screen is the uptime line of the whole uptime, then
/// `Temp: `, the temperature's digits and `C`, then `Hum:  `, the
/// humidity's digits and `%`, on three lines.
pub proof fn lemma_reading_screen_shows_reading(uptime_secs: nat, temperature: nat, humidity: nat)
    ensures
        exists|line: Seq<u8>, t: Seq<u8>, h: Seq<u8>|
            #![trigger decimal_value(t), decimal_value(h), reads_as_uptime(line, uptime_secs)]
            reading_screen(uptime_secs, temperature, humidity) == line + ascii("\nTemp: "@) + t
                + ascii("C\nHum:  "@) + h + ascii("%"@) && reads_as_uptime(line, uptime_secs)
                && all_digits(t) && all_digits(h) && t.len() >= 1 && h.len() >= 1 && decimal_value(t)
                == temperature && decimal_value(h) == humidity,
{
    let line = uptime_line(uptime_secs);
    let t = decimal(temperature);
    let h = decimal(humidity);
    lemma_uptime_line_shows_uptime(uptime_secs);
    crate::text::lemma_decimal_value(temperature);
    crate::text::lemma_decimal_value(humidity);
    crate::text::lemma_decimal_shape(temperature);
    crate::text::lemma_decimal_shape(humidity);
    assert(reading_screen(uptime_secs, temperature, humidity) == line + ascii("\nTemp: "@) + t
        + ascii("C\nHum:  "@) + h + ascii("%"@));
}

} // verus!
