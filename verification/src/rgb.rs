//! The web server that sets the colour of an RGB LED (the RGB LED circuit).
//! The page sends `GET /?color=RRGGBB`; each channel of the colour becomes a
//! PWM duty cycle in percent.
use vstd::prelude::*;
use crate::http::{
    find, first_occurrence, html_page, html_response, no_content, no_content_response,
    read_request, request_text,
};
use crate::text::{ascii, literal_bytes};

verus! {

/// The value of a hexadecimal digit (`0`-`9`, `a`-`f`, `A`-`F`).
pub open spec fn hex_digit_value(b: u8) -> nat {
    if 48 <= b <= 57 {
        (b - 48) as nat
    } else if 97 <= b <= 102 {
        (b - 87) as nat
    } else {
        (b - 55) as nat
    }
}

/// True when the byte is a hexadecimal digit.
pub open spec fn is_hex_digit(b: u8) -> bool {
    (48 <= b <= 57) || (97 <= b <= 102) || (65 <= b <= 70)
}

/// True when every byte is a hexadecimal digit.
pub open spec fn all_hex(s: Seq<u8>) -> bool {
    forall|i: int| 0 <= i < s.len() ==> #[trigger] is_hex_digit(s[i])
}

/// The value of a sequence of hexadecimal digits.
pub open spec fn hex_value(s: Seq<u8>) -> nat
    decreases s.len(),
{
    if s.len() == 0 {
        0
    } else {
        hex_value(s.drop_last()) * 16 + hex_digit_value(s.last())
    }
}

/// The digits of a number text: the text without a leading `+`.
pub open spec fn unsigned_digits(s: Seq<u8>) -> Seq<u8> {
    if s.len() > 0 && s[0] == 43 {
        s.drop_first()
    } else {
        s
    }
}

/// A `u32` read from hexadecimal text as `u32::from_str_radix(_, 16)` reads
/// it: an optional `+`, then at least one hexadecimal digit, and a value
/// that fits.
pub open spec fn parse_hex_u32_spec(s: Seq<u8>) -> Option<u32> {
    let d = unsigned_digits(s);
    if d.len() > 0 && all_hex(d) && hex_value(d) <= u32::MAX {
        Some(hex_value(d) as u32)
    } else {
        None
    }
}

/// A colour channel (0 to 255) as a duty cycle in percent, rounded down.
pub open spec fn channel_percent(channel: nat) -> nat {
    channel * 100 / 255
}

/// The duty cycles, in percent, of the three LEDs.
#[derive(PartialEq, Eq, Structural, Clone, Copy, Debug)]
pub struct ColorDuty {
    pub red: u8,
    pub green: u8,
    pub blue: u8,
}

/// The duty cycles for a colour `0xRRGGBB`.
pub open spec fn color_duty_spec(color: u32) -> ColorDuty {
    ColorDuty {
        red: channel_percent((color / 65536) as nat % 256) as u8,
        green: channel_percent((color / 256) as nat % 256) as u8,
        blue: channel_percent(color as nat % 256) as u8,
    }
}

/// What a request asks of the server.
#[derive(PartialEq, Eq, Structural, Clone, Copy, Debug)]
pub enum ColorRequest {
    /// Set the LEDs to these duty cycles; answered with no content.
    Update(ColorDuty),
    /// Anything else; answered with the page.
    Page,
    /// The six bytes after `GET /?color=` end inside a multi-byte character:
    /// cutting the request text there is not possible.
    SplitsCharacter,
}

/// The text that starts a colour update.
pub open spec fn color_prefix() -> Seq<u8> {
    ascii("GET /?color="@)
}

/// The request a received text makes. The six bytes after the first
/// `GET /?color=` are read as a hexadecimal colour; when fewer than six
/// follow, or they are not a colour, the request asks for the page.
pub open spec fn color_request(received: Seq<u8>) -> ColorRequest {
    let request = request_text(received);
    match first_occurrence(request, color_prefix()) {
        None => ColorRequest::Page,
        Some(start) => {
            let hex_start = start + color_prefix().len();
            if request.len() < hex_start + 6 {
                ColorRequest::Page
            } else if !vstd::utf8::is_char_boundary(request, hex_start + 6) {
                ColorRequest::SplitsCharacter
            } else {
                match parse_hex_u32_spec(request.subrange(hex_start, hex_start + 6)) {
                    Some(color) => ColorRequest::Update(color_duty_spec(color)),
                    None => ColorRequest::Page,
                }
            }
        },
    }
}

/// The value of a hexadecimal digit, if the byte is one.
pub fn hex_digit(b: u8) -> (v: Option<u8>)
    ensures
        match v {
            Some(d) => is_hex_digit(b) && d == hex_digit_value(b) && d < 16,
            None => !is_hex_digit(b),
        },
{
    if 48 <= b && b <= 57 {
        Some(b - 48)
    } else if 97 <= b && b <= 102 {
        Some(b - 87)
    } else if 65 <= b && b <= 70 {
        Some(b - 55)
    } else {
        None
    }
}

/// A longer hexadecimal text is worth at least as much as its beginning.
proof fn lemma_hex_value_prefix(s: Seq<u8>, k: int)
    requires
        0 <= k <= s.len(),
    ensures
        hex_value(s.subrange(0, k)) <= hex_value(s),
    decreases s.len(),
{
    if k < s.len() {
        assert(s.drop_last().subrange(0, k) =~= s.subrange(0, k));
        lemma_hex_value_prefix(s.drop_last(), k);
    } else {
        assert(s.subrange(0, k) =~= s);
    }
}

/// Reads a `u32` from hexadecimal text as `u32::from_str_radix(_, 16)` does.
pub fn parse_hex_u32(s: &[u8]) -> (value: Option<u32>)
    ensures
        value == parse_hex_u32_spec(s@),
{
    let mut i: usize = 0;
    if s.len() > 0 && s[0] == 43 {
        i = 1;
    }
    let ghost d = unsigned_digits(s@);
    assert(d =~= s@.subrange(i as int, s@.len() as int));
    if i == s.len() {
        return None;
    }
    let mut acc: u64 = 0;
    while i < s.len()
        invariant
            d == s@.subrange(unsigned_start(s@), s@.len() as int),
            unsigned_start(s@) <= i <= s@.len(),
            all_hex(s@.subrange(unsigned_start(s@), i as int)),
            acc == hex_value(s@.subrange(unsigned_start(s@), i as int)),
            acc <= u32::MAX,
        decreases s@.len() - i,
    {
        let ghost start = unsigned_start(s@);
        let ghost before = s@.subrange(start, i as int);
        let ghost after = s@.subrange(start, i + 1);
        assert(after.drop_last() =~= before);
        assert(after.last() == s@[i as int]);
        match hex_digit(s[i]) {
            Some(v) => {
                acc = acc * 16 + v as u64;
                i = i + 1;
                assert(all_hex(after)) by {
                    assert forall|k: int| 0 <= k < after.len() implies #[trigger] is_hex_digit(after[k]) by {
                        if k < before.len() {
                            assert(after[k] == before[k]);
                        }
                    }
                }
                assert(acc == hex_value(after));
                if acc > 0xffff_ffff {
                    assert(all_hex(d) ==> hex_value(d) > u32::MAX) by {
                        if all_hex(d) {
                            lemma_hex_value_prefix(d, after.len() as int);
                            assert(d.subrange(0, after.len() as int) =~= after);
                        }
                    }
                    assert(d == unsigned_digits(s@));
                    assert(parse_hex_u32_spec(s@) is None);
                    return None;
                }
            },
            None => {
                proof {
                    assert(!all_hex(d)) by {
                        assert(d[i - start] == s@[i as int]);
                    }
                }
                return None;
            },
        }
    }
    assert(s@.subrange(unsigned_start(s@), i as int) =~= d);
    Some(acc as u32)
}

/// Where the digits start: after a leading `+`, if there is one.
pub open spec fn unsigned_start(s: Seq<u8>) -> int {
    if s.len() > 0 && s[0] == 43 {
        1
    } else {
        0
    }
}

/// A colour channel (0 to 255) as a duty cycle in percent, rounded down.
pub fn percent_of_channel(channel: u32) -> (pct: u8)
    requires
        channel <= 255,
    ensures
        pct == channel_percent(channel as nat),
        pct <= 100,
{
    (channel * 100 / 255) as u8
}

/// The duty cycles for a colour `0xRRGGBB`.
pub fn color_duty(color: u32) -> (duty: ColorDuty)
    ensures
        duty == color_duty_spec(color),
        duty.red <= 100 && duty.green <= 100 && duty.blue <= 100,
{
    let r = (color >> 16) & 0xFF;
    let g = (color >> 8) & 0xFF;
    let b = color & 0xFF;
    assert(r == (color / 65536) % 256) by (bit_vector)
        requires
            r == (color >> 16) & 0xFF,
    ;
    assert(g == (color / 256) % 256) by (bit_vector)
        requires
            g == (color >> 8) & 0xFF,
    ;
    assert(b == color % 256) by (bit_vector)
        requires
            b == color & 0xFF,
    ;
    ColorDuty { red: percent_of_channel(r), green: percent_of_channel(g), blue: percent_of_channel(b) }
}

/// The request a received text makes.
pub fn route_color(received: &[u8]) -> (request: ColorRequest)
    ensures
        request == color_request(received@),
{
    let text = read_request(received);
    proof {
        reveal_strlit("GET /?color=");
    }
    let prefix = literal_bytes("GET /?color=");
    match find(text, prefix) {
        None => ColorRequest::Page,
        Some(start) => {
            assert(start + prefix@.len() <= text@.len());
            assert(text@.len() == text.len());
            let hex_start = start + prefix.len();
            if text.len() - hex_start < 6 {
                return ColorRequest::Page;
            }
            let end = hex_start + 6;
            proof {
                assert(vstd::utf8::valid_utf8(text@));
                if end < text@.len() {
                    vstd::utf8::is_char_boundary_iff_not_is_continuation_byte(text@, end as int);
                } else {
                    vstd::utf8::is_char_boundary_start_end_of_seq(text@);
                }
            }
            if end < text.len() && 0x80 <= text[end] && text[end] <= 0xbf {
                return ColorRequest::SplitsCharacter;
            }
            let hex = vstd::slice::slice_subrange(text, hex_start, end);
            match parse_hex_u32(hex) {
                Some(color) => ColorRequest::Update(color_duty(color)),
                None => ColorRequest::Page,
            }
        },
    }
}

/// Handles one request: the duty cycles to set, if any, and the response.
/// An update is answered with no content and a page request with the page; a
/// request whose colour would split a character gets no response, since the
/// request text cannot be cut there.
pub fn handle_color_request(received: &[u8], page: &[u8]) -> (handled: (ColorRequest, Vec<u8>))
    ensures
        handled.0 == color_request(received@),
        handled.0 matches ColorRequest::Update(_) ==> handled.1@ == no_content_response(),
        handled.0 matches ColorRequest::Page ==> handled.1@ == html_response(page@),
        handled.0 matches ColorRequest::SplitsCharacter ==> handled.1@.len() == 0,
{
    let request = route_color(received);
    let response = match request {
        ColorRequest::Update(_) => no_content(),
        ColorRequest::Page => html_page(page),
        ColorRequest::SplitsCharacter => Vec::new(),
    };
    (request, response)
}

/// A colour written as six hexadecimal digits `RRGGBB`: the red, green and
/// blue channels that the duty cycles are computed from are the values of the
/// first, middle and last two digits.
pub proof fn lemma_channels_of_hex(s: Seq<u8>)
    requires
        s.len() == 6,
        all_hex(s),
    ensures
        hex_value(s) <= 0xff_ffff,
        (hex_value(s) / 65536) % 256 == hex_value(s.subrange(0, 2)),
        (hex_value(s) / 256) % 256 == hex_value(s.subrange(2, 4)),
        hex_value(s) % 256 == hex_value(s.subrange(4, 6)),
        hex_value(s.subrange(0, 2)) == hex_digit_value(s[0]) * 16 + hex_digit_value(s[1]),
        hex_value(s.subrange(2, 4)) == hex_digit_value(s[2]) * 16 + hex_digit_value(s[3]),
        hex_value(s.subrange(4, 6)) == hex_digit_value(s[4]) * 16 + hex_digit_value(s[5]),
        hex_value(s) == hex_digit_value(s[0]) * 0x10_0000 + hex_digit_value(s[1]) * 0x1_0000
            + hex_digit_value(s[2]) * 0x1000 + hex_digit_value(s[3]) * 0x100 + hex_digit_value(s[4])
            * 0x10 + hex_digit_value(s[5]),
{
    let d0 = hex_digit_value(s[0]);
    let d1 = hex_digit_value(s[1]);
    let d2 = hex_digit_value(s[2]);
    let d3 = hex_digit_value(s[3]);
    let d4 = hex_digit_value(s[4]);
    let d5 = hex_digit_value(s[5]);
    assert(is_hex_digit(s[0]) && is_hex_digit(s[1]) && is_hex_digit(s[2]));
    assert(is_hex_digit(s[3]) && is_hex_digit(s[4]) && is_hex_digit(s[5]));
    assert(d0 < 16 && d1 < 16 && d2 < 16 && d3 < 16 && d4 < 16 && d5 < 16);
    assert(hex_value(Seq::<u8>::empty()) == 0);
    assert(hex_value(s.subrange(0, 1)) == d0) by {
        assert(s.subrange(0, 1).drop_last() =~= Seq::<u8>::empty());
        assert(s.subrange(0, 1).last() == s[0]);
    }
    assert(hex_value(s.subrange(0, 2)) == d0 * 16 + d1) by {
        assert(s.subrange(0, 2).drop_last() =~= s.subrange(0, 1));
    }
    assert(hex_value(s.subrange(0, 3)) == (d0 * 16 + d1) * 16 + d2) by {
        assert(s.subrange(0, 3).drop_last() =~= s.subrange(0, 2));
    }
    assert(hex_value(s.subrange(0, 4)) == ((d0 * 16 + d1) * 16 + d2) * 16 + d3) by {
        assert(s.subrange(0, 4).drop_last() =~= s.subrange(0, 3));
    }
    assert(hex_value(s.subrange(0, 5)) == (((d0 * 16 + d1) * 16 + d2) * 16 + d3) * 16 + d4) by {
        assert(s.subrange(0, 5).drop_last() =~= s.subrange(0, 4));
    }
    assert(hex_value(s) == ((((d0 * 16 + d1) * 16 + d2) * 16 + d3) * 16 + d4) * 16 + d5) by {
        assert(s.drop_last() =~= s.subrange(0, 5));
    }
    assert(hex_value(s.subrange(2, 3)) == d2) by {
        assert(s.subrange(2, 3).drop_last() =~= Seq::<u8>::empty());
        assert(s.subrange(2, 3).last() == s[2]);
    }
    assert(hex_value(s.subrange(2, 4)) == d2 * 16 + d3) by {
        assert(s.subrange(2, 4).drop_last() =~= s.subrange(2, 3));
        assert(s.subrange(2, 4).last() == s[3]);
    }
    assert(hex_value(s.subrange(4, 5)) == d4) by {
        assert(s.subrange(4, 5).drop_last() =~= Seq::<u8>::empty());
        assert(s.subrange(4, 5).last() == s[4]);
    }
    assert(hex_value(s.subrange(4, 6)) == d4 * 16 + d5) by {
        assert(s.subrange(4, 6).drop_last() =~= s.subrange(4, 5));
        assert(s.subrange(4, 6).last() == s[5]);
    }
    let hi = d0 * 16 + d1;
    let mid = d2 * 16 + d3;
    let lo = d4 * 16 + d5;
    assert(hex_value(s) == hi * 65536 + mid * 256 + lo) by (nonlinear_arith)
        requires
            hex_value(s) == ((((d0 * 16 + d1) * 16 + d2) * 16 + d3) * 16 + d4) * 16 + d5,
            hi == d0 * 16 + d1,
            mid == d2 * 16 + d3,
            lo == d4 * 16 + d5,
    ;
    let v = hex_value(s);
    assert(hex_value(s) == d0 * 0x10_0000 + d1 * 0x1_0000 + d2 * 0x1000 + d3 * 0x100 + d4 * 0x10 + d5)
        by (nonlinear_arith)
        requires
            hex_value(s) == ((((d0 * 16 + d1) * 16 + d2) * 16 + d3) * 16 + d4) * 16 + d5,
    ;
    assert(hi < 256 && mid < 256 && lo < 256) by (nonlinear_arith)
        requires
            d0 < 16 && d1 < 16 && d2 < 16 && d3 < 16 && d4 < 16 && d5 < 16,
            hi == d0 * 16 + d1,
            mid == d2 * 16 + d3,
            lo == d4 * 16 + d5,
    ;
    assert(v / 65536 == hi && v % 256 == lo && (v / 256) == hi * 256 + mid) by (nonlinear_arith)
        requires
            v == hi * 65536 + mid * 256 + lo,
            hi < 256 && mid < 256 && lo < 256,
    ;
    assert((hi * 256 + mid) % 256 == mid) by (nonlinear_arith)
        requires
            mid < 256,
    ;
}

/// True when the byte is one of the characters `0`-`9`, `a`-`f`, `A`-`F`.
pub open spec fn is_hex_char(b: u8) -> bool {
    (48 <= b && b <= 57) || (97 <= b && b <= 102) || (65 <= b && b <= 70)
}

/// What a hexadecimal character is worth: `0`-`9` are 0 to 9, `a`-`f` and
/// `A`-`F` are 10 to 15.
pub open spec fn hex_char_worth(b: u8) -> int {
    if b <= 57 {
        b - 48
    } else if b >= 97 {
        b - 97 + 10
    } else {
        b - 65 + 10
    }
}

/// The hexadecimal digits are exactly `0`-`9`, `a`-`f` and `A`-`F`, each
/// worth its place in its range: every other byte is refused.
pub proof fn lemma_hex_digits(b: u8)
    ensures
        is_hex_digit(b) <==> is_hex_char(b),
        is_hex_char(b) ==> hex_digit_value(b) == hex_char_worth(b),
        is_hex_char(b) ==> 0 <= hex_char_worth(b) < 16,
{
}

/// Six hexadecimal characters are read as their value (the first is the most
/// significant), and the request `GET /?color=RRGGBB` asks to set the LEDs
/// to the percentages of the red, green and blue pairs, rounded down.
pub proof fn lemma_color_update(h: Seq<u8>)
    requires
        h.len() == 6,
        forall|i: int| 0 <= i < 6 ==> #[trigger] is_hex_char(h[i]),
    ensures
        parse_hex_u32_spec(h) == Some(
            (hex_char_worth(h[0]) * 0x10_0000 + hex_char_worth(h[1]) * 0x1_0000 + hex_char_worth(h[2])
                * 0x1000 + hex_char_worth(h[3]) * 0x100 + hex_char_worth(h[4]) * 0x10
                + hex_char_worth(h[5])) as u32,
        ),
        color_duty_spec(
            (hex_char_worth(h[0]) * 0x10_0000 + hex_char_worth(h[1]) * 0x1_0000 + hex_char_worth(h[2])
                * 0x1000 + hex_char_worth(h[3]) * 0x100 + hex_char_worth(h[4]) * 0x10
                + hex_char_worth(h[5])) as u32,
        ) == (ColorDuty {
            red: ((hex_char_worth(h[0]) * 16 + hex_char_worth(h[1])) * 100 / 255) as u8,
            green: ((hex_char_worth(h[2]) * 16 + hex_char_worth(h[3])) * 100 / 255) as u8,
            blue: ((hex_char_worth(h[4]) * 16 + hex_char_worth(h[5])) * 100 / 255) as u8,
        }),
        color_request(ascii("GET /?color="@) + h) == ColorRequest::Update(
            ColorDuty {
                red: ((hex_char_worth(h[0]) * 16 + hex_char_worth(h[1])) * 100 / 255) as u8,
                green: ((hex_char_worth(h[2]) * 16 + hex_char_worth(h[3])) * 100 / 255) as u8,
                blue: ((hex_char_worth(h[4]) * 16 + hex_char_worth(h[5])) * 100 / 255) as u8,
            },
        ),
{
    reveal_strlit("GET /?color=");
    assert forall|i: int| 0 <= i < h.len() implies #[trigger] is_hex_digit(h[i]) by {
        lemma_hex_digits(h[i]);
    }
    lemma_hex_digits(h[0]);
    lemma_hex_digits(h[1]);
    lemma_hex_digits(h[2]);
    lemma_hex_digits(h[3]);
    lemma_hex_digits(h[4]);
    lemma_hex_digits(h[5]);
    assert(is_hex_char(h[0]) && is_hex_char(h[1]) && is_hex_char(h[2]));
    assert(is_hex_char(h[3]) && is_hex_char(h[4]) && is_hex_char(h[5]));
    lemma_channels_of_hex(h);
    assert(unsigned_digits(h) == h);
    let prefix = ascii("GET /?color="@);
    let received = prefix + h;
    assert(prefix.len() == 12);
    // the request is ASCII, hence valid UTF-8
    assert forall|i: int| 0 <= i < received.len() implies #[trigger] vstd::utf8::is_leading_byte_width_1(
        received[i],
    ) by {
        if i < 12 {
            assert(received[i] == prefix[i]);
        } else {
            assert(received[i] == h[i - 12]);
        }
    }
    assert(received.subrange(0, 0) =~= Seq::<u8>::empty());
    assert(vstd::utf8::partial_valid_utf8(received, 0));
    vstd::utf8::partial_valid_utf8_extend_ascii_block(received, 0, received.len() as int);
    assert(received.subrange(0, received.len() as int) =~= received);
    assert(vstd::utf8::valid_utf8(received));
    assert(request_text(received) == received);
    assert(received.subrange(0, 12) =~= prefix);
    assert(crate::http::occurs_at(received, color_prefix(), 0));
    assert(first_occurrence(received, color_prefix()) == Some(0int));
    vstd::utf8::is_char_boundary_start_end_of_seq(received);
    assert(received.subrange(12, 18) =~= h);
}

proof fn lemma_ascii_valid_utf8(bytes: Seq<u8>)
    requires
        forall|i: int| 0 <= i < bytes.len() ==> #[trigger] bytes[i] < 128,
    ensures
        vstd::utf8::valid_utf8(bytes),
{
    assert forall|i: int| 0 <= i < bytes.len() implies #[trigger] vstd::utf8::is_leading_byte_width_1(
        bytes[i],
    ) by {}
    assert(bytes.subrange(0, 0) =~= Seq::<u8>::empty());
    assert(vstd::utf8::partial_valid_utf8(bytes, 0));
    vstd::utf8::partial_valid_utf8_extend_ascii_block(bytes, 0, bytes.len() as int);
    assert(bytes.subrange(0, bytes.len() as int) =~= bytes);
}

/// A request that starts with `GET /?color=` and six hexadecimal characters,
/// followed by any valid UTF-8 text, sets the LEDs to the percentages of the
/// red, green and blue pairs, rounded down.
pub proof fn lemma_color_update_then_rest(h: Seq<u8>, rest: Seq<u8>)
    requires
        h.len() == 6,
        forall|i: int| 0 <= i < 6 ==> #[trigger] is_hex_char(h[i]),
        vstd::utf8::valid_utf8(rest),
    ensures
        color_request(ascii("GET /?color="@) + h + rest) == ColorRequest::Update(
            ColorDuty {
                red: ((hex_char_worth(h[0]) * 16 + hex_char_worth(h[1])) * 100 / 255) as u8,
                green: ((hex_char_worth(h[2]) * 16 + hex_char_worth(h[3])) * 100 / 255) as u8,
                blue: ((hex_char_worth(h[4]) * 16 + hex_char_worth(h[5])) * 100 / 255) as u8,
            },
        ),
{
    reveal_strlit("GET /?color=");
    lemma_color_update(h);
    let prefix = ascii("GET /?color="@);
    let head = prefix + h;
    let received = head + rest;
    assert forall|i: int| 0 <= i < head.len() implies #[trigger] head[i] < 128 by {
        if i < 12 {
            assert(head[i] == prefix[i]);
        } else {
            assert(head[i] == h[i - 12]);
            assert(is_hex_char(h[i - 12]));
        }
    }
    lemma_ascii_valid_utf8(head);
    vstd::utf8::valid_utf8_concat(head, rest);
    assert(request_text(received) == received);
    assert(received.subrange(0, 12) =~= prefix);
    assert(crate::http::occurs_at(received, color_prefix(), 0));
    assert(first_occurrence(received, color_prefix()) == Some(0int));
    if rest.len() == 0 {
        assert(received =~= head);
        vstd::utf8::is_char_boundary_start_end_of_seq(received);
    } else {
        vstd::utf8::is_char_boundary_iff_not_is_continuation_byte(rest, 0);
        assert(vstd::utf8::is_char_boundary(rest, 0));
        assert(received[18] == rest[0]);
        vstd::utf8::is_char_boundary_iff_not_is_continuation_byte(received, 18);
    }
    assert(received.subrange(12, 18) =~= h);
}

/// A request that starts with `GET /?color=` followed by fewer than six
/// bytes asks for the page, and so does any request without `GET /?color=`.
pub proof fn lemma_color_page(received: Seq<u8>)
    ensures
        !crate::http::occurs_in(received, ascii("GET /?color="@)) ==> color_request(received)
            == ColorRequest::Page,
        vstd::utf8::valid_utf8(received) && received.len() < 18 && crate::http::occurs_at(
            received,
            ascii("GET /?color="@),
            0,
        ) ==> color_request(received) == ColorRequest::Page,
{
    reveal_strlit("GET /?color=");
    crate::http::lemma_first_occurrence(request_text(received), color_prefix(), 0);
    if !crate::http::occurs_in(received, color_prefix()) {
        if !vstd::utf8::valid_utf8(received) {
            assert(!crate::http::occurs_in(request_text(received), color_prefix()));
        }
    }
}

/// A valid UTF-8 request that starts with `GET /?color=` and whose six
/// bytes after it end inside a multi-byte character cannot be cut there.
pub proof fn lemma_color_split(received: Seq<u8>)
    requires
        vstd::utf8::valid_utf8(received),
        crate::http::occurs_at(received, ascii("GET /?color="@), 0),
        received.len() > 18,
        0x80 <= received[18] <= 0xbf,
    ensures
        color_request(received) == ColorRequest::SplitsCharacter,
{
    reveal_strlit("GET /?color=");
    crate::http::lemma_first_occurrence(received, color_prefix(), 0);
    vstd::utf8::is_char_boundary_iff_not_is_continuation_byte(received, 18);
}

} // verus!
