use esp_circuits::http::{contains, find, html_page, no_content, plain_text, read_request, Transmission};
use esp_circuits::lights::{handle_lights_request, route_lights, LightsCommand};
use esp_circuits::network::network_seed;
use esp_circuits::rgb::{color_duty, handle_color_request, parse_hex_u32, route_color, ColorDuty, ColorRequest};
use esp_circuits::state_sync::SyncState;

#[test]
fn find_returns_first_occurrence() {
    assert_eq!(find(b"abcabc", b"bc"), Some(1));
    assert_eq!(find(b"abcabc", b"cab"), Some(2));
    assert_eq!(find(b"abc", b"abcd"), None);
    assert_eq!(find(b"abc", b"x"), None);
    assert_eq!(find(b"abc", b""), Some(0));
    assert!(contains(b"GET /red/toggle HTTP/1.1", b"/red/"));
    assert!(!contains(b"", b"GET"));
}

#[test]
fn invalid_utf8_reads_as_empty_request() {
    assert_eq!(read_request(b"GET /"), b"GET /");
    assert_eq!(read_request(&[0x47, 0xff, 0x20]), b"");
    assert_eq!(read_request("GET /é".as_bytes()), "GET /é".as_bytes());
}

#[test]
fn html_page_has_content_length() {
    let response = html_page(b"<p>hi</p>");
    assert_eq!(
        response,
        b"HTTP/1.1 200 OK\r\nContent-Type: text/html\r\nContent-Length: 9\r\nConnection: close\r\n\r\n<p>hi</p>".to_vec()
    );
    let empty = html_page(b"");
    assert_eq!(
        empty,
        b"HTTP/1.1 200 OK\r\nContent-Type: text/html\r\nContent-Length: 0\r\nConnection: close\r\n\r\n".to_vec()
    );
}

#[test]
fn no_content_and_plain_text_responses() {
    assert_eq!(no_content(), b"HTTP/1.1 204 No Content\r\nConnection: close\r\n\r\n".to_vec());
    assert_eq!(
        plain_text(b"1"),
        b"HTTP/1.1 200 OK\r\nContent-Type: text/plain\r\nConnection: close\r\n\r\n1".to_vec()
    );
}

#[test]
fn transmission_follows_socket() {
    let mut t = Transmission::new(10);
    assert_eq!(t.next_offset(), Some(0));
    t.record(Some(4));
    assert_eq!(t.next_offset(), Some(4));
    t.record(Some(6));
    assert_eq!(t.next_offset(), None);

    let mut t = Transmission::new(10);
    t.record(Some(0));
    assert_eq!(t.next_offset(), None);

    let mut t = Transmission::new(10);
    t.record(Some(3));
    t.record(None);
    assert_eq!(t.next_offset(), None);

    let mut t = Transmission::new(10);
    t.record(Some(11));
    assert_eq!(t.next_offset(), None);
}

#[test]
fn lights_routes() {
    assert_eq!(route_lights(b"GET /red/toggle HTTP/1.1\r\n"), LightsCommand::ToggleRed);
    assert_eq!(route_lights(b"GET /yellow/toggle HTTP/1.1\r\n"), LightsCommand::ToggleYellow);
    assert_eq!(route_lights(b"GET / HTTP/1.1\r\n"), LightsCommand::Nothing);
    assert_eq!(route_lights(b"GET /yellow/toggle GET /red/toggle"), LightsCommand::ToggleRed);
    assert_eq!(route_lights(&[b'G', b'E', b'T', b' ', b'/', b'r', 0xff]), LightsCommand::Nothing);
    let mut bad = b"GET /red/toggle".to_vec();
    bad.push(0xc3);
    assert_eq!(route_lights(&bad), LightsCommand::Nothing);
    let (command, response) = handle_lights_request(b"GET /red/toggle", b"page");
    assert_eq!(command, LightsCommand::ToggleRed);
    assert_eq!(response, html_page(b"page"));
}

#[test]
fn state_sync_button_and_web() {
    let mut s = SyncState::new();
    assert!(!s.led_on);
    assert!(!s.on_button(false));
    assert!(s.on_button(true));
    assert!(s.led_on);
    assert!(!s.on_button(true));
    assert!(!s.on_button(false));
    assert!(s.led_on);
    let (toggled, response) = s.handle_request(b"GET /state HTTP/1.1", b"page");
    assert!(!toggled);
    assert_eq!(response, plain_text(b"1"));
    let (toggled, response) = s.handle_request(b"GET /toggle HTTP/1.1", b"page");
    assert!(toggled);
    assert_eq!(response, no_content());
    assert!(!s.led_on);
    let (_, response) = s.handle_request(b"GET /state HTTP/1.1", b"page");
    assert_eq!(response, plain_text(b"0"));
    let (toggled, response) = s.handle_request(b"GET / HTTP/1.1", b"page");
    assert!(!toggled);
    assert_eq!(response, html_page(b"page"));
}

#[test]
fn hex_parsing_like_from_str_radix() {
    for text in ["ff8000", "+ff800", "FFFFFF", "000000", "+", "", "-12345", "12 456", "g00000", "ffffffff", "+fffffffff", "100000000", "0000000000ff"] {
        let expected = u32::from_str_radix(text, 16).ok();
        assert_eq!(parse_hex_u32(text.as_bytes()), expected, "text {:?}", text);
    }
}

#[test]
fn color_duty_scales_channels() {
    assert_eq!(color_duty(0xff8000), ColorDuty { red: 100, green: 50, blue: 0 });
    assert_eq!(color_duty(0x0000ff), ColorDuty { red: 0, green: 0, blue: 100 });
    assert_eq!(color_duty(0x010203), ColorDuty { red: 0, green: 0, blue: 1 });
}

#[test]
fn color_requests() {
    assert_eq!(
        route_color(b"GET /?color=ff8000 HTTP/1.1"),
        ColorRequest::Update(ColorDuty { red: 100, green: 50, blue: 0 })
    );
    assert_eq!(route_color(b"GET / HTTP/1.1"), ColorRequest::Page);
    assert_eq!(route_color(b"GET /?color=ff80"), ColorRequest::Page);
    assert_eq!(route_color(b"GET /?color=zz8000 HTTP/1.1"), ColorRequest::Page);
    assert_eq!(
        route_color(b"GET /?color=+12345"),
        ColorRequest::Update(ColorDuty { red: 0, green: 13, blue: 27 })
    );
    assert_eq!(route_color("GET /?color=12345é".as_bytes()), ColorRequest::SplitsCharacter);
    assert_eq!(route_color("GET /?color=1234é".as_bytes()), ColorRequest::Page);
    let (request, response) = handle_color_request(b"GET /?color=000000 HTTP/1.1", b"page");
    assert_eq!(request, ColorRequest::Update(ColorDuty { red: 0, green: 0, blue: 0 }));
    assert_eq!(response, no_content());
    let (request, response) = handle_color_request(b"GET / HTTP/1.1", b"page");
    assert_eq!(request, ColorRequest::Page);
    assert_eq!(response, html_page(b"page"));
}

#[test]
fn seed_from_two_words() {
    assert_eq!(network_seed(1, 2), (1u64 << 32) | 2);
    assert_eq!(network_seed(u32::MAX, u32::MAX), u64::MAX);
    assert_eq!(network_seed(0, 7), 7);
}
