//! The web server that toggles a red and a yellow LED (the Wi-Fi web server
//! circuits). Every request is answered with the control page.
use vstd::prelude::*;
use crate::http::{html_page, html_response, occurs_in, read_request, request_text, contains};
use crate::text::{ascii, literal_bytes};

verus! {

/// What a request asks of the two lights.
#[derive(PartialEq, Eq, Structural, Clone, Copy, Debug)]
pub enum LightsCommand {
    ToggleRed,
    ToggleYellow,
    Nothing,
}

/// The command of a received request: toggling the red light when the request
/// holds `GET /red/toggle`, else the yellow one when it holds
/// `GET /yellow/toggle`, else nothing. A request that is not valid UTF-8
/// reads as the empty text and asks nothing.
pub open spec fn lights_command(received: Seq<u8>) -> LightsCommand {
    let request = request_text(received);
    if occurs_in(request, ascii("GET /red/toggle"@)) {
        LightsCommand::ToggleRed
    } else if occurs_in(request, ascii("GET /yellow/toggle"@)) {
        LightsCommand::ToggleYellow
    } else {
        LightsCommand::Nothing
    }
}

/// The command of a received request.
pub fn route_lights(received: &[u8]) -> (command: LightsCommand)
    ensures
        command == lights_command(received@),
{
    let request = read_request(received);
    proof {
        reveal_strlit("GET /red/toggle");
        reveal_strlit("GET /yellow/toggle");
    }
    if contains(request, literal_bytes("GET /red/toggle")) {
        LightsCommand::ToggleRed
    } else if contains(request, literal_bytes("GET /yellow/toggle")) {
        LightsCommand::ToggleYellow
    } else {
        LightsCommand::Nothing
    }
}

/// Handles one request: its command, and the response, which is always the
/// control page.
pub fn handle_lights_request(received: &[u8], page: &[u8]) -> (handled: (LightsCommand, Vec<u8>))
    ensures
        handled.0 == lights_command(received@),
        handled.1@ == html_response(page@),
{
    let command = route_lights(received);
    (command, html_page(page))
}

/// A valid UTF-8 request that mentions `GET /red/toggle` toggles the red
/// light, even when it also mentions `GET /yellow/toggle`; otherwise one
/// that mentions `GET /yellow/toggle` toggles the yellow light; any other
/// request, and any request that is not valid UTF-8, toggles nothing.
pub proof fn lemma_lights_routes(received: Seq<u8>)
    ensures
        vstd::utf8::valid_utf8(received) && occurs_in(received, ascii("GET /red/toggle"@))
            ==> lights_command(received) == LightsCommand::ToggleRed,
        vstd::utf8::valid_utf8(received) && !occurs_in(received, ascii("GET /red/toggle"@))
            && occurs_in(received, ascii("GET /yellow/toggle"@)) ==> lights_command(received)
            == LightsCommand::ToggleYellow,
        vstd::utf8::valid_utf8(received) && !occurs_in(received, ascii("GET /red/toggle"@))
            && !occurs_in(received, ascii("GET /yellow/toggle"@)) ==> lights_command(received)
            == LightsCommand::Nothing,
        !vstd::utf8::valid_utf8(received) ==> lights_command(received) == LightsCommand::Nothing,
{
    reveal_strlit("GET /red/toggle");
    reveal_strlit("GET /yellow/toggle");
    if !vstd::utf8::valid_utf8(received) {
        let e = request_text(received);
        assert(e.len() == 0);
        assert(!occurs_in(e, ascii("GET /red/toggle"@)));
        assert(!occurs_in(e, ascii("GET /yellow/toggle"@)));
    }
}

} // verus!
