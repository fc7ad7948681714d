//! The LED whose state a push button and a web page share (the state
//! synchronisation circuit). The button toggles the LED on each press, the
//! page toggles it through `GET /toggle` and reads it through `GET /state`.
use vstd::prelude::*;
use crate::http::{
    contains, html_page, html_response, no_content, no_content_response, occurs_in, plain_text,
    read_request, request_text, text_response,
};
use crate::text::{ascii, literal_bytes};

verus! {

/// How long the server waits for a connection before it looks at the button
/// again.
pub const POLL_LIMIT_MS: u64 = 50;

/// What a request asks of the server.
#[derive(PartialEq, Eq, Structural, Clone, Copy, Debug)]
pub enum SyncRoute {
    /// Toggle the LED; answered with no content.
    Toggle,
    /// Report the LED's state as `1` or `0`.
    State,
    /// Anything else; answered with the page.
    Page,
}

/// The route of a received request: `GET /toggle` first, then `GET /state`.
pub open spec fn sync_route(received: Seq<u8>) -> SyncRoute {
    let request = request_text(received);
    if occurs_in(request, ascii("GET /toggle"@)) {
        SyncRoute::Toggle
    } else if occurs_in(request, ascii("GET /state"@)) {
        SyncRoute::State
    } else {
        SyncRoute::Page
    }
}

/// The text that reports the LED's state.
pub open spec fn state_body(led_on: bool) -> Seq<u8> {
    if led_on {
        ascii("1"@)
    } else {
        ascii("0"@)
    }
}

/// The state the server keeps: whether the LED is on, and the level the
/// button had when it was last looked at.
pub struct SyncState {
    pub led_on: bool,
    pub button_high: bool,
}

impl SyncState {
    /// The LED starts off and the button low.
    pub fn new() -> (s: Self)
        ensures
            !s.led_on,
            !s.button_high,
    {
        SyncState { led_on: false, button_high: false }
    }

    /// Looks at the button's level. A change to high is a press: it toggles
    /// the LED, and the result says so.
    pub fn on_button(&mut self, high: bool) -> (toggle: bool)
        ensures
            toggle == (high && !old(self).button_high),
            final(self).button_high == high,
            final(self).led_on == (old(self).led_on != toggle),
    {
        let mut toggle = false;
        if high != self.button_high {
            if high {
                self.led_on = !self.led_on;
                toggle = true;
            }
            self.button_high = high;
        }
        toggle
    }

    /// Handles a request: whether it toggles the LED, and the response.
    pub fn handle_request(&mut self, received: &[u8], page: &[u8]) -> (handled: (bool, Vec<u8>))
        ensures
            handled.0 == (sync_route(received@) == SyncRoute::Toggle),
            final(self).led_on == (old(self).led_on != handled.0),
            final(self).button_high == old(self).button_high,
            handled.1@ == match sync_route(received@) {
                SyncRoute::Toggle => no_content_response(),
                SyncRoute::State => text_response(state_body(old(self).led_on)),
                SyncRoute::Page => html_response(page@),
            },
    {
        let request = read_request(received);
        proof {
            reveal_strlit("GET /toggle");
            reveal_strlit("GET /state");
            reveal_strlit("1");
            reveal_strlit("0");
        }
        if contains(request, literal_bytes("GET /toggle")) {
            self.led_on = !self.led_on;
            (true, no_content())
        } else if contains(request, literal_bytes("GET /state")) {
            let body = if self.led_on {
                literal_bytes("1")
            } else {
                literal_bytes("0")
            };
            (false, plain_text(body))
        } else {
            (false, html_page(page))
        }
    }
}

/// A valid UTF-8 request that mentions `GET /toggle` toggles the LED (even
/// when it also mentions `GET /state`); otherwise one that mentions
/// `GET /state` asks for the state; anything else, and any request that is
/// not valid UTF-8, asks for the page.
pub proof fn lemma_sync_routes(received: Seq<u8>)
    ensures
        vstd::utf8::valid_utf8(received) && occurs_in(received, ascii("GET /toggle"@)) ==> sync_route(
            received,
        ) == SyncRoute::Toggle,
        vstd::utf8::valid_utf8(received) && !occurs_in(received, ascii("GET /toggle"@)) && occurs_in(
            received,
            ascii("GET /state"@),
        ) ==> sync_route(received) == SyncRoute::State,
        vstd::utf8::valid_utf8(received) && !occurs_in(received, ascii("GET /toggle"@)) && !occurs_in(
            received,
            ascii("GET /state"@),
        ) ==> sync_route(received) == SyncRoute::Page,
        !vstd::utf8::valid_utf8(received) ==> sync_route(received) == SyncRoute::Page,
{
    reveal_strlit("GET /toggle");
    reveal_strlit("GET /state");
    if !vstd::utf8::valid_utf8(received) {
        let e = request_text(received);
        assert(e.len() == 0);
        assert(!occurs_in(e, ascii("GET /toggle"@)));
        assert(!occurs_in(e, ascii("GET /state"@)));
    }
}

/// The state is reported as the single digit `1` when the LED is on and `0`
/// when it is off.
pub proof fn lemma_state_body(led_on: bool)
    ensures
        state_body(led_on).len() == 1,
        state_body(led_on)[0] == (if led_on { 49u8 } else { 48u8 }),
{
    reveal_strlit("1");
    reveal_strlit("0");
}

} // verus!
