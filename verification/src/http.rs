//! The small HTTP/1.1 handling that the web server circuits share: reading a
//! request as text, searching it, and building the responses.
use vstd::prelude::*;
use crate::text::{ascii, all_digits, decimal, decimal_value, lemma_decimal_shape, lemma_decimal_value, push_decimal, push_literal};

verus! {

/// True when `needle` occurs in `hay` starting at byte `i`.
pub open spec fn occurs_at(hay: Seq<u8>, needle: Seq<u8>, i: int) -> bool {
    0 <= i && i + needle.len() <= hay.len() && hay.subrange(i, i + needle.len()) == needle
}

/// True when `needle` occurs somewhere in `hay`.
pub open spec fn occurs_in(hay: Seq<u8>, needle: Seq<u8>) -> bool {
    exists|i: int| occurs_at(hay, needle, i)
}

/// The first position from `i` on at which `needle` occurs in `hay`, if any.
pub open spec fn first_occurrence_from(hay: Seq<u8>, needle: Seq<u8>, i: int) -> Option<int>
    decreases hay.len() + 1 - i,
{
    if i < 0 || i + needle.len() > hay.len() {
        None
    } else if occurs_at(hay, needle, i) {
        Some(i)
    } else {
        first_occurrence_from(hay, needle, i + 1)
    }
}

/// The first position at which `needle` occurs in `hay`, if any.
pub open spec fn first_occurrence(hay: Seq<u8>, needle: Seq<u8>) -> Option<int> {
    first_occurrence_from(hay, needle, 0)
}

/// The first occurrence is an occurrence with none before it, and there is
/// none exactly when the needle does not occur.
pub proof fn lemma_first_occurrence(hay: Seq<u8>, needle: Seq<u8>, i: int)
    requires
        0 <= i,
        forall|j: int| 0 <= j < i ==> !occurs_at(hay, needle, j),
    ensures
        first_occurrence(hay, needle) == first_occurrence_from(hay, needle, i),
        match first_occurrence_from(hay, needle, i) {
            Some(k) => occurs_at(hay, needle, k) && forall|j: int|
                0 <= j < k ==> !occurs_at(hay, needle, j),
            None => !occurs_in(hay, needle),
        },
    decreases hay.len() + 1 - i,
{
    if i + needle.len() > hay.len() {
        assert forall|j: int| !occurs_at(hay, needle, j) by {}
    } else if occurs_at(hay, needle, i) {
    } else {
        lemma_first_occurrence(hay, needle, i + 1);
    }
    lemma_first_occurrence_start(hay, needle, i);
}

proof fn lemma_first_occurrence_start(hay: Seq<u8>, needle: Seq<u8>, i: int)
    requires
        0 <= i,
        forall|j: int| 0 <= j < i ==> !occurs_at(hay, needle, j),
    ensures
        first_occurrence_from(hay, needle, 0) == first_occurrence_from(hay, needle, i),
    decreases i,
{
    if i > 0 {
        lemma_first_occurrence_start(hay, needle, i - 1);
        assert(!occurs_at(hay, needle, i - 1));
    }
}

/// The text of a request as the servers read it: the received bytes when
/// they are valid UTF-8, the empty text otherwise.
pub open spec fn request_text(received: Seq<u8>) -> Seq<u8> {
    if vstd::utf8::valid_utf8(received) {
        received
    } else {
        Seq::empty()
    }
}

/// `core::str::from_utf8`: it returns `Ok` exactly when the bytes are valid
/// UTF-8, which vstd's `valid_utf8` states.
#[verifier::external_body]
fn utf8_is_valid(bytes: &[u8]) -> (valid: bool)
    ensures
        valid == vstd::utf8::valid_utf8(bytes@),
{
    core::str::from_utf8(bytes).is_ok()
}

/// The text of a received request: the bytes themselves when they are valid
/// UTF-8, the empty text otherwise.
pub fn read_request(received: &[u8]) -> (text: &[u8])
    ensures
        text@ == request_text(received@),
{
    if utf8_is_valid(received) {
        received
    } else {
        let empty: &[u8] = &[];
        assert(empty@ =~= Seq::<u8>::empty());
        empty
    }
}

/// True when `needle` occurs in `hay` at byte `i`.
fn matches_at(hay: &[u8], needle: &[u8], i: usize) -> (m: bool)
    requires
        i + needle@.len() <= hay@.len(),
    ensures
        m == occurs_at(hay@, needle@, i as int),
{
    let mut k: usize = 0;
    while k < needle.len()
        invariant
            i + needle@.len() <= hay@.len(),
            hay@.len() == hay.len(),
            k <= needle@.len(),
            forall|j: int| 0 <= j < k ==> hay@[i + j] == needle@[j],
        decreases needle@.len() - k,
    {
        if hay[i + k] != needle[k] {
            assert(hay@.subrange(i as int, i + needle@.len())[k as int] != needle@[k as int]);
            return false;
        }
        k = k + 1;
    }
    assert(hay@.subrange(i as int, i + needle@.len()) =~= needle@);
    true
}

/// The first position at which `needle` occurs in `hay`.
pub fn find(hay: &[u8], needle: &[u8]) -> (found: Option<usize>)
    ensures
        first_occurrence(hay@, needle@) == match found {
            Some(i) => Some(i as int),
            None => None,
        },
        match found {
            Some(i) => occurs_at(hay@, needle@, i as int) && forall|j: int|
                0 <= j < i ==> !occurs_at(hay@, needle@, j),
            None => !occurs_in(hay@, needle@),
        },
{
    if needle.len() > hay.len() {
        proof { lemma_first_occurrence(hay@, needle@, 0); }
        return None;
    }
    let last = hay.len() - needle.len();
    let mut i: usize = 0;
    loop
        invariant
            last == hay@.len() - needle@.len(),
            i <= last,
            forall|j: int| 0 <= j < i ==> !occurs_at(hay@, needle@, j),
        decreases last - i,
    {
        if matches_at(hay, needle, i) {
            proof { lemma_first_occurrence(hay@, needle@, i as int); }
            return Some(i);
        }
        if i == last {
            proof {
                lemma_first_occurrence(hay@, needle@, i as int + 1);
            }
            return None;
        }
        i = i + 1;
    }
}

/// True when `needle` occurs in `hay`.
pub fn contains(hay: &[u8], needle: &[u8]) -> (c: bool)
    ensures
        c == occurs_in(hay@, needle@),
{
    match find(hay, needle) {
        Some(_) => true,
        None => false,
    }
}

/// The response that carries an HTML page, with its length.
pub open spec fn html_response(body: Seq<u8>) -> Seq<u8> {
    ascii("HTTP/1.1 200 OK\r\nContent-Type: text/html\r\nContent-Length: "@) + decimal(body.len())
        + ascii("\r\nConnection: close\r\n\r\n"@) + body
}

/// The head of a page response, up to its length.
pub open spec fn html_head() -> Seq<u8> {
    ascii("HTTP/1.1 200 OK\r\nContent-Type: text/html\r\nContent-Length: "@)
}

/// A page response states the page's length: after the head come the decimal
/// digits of the body's length, which read back as that length and are
/// followed by a line end, and the response ends with the body itself.
pub proof fn lemma_content_length(body: Seq<u8>)
    ensures
        ({
            let response = html_response(body);
            let start = html_head().len() as int;
            let digits = decimal(body.len());
            &&& response.subrange(start, start + digits.len()) == digits
            &&& all_digits(digits)
            &&& decimal_value(digits) == body.len()
            &&& response[start + digits.len()] == 13
            &&& response.subrange(response.len() - body.len(), response.len() as int) == body
        }),
{
    reveal_strlit("HTTP/1.1 200 OK\r\nContent-Type: text/html\r\nContent-Length: ");
    reveal_strlit("\r\nConnection: close\r\n\r\n");
    let response = html_response(body);
    let start = html_head().len() as int;
    let digits = decimal(body.len());
    let tail = ascii("\r\nConnection: close\r\n\r\n"@);
    assert(response == html_head() + digits + tail + body);
    assert(response.subrange(start, start + digits.len()) =~= digits);
    assert(response.subrange(response.len() - body.len(), response.len() as int) =~= body);
    assert(response[start + digits.len()] == tail[0]);
    lemma_decimal_shape(body.len());
    lemma_decimal_value(body.len());
}

/// The response that carries a short plain text, without a length.
pub open spec fn text_response(body: Seq<u8>) -> Seq<u8> {
    ascii("HTTP/1.1 200 OK\r\nContent-Type: text/plain\r\nConnection: close\r\n\r\n"@) + body
}

/// The response to a request that changed something and needs no page.
pub open spec fn no_content_response() -> Seq<u8> {
    ascii("HTTP/1.1 204 No Content\r\nConnection: close\r\n\r\n"@)
}

/// Builds the response that carries an HTML page.
pub fn html_page(body: &[u8]) -> (response: Vec<u8>)
    ensures
        response@ == html_response(body@),
{
    let mut response: Vec<u8> = Vec::new();
    proof {
        reveal_strlit("HTTP/1.1 200 OK\r\nContent-Type: text/html\r\nContent-Length: ");
        reveal_strlit("\r\nConnection: close\r\n\r\n");
    }
    push_literal(&mut response, "HTTP/1.1 200 OK\r\nContent-Type: text/html\r\nContent-Length: ");
    push_decimal(&mut response, body.len() as u64);
    push_literal(&mut response, "\r\nConnection: close\r\n\r\n");
    response.extend_from_slice(body);
    assert(response@ =~= html_response(body@));
    response
}

/// Builds the response that carries a short plain text.
pub fn plain_text(body: &[u8]) -> (response: Vec<u8>)
    ensures
        response@ == text_response(body@),
{
    let mut response: Vec<u8> = Vec::new();
    proof {
        reveal_strlit("HTTP/1.1 200 OK\r\nContent-Type: text/plain\r\nConnection: close\r\n\r\n");
    }
    push_literal(&mut response, "HTTP/1.1 200 OK\r\nContent-Type: text/plain\r\nConnection: close\r\n\r\n");
    response.extend_from_slice(body);
    assert(response@ =~= text_response(body@));
    response
}

/// Builds the response to a request that needs no page.
pub fn no_content() -> (response: Vec<u8>)
    ensures
        response@ == no_content_response(),
{
    let mut response: Vec<u8> = Vec::new();
    proof {
        reveal_strlit("HTTP/1.1 204 No Content\r\nConnection: close\r\n\r\n");
    }
    push_literal(&mut response, "HTTP/1.1 204 No Content\r\nConnection: close\r\n\r\n");
    assert(response@ =~= no_content_response());
    response
}

/// `needle` occurs at `i` exactly when it fits there and every one of its
/// bytes equals the byte of `hay` at the same offset from `i`.
pub proof fn lemma_occurs_at_bytes(hay: Seq<u8>, needle: Seq<u8>, i: int)
    ensures
        occurs_at(hay, needle, i) <==> (0 <= i && i + needle.len() <= hay.len() && forall|k: int|
            0 <= k < needle.len() ==> #[trigger] hay[i + k] == needle[k]),
{
    if 0 <= i && i + needle.len() <= hay.len() {
        if forall|k: int| 0 <= k < needle.len() ==> #[trigger] hay[i + k] == needle[k] {
            assert forall|k: int| 0 <= k < needle.len() implies hay.subrange(i, i + needle.len())[k]
                == needle[k] by {
                assert(hay[i + k] == needle[k]);
            }
            assert(hay.subrange(i, i + needle.len()) =~= needle);
        }
        if occurs_at(hay, needle, i) {
            assert forall|k: int| 0 <= k < needle.len() implies #[trigger] hay[i + k] == needle[k] by {
                assert(hay.subrange(i, i + needle.len())[k] == hay[i + k]);
            }
        }
    }
}

/// A request is read as it was received when it is valid UTF-8, and as the
/// empty text otherwise.
pub proof fn lemma_request_text(received: Seq<u8>)
    ensures
        vstd::utf8::valid_utf8(received) ==> request_text(received) == received,
        !vstd::utf8::valid_utf8(received) ==> request_text(received).len() == 0,
{
}

/// The three responses, line by line: a page response is a `200 OK` status,
/// an HTML content type, the length and `Connection: close`, a blank line
/// and the page; a text response is the same without a length, with a plain
/// text type; the empty response is a `204 No Content` status and
/// `Connection: close`, then a blank line.
pub proof fn lemma_response_lines(body: Seq<u8>)
    ensures
        html_response(body) == ascii("HTTP/1.1 200 OK\r\n"@) + ascii("Content-Type: text/html\r\n"@)
            + ascii("Content-Length: "@) + decimal(body.len()) + ascii("\r\n"@) + ascii(
            "Connection: close\r\n"@,
        ) + ascii("\r\n"@) + body,
        text_response(body) == ascii("HTTP/1.1 200 OK\r\n"@) + ascii("Content-Type: text/plain\r\n"@)
            + ascii("Connection: close\r\n"@) + ascii("\r\n"@) + body,
        no_content_response() == ascii("HTTP/1.1 204 No Content\r\n"@) + ascii(
            "Connection: close\r\n"@,
        ) + ascii("\r\n"@),
{
    reveal_strlit("HTTP/1.1 200 OK\r\nContent-Type: text/html\r\nContent-Length: ");
    reveal_strlit("\r\nConnection: close\r\n\r\n");
    reveal_strlit("HTTP/1.1 200 OK\r\nContent-Type: text/plain\r\nConnection: close\r\n\r\n");
    reveal_strlit("HTTP/1.1 204 No Content\r\nConnection: close\r\n\r\n");
    reveal_strlit("HTTP/1.1 200 OK\r\n");
    reveal_strlit("Content-Type: text/html\r\n");
    reveal_strlit("Content-Type: text/plain\r\n");
    reveal_strlit("Content-Length: ");
    reveal_strlit("\r\n");
    reveal_strlit("Connection: close\r\n");
    reveal_strlit("HTTP/1.1 204 No Content\r\n");
    let d = decimal(body.len());
    assert(ascii("HTTP/1.1 200 OK\r\nContent-Type: text/html\r\nContent-Length: "@) =~= ascii(
        "HTTP/1.1 200 OK\r\n"@,
    ) + ascii("Content-Type: text/html\r\n"@) + ascii("Content-Length: "@));
    assert(ascii("\r\nConnection: close\r\n\r\n"@) =~= ascii("\r\n"@) + ascii(
        "Connection: close\r\n"@,
    ) + ascii("\r\n"@));
    assert(html_response(body) =~= ascii("HTTP/1.1 200 OK\r\n"@) + ascii(
        "Content-Type: text/html\r\n"@,
    ) + ascii("Content-Length: "@) + d + ascii("\r\n"@) + ascii("Connection: close\r\n"@) + ascii(
        "\r\n"@,
    ) + body);
    assert(ascii("HTTP/1.1 200 OK\r\nContent-Type: text/plain\r\nConnection: close\r\n\r\n"@) =~= ascii(
        "HTTP/1.1 200 OK\r\n"@,
    ) + ascii("Content-Type: text/plain\r\n"@) + ascii("Connection: close\r\n"@) + ascii(
        "\r\n"@,
    ));
    assert(text_response(body) =~= ascii("HTTP/1.1 200 OK\r\n"@) + ascii(
        "Content-Type: text/plain\r\n"@,
    ) + ascii("Connection: close\r\n"@) + ascii("\r\n"@) + body);
    assert(no_content_response() =~= ascii("HTTP/1.1 204 No Content\r\n"@) + ascii(
        "Connection: close\r\n"@,
    ) + ascii("\r\n"@));
}

/// The sending of a response over a socket that may accept only part of it
/// at a time. Sending stops when everything was sent, when the socket
/// accepts nothing or when it fails.
pub struct Transmission {
    total: usize,
    sent: usize,
    stopped: bool,
}

impl Transmission {
    /// The number of bytes to send.
    pub closed spec fn total(&self) -> nat {
        self.total as nat
    }

    /// The number of bytes sent so far.
    pub closed spec fn sent(&self) -> nat {
        self.sent as nat
    }

    /// True when the socket accepted nothing or failed.
    pub closed spec fn stopped(&self) -> bool {
        self.stopped
    }

    #[verifier::type_invariant]
    spec fn inv(&self) -> bool {
        self.sent <= self.total
    }

    /// Starts sending `total` bytes.
    pub fn new(total: usize) -> (t: Self)
        ensures
            t.total() == total,
            t.sent() == 0,
            !t.stopped(),
    {
        Transmission { total, sent: 0, stopped: false }
    }

    /// Where the rest of the response starts, if more is to be sent.
    pub fn next_offset(&self) -> (offset: Option<usize>)
        ensures
            offset == (if !self.stopped() && self.sent() < self.total() {
                Some(self.sent() as usize)
            } else {
                None::<usize>
            }),
            self.sent() <= self.total(),
    {
        proof { use_type_invariant(self); }
        if !self.stopped && self.sent < self.total {
            Some(self.sent)
        } else {
            None
        }
    }

    /// Records what the socket did with the rest: `Some(n)` when it accepted
    /// `n` bytes, `None` when it failed. Accepting nothing, failing, or
    /// accepting more than was left ends the sending.
    pub fn record(&mut self, accepted: Option<usize>)
        ensures
            final(self).total() == old(self).total(),
            match accepted {
                Some(n) => if n == 0 || n > old(self).total() - old(self).sent() {
                    final(self).stopped() && final(self).sent() == old(self).sent()
                } else {
                    final(self).sent() == old(self).sent() + n && final(self).stopped()
                        == old(self).stopped()
                },
                None => final(self).stopped() && final(self).sent() == old(self).sent(),
            },
    {
        proof { use_type_invariant(&*self); }
        match accepted {
            Some(n) => {
                if n == 0 || n > self.total - self.sent {
                    self.stopped = true;
                } else {
                    self.sent = self.sent + n;
                }
            },
            None => {
                self.stopped = true;
            },
        }
    }
}

} // verus!
