//! The stream proxy and the plain HTTP requests of the UI.
//!
//! The proxy makes a remote audio stream same-origin: that is what lets the
//! equalizer and the spectrum analyser see server streams at all. Range requests
//! are forwarded so seeking still works.

use vstd::prelude::*;
use vstd::slice::slice_to_vec;
use vstd::utf8::{decode_utf8, encode_utf8, valid_utf8};

use crate::base64::{
    b64url_decode, decoded, encoded, law_base64_round_trip, law_base64url_round_trip, url_encoded,
};
use crate::http_source::is_success;
use crate::source::{http_url, is_http, law_urls_start_with_their_scheme};
use crate::text::{chars_of, opt_text, string_of, text_of_bytes};

verus! {

/// Why a stream is not proxied.
#[derive(Clone, Copy, Debug, PartialEq, Eq)]
pub enum Refusal {
    /// The address is not base64url of a text.
    BadUrl,
    /// The address is not an HTTP URL.
    NotHttp,
}

/// A response of the proxy.
pub struct ProxyResponse {
    pub status: u16,
    pub headers: Vec<(String, String)>,
    pub body: Vec<u8>,
}

/// What a refusal says.
pub open spec fn refusal_text(r: Refusal) -> Seq<char> {
    match r {
        Refusal::BadUrl => "bad url"@,
        Refusal::NotHttp => "only http/https URLs are allowed"@,
    }
}

/// The URL that the address `b64` of the proxy stands for.
pub open spec fn target_of(b64: Seq<char>) -> Result<Seq<char>, Refusal> {
    match decoded(encode_utf8(b64)) {
        Some(bytes) => if !valid_utf8(bytes) {
            Err(Refusal::BadUrl)
        } else if !is_http(decode_utf8(bytes)) {
            Err(Refusal::NotHttp)
        } else {
            Ok(decode_utf8(bytes))
        },
        None => Err(Refusal::BadUrl),
    }
}

/// Finds the URL that the address `b64` of the proxy stands for.
pub fn proxy_target(b64: &str) -> (url: Result<String, Refusal>)
    ensures
        match target_of(b64@) {
            Ok(u) => url matches Ok(s) && s@ == u,
            Err(r) => url matches Err(e) && e == r,
        },
{
    let text = match b64url_decode(b64) {
        Some(bytes) => text_of_bytes(bytes),
        None => None,
    };
    match text {
        Some(url) => if http_url(url.as_str()) {
            Ok(url)
        } else {
            Err(Refusal::NotHttp)
        },
        None => Err(Refusal::BadUrl),
    }
}

/// The address of the proxy for a URL leads to that URL, whether it was written
/// with padding and the standard alphabet or without and URL-safe.
pub proof fn law_proxy_address_leads_back(url: Seq<char>)
    requires
        is_http(url),
    ensures
        target_of(url_encoded(encode_utf8(url))) == Ok::<Seq<char>, Refusal>(url),
        target_of(encoded(encode_utf8(url))) == Ok::<Seq<char>, Refusal>(url),
{
    let bytes = encode_utf8(url);
    law_base64_round_trip(bytes);
    law_base64url_round_trip(bytes);
    vstd::utf8::encode_utf8_valid_utf8(url);
    vstd::utf8::encode_utf8_decode_utf8(url);
}

/// The proxy never leads anywhere but to an HTTP URL.
pub proof fn law_proxy_serves_http_alone(b64: Seq<char>)
    ensures
        target_of(b64) matches Ok(url) ==> is_http(url),
{
}

/// The texts of a header.
pub open spec fn header(h: (String, String)) -> (Seq<char>, Seq<char>) {
    (h.0@, h.1@)
}

/// The texts of all headers.
pub open spec fn header_texts(hs: Seq<(String, String)>) -> Seq<(Seq<char>, Seq<char>)> {
    hs.map_values(|h: (String, String)| header(h))
}

/// A response that is not audio: a status and a message.
pub fn refuse(status: u16, message: &str) -> (r: ProxyResponse)
    ensures
        r.status == status,
        header_texts(r.headers@) == seq![("Access-Control-Allow-Origin"@, "*"@)],
        r.body@ == encode_utf8(message@),
{
    let mut headers: Vec<(String, String)> = Vec::new();
    headers.push(("Access-Control-Allow-Origin".to_owned(), "*".to_owned()));
    assert(header_texts(headers@) =~= seq![("Access-Control-Allow-Origin"@, "*"@)]);
    ProxyResponse { status, headers, body: slice_to_vec(message.as_bytes()) }
}

/// The response to an address that is refused.
pub fn refused(r: Refusal) -> (response: ProxyResponse)
    ensures
        response.status == 400,
        header_texts(response.headers@) == seq![("Access-Control-Allow-Origin"@, "*"@)],
        response.body@ == encode_utf8(refusal_text(r)),
{
    match r {
        Refusal::BadUrl => refuse(400, "bad url"),
        Refusal::NotHttp => refuse(400, "only http/https URLs are allowed"),
    }
}

/// The headers of a relayed stream.
pub open spec fn relay_headers(
    content_type: Option<Seq<char>>,
    content_range: Option<Seq<char>>,
) -> Seq<(Seq<char>, Seq<char>)> {
    let fixed = seq![
        (
            "Content-Type"@,
            match content_type {
                Some(t) => t,
                None => "audio/mpeg"@,
            },
        ),
        ("Accept-Ranges"@, "bytes"@),
        ("Access-Control-Allow-Origin"@, "*"@),
    ];
    match content_range {
        Some(r) => fixed.push(("Content-Range"@, r)),
        None => fixed,
    }
}

/// The response that relays what the server sent.
pub fn relay(
    status: u16,
    content_type: Option<String>,
    content_range: Option<String>,
    body: Vec<u8>,
) -> (r: ProxyResponse)
    ensures
        r.status == status,
        header_texts(r.headers@) == relay_headers(opt_text(content_type), opt_text(content_range)),
        r.body == body,
{
    let ghost want = relay_headers(opt_text(content_type), opt_text(content_range));
    let kind = match content_type {
        Some(t) => t,
        None => "audio/mpeg".to_owned(),
    };
    let mut headers: Vec<(String, String)> = Vec::new();
    headers.push(("Content-Type".to_owned(), kind));
    headers.push(("Accept-Ranges".to_owned(), "bytes".to_owned()));
    headers.push(("Access-Control-Allow-Origin".to_owned(), "*".to_owned()));
    if let Some(range) = content_range {
        headers.push(("Content-Range".to_owned(), range));
    }
    assert(header_texts(headers@) =~= want);
    ProxyResponse { status, headers, body }
}

/// What came of a request to the proxy.
pub enum ProxyOutcome {
    /// The address was refused.
    Refused(Refusal),
    /// No HTTP client could be made.
    NoClient(String),
    /// The server did not reply.
    NoReply(String),
    /// The reply broke off.
    NoBody(String),
    /// The server replied.
    Reply {
        status: u16,
        content_type: Option<String>,
        content_range: Option<String>,
        body: Vec<u8>,
    },
}

/// The response is a status and a message.
pub open spec fn is_message(r: ProxyResponse, status: u16, message: Seq<char>) -> bool {
    &&& r.status == status
    &&& header_texts(r.headers@) == seq![("Access-Control-Allow-Origin"@, "*"@)]
    &&& r.body@ == encode_utf8(message)
}

/// Answers a request to the proxy: with the stream, or with what went wrong.
pub fn proxy_audio(outcome: ProxyOutcome) -> (r: ProxyResponse)
    ensures
        match outcome {
            ProxyOutcome::Refused(why) => is_message(r, 400, refusal_text(why)),
            ProxyOutcome::NoClient(e) => is_message(r, 500, e@),
            ProxyOutcome::NoReply(e) => is_message(r, 502, e@),
            ProxyOutcome::NoBody(e) => is_message(r, 502, e@),
            ProxyOutcome::Reply { status, content_type, content_range, body } => {
                &&& r.status == status
                &&& header_texts(r.headers@) == relay_headers(
                    opt_text(content_type),
                    opt_text(content_range),
                )
                &&& r.body == body
            },
        },
        answers(outcome, r),
{
    match outcome {
        ProxyOutcome::Refused(why) => refused(why),
        ProxyOutcome::NoClient(e) => refuse(500, e.as_str()),
        ProxyOutcome::NoReply(e) => refuse(502, e.as_str()),
        ProxyOutcome::NoBody(e) => refuse(502, e.as_str()),
        ProxyOutcome::Reply { status, content_type, content_range, body } => relay(
            status,
            content_type,
            content_range,
            body,
        ),
    }
}

/// The address in a request path: what stands behind the slashes at its start.
pub open spec fn without_slashes(path: Seq<char>) -> Seq<char>
    decreases path.len(),
{
    if path.len() > 0 && path[0] == '/' {
        without_slashes(path.skip(1))
    } else {
        path
    }
}

/// Takes the slashes off the start of a request path.
pub fn proxy_address(path: &str) -> (address: String)
    ensures
        address@ == without_slashes(path@),
{
    let v = chars_of(path);
    let mut i: usize = 0;
    assert(v@.skip(0) =~= v@);
    while i < v.len() && v[i] == '/'
        invariant
            v@ == path@,
            i <= v@.len(),
            without_slashes(v@.skip(i as int)) == without_slashes(path@),
        decreases v@.len() - i,
    {
        assert(v@.skip(i as int).skip(1) =~= v@.skip(i + 1));
        i += 1;
    }
    assert(v@.subrange(i as int, v@.len() as int) =~= v@.skip(i as int));
    string_of(&v, i, v.len())
}

/// Whether the UI may request `url`; a message if not.
pub fn check_url(url: &str) -> (r: Result<(), String>)
    ensures
        r is Ok <==> is_http(url@),
        r matches Err(m) ==> m@ == "only http/https URLs are allowed"@,
        allows(url@, r),
{
    if http_url(url) {
        Ok(())
    } else {
        Err("only http/https URLs are allowed".to_owned())
    }
}

/// What the UI gets of a reply: its text, or the status if the request was not
/// granted.
pub fn text_reply(status: u16, status_text: &str, text: String) -> (r: Result<String, String>)
    ensures
        r is Ok <==> is_success(status),
        r matches Ok(t) ==> t == text,
        r matches Err(m) ==> m@ == "HTTP "@ + status_text@,
        replies(status, status_text@, text, r),
{
    if status < 200 || status >= 300 {
        let mut m = "HTTP ".to_owned();
        m.append(status_text);
        return Err(m);
    }
    Ok(text)
}

/// `r` answers a request to the proxy of which `outcome` came.
pub open spec fn answers(outcome: ProxyOutcome, r: ProxyResponse) -> bool {
    match outcome {
        ProxyOutcome::Refused(why) => is_message(r, 400, refusal_text(why)),
        ProxyOutcome::NoClient(e) => is_message(r, 500, e@),
        ProxyOutcome::NoReply(e) => is_message(r, 502, e@),
        ProxyOutcome::NoBody(e) => is_message(r, 502, e@),
        ProxyOutcome::Reply { status, content_type, content_range, body } => {
            &&& r.status == status
            &&& header_texts(r.headers@) == relay_headers(
                opt_text(content_type),
                opt_text(content_range),
            )
            &&& r.body == body
        },
    }
}

/// `r` says whether the UI may request `url`.
pub open spec fn allows(url: Seq<char>, r: Result<(), String>) -> bool {
    if is_http(url) {
        r is Ok
    } else {
        r matches Err(m) && m@ == "only http/https URLs are allowed"@
    }
}

/// `r` is what the UI gets of a reply.
pub open spec fn replies(
    status: u16,
    status_text: Seq<char>,
    text: String,
    r: Result<String, String>,
) -> bool {
    if is_success(status) {
        r == Ok::<String, String>(text)
    } else {
        r matches Err(m) && m@ == "HTTP "@ + status_text
    }
}

/// The UI may read every answer, whatever came of the request: each carries the
/// header that lets it.
pub proof fn law_the_ui_may_read_every_answer(outcome: ProxyOutcome, r: ProxyResponse)
    requires
        answers(outcome, r),
    ensures
        exists|i: int|
            0 <= i < r.headers@.len() && (#[trigger] r.headers@[i]).0@
                == "Access-Control-Allow-Origin"@ && r.headers@[i].1@ == "*"@,
{
    let texts = header_texts(r.headers@);
    assert(texts.len() == r.headers@.len());
    let i: int = if outcome is Reply {
        2
    } else {
        0
    };
    assert(texts[i] == ("Access-Control-Allow-Origin"@, "*"@));
    assert(texts[i] == header(r.headers@[i]));
}

/// A reply is relayed as it came, whatever its status: with its bytes, its media
/// type, which is MPEG audio where the server names none, and its range, where it
/// gives one and nowhere else. Ranges are accepted.
pub proof fn law_replies_are_relayed_as_they_came(outcome: ProxyOutcome, r: ProxyResponse, i: int)
    requires
        answers(outcome, r),
    ensures
        outcome matches ProxyOutcome::Reply { status, content_type, content_range, body } ==> {
            &&& r.status == status
            &&& r.body == body
            &&& r.headers@.len() == 3 || r.headers@.len() == 4
            &&& r.headers@.len() == 4 <==> content_range is Some
            &&& r.headers@[0].0@ == "Content-Type"@
            &&& content_type matches Some(t) ==> r.headers@[0].1@ == t@
            &&& content_type is None ==> r.headers@[0].1@ == "audio/mpeg"@
            &&& r.headers@[1].0@ == "Accept-Ranges"@ && r.headers@[1].1@ == "bytes"@
            &&& content_range matches Some(range) ==> r.headers@[3].0@ == "Content-Range"@
                && r.headers@[3].1@ == range@
            &&& 0 <= i < r.headers@.len() && r.headers@[i].0@ == "Content-Range"@
                ==> content_range is Some
        },
{
    if outcome is Reply {
        reveal_strlit("Content-Type");
        reveal_strlit("Accept-Ranges");
        reveal_strlit("Access-Control-Allow-Origin");
        reveal_strlit("Content-Range");
        let texts = header_texts(r.headers@);
        assert(texts.len() == r.headers@.len());
        assert(texts[0] == header(r.headers@[0]));
        assert(texts[1] == header(r.headers@[1]));
        assert(texts[2] == header(r.headers@[2]));
        if r.headers@.len() == 4 {
            assert(texts[3] == header(r.headers@[3]));
        }
        assert("Content-Type"@[8] != "Content-Range"@[8]);
        assert("Accept-Ranges"@[0] != "Content-Range"@[0]);
        assert("Access-Control-Allow-Origin"@[0] != "Content-Range"@[0]);
    }
}

/// What goes wrong is told apart: a refused address is the UI's fault, a missing
/// client the proxy's, and the rest the server's. The body says what it was.
pub proof fn law_failures_are_told_apart(outcome: ProxyOutcome, r: ProxyResponse)
    requires
        answers(outcome, r),
    ensures
        outcome is Refused ==> r.status == 400,
        outcome == ProxyOutcome::Refused(Refusal::BadUrl) ==> r.body@ == encode_utf8("bad url"@),
        outcome == ProxyOutcome::Refused(Refusal::NotHttp) ==> r.body@ == encode_utf8(
            "only http/https URLs are allowed"@,
        ),
        outcome matches ProxyOutcome::NoClient(e) ==> r.status == 500 && r.body@ == encode_utf8(e@),
        outcome matches ProxyOutcome::NoReply(e) ==> r.status == 502 && r.body@ == encode_utf8(e@),
        outcome matches ProxyOutcome::NoBody(e) ==> r.status == 502 && r.body@ == encode_utf8(e@),
{
}

/// An address that stands for a text leads to it or is refused because it is no
/// HTTP URL; one that stands for bytes which are no text, or for nothing at all,
/// is a bad address.
pub proof fn law_addresses_are_refused_for_a_reason(b64: Seq<char>, text: Seq<char>)
    ensures
        decoded(encode_utf8(b64)) is None ==> target_of(b64) == Err::<Seq<char>, Refusal>(
            Refusal::BadUrl,
        ),
        decoded(encode_utf8(b64)) matches Some(bytes) ==> !valid_utf8(bytes) ==> target_of(b64)
            == Err::<Seq<char>, Refusal>(Refusal::BadUrl),
        decoded(encode_utf8(b64)) == Some(encode_utf8(text)) && is_http(text) ==> target_of(b64)
            == Ok::<Seq<char>, Refusal>(text),
        decoded(encode_utf8(b64)) == Some(encode_utf8(text)) && !is_http(text) ==> target_of(b64)
            == Err::<Seq<char>, Refusal>(Refusal::NotHttp),
{
    vstd::utf8::encode_utf8_valid_utf8(text);
    vstd::utf8::encode_utf8_decode_utf8(text);
}

/// Slashes before an address do not matter: one more leads to the same address,
/// an address without any is taken as it is, and none is left.
pub proof fn law_leading_slashes_do_not_matter(path: Seq<char>)
    ensures
        without_slashes(seq!['/'] + path) == without_slashes(path),
        path.len() > 0 && path[0] != '/' ==> without_slashes(path) == path,
        without_slashes(path).len() > 0 ==> without_slashes(path)[0] != '/',
        without_slashes(path).len() <= path.len(),
        without_slashes(path) == path.skip(path.len() - without_slashes(path).len()),
        forall|i: int|
            0 <= i < path.len() - without_slashes(path).len() ==> #[trigger] path[i] == '/',
    decreases path.len(),
{
    assert((seq!['/'] + path).skip(1) =~= path);
    if path.len() > 0 && path[0] == '/' {
        let rest = path.skip(1);
        law_leading_slashes_do_not_matter(rest);
        let n = without_slashes(path).len();
        assert(rest.skip(rest.len() - n) =~= path.skip(path.len() - n));
        assert forall|i: int| 0 <= i < path.len() - n implies #[trigger] path[i] == '/' by {
            if i > 0 {
                assert(rest[i - 1] == '/');
            }
        }
    } else {
        assert(path.skip(0) =~= path);
    }
}

/// The UI may request what begins with the scheme of HTTP, in its plain or its
/// secure form, and nothing else.
pub proof fn law_requests_go_to_http_alone(url: Seq<char>, rest: Seq<char>, r: Result<(), String>)
    requires
        allows(url, r),
    ensures
        url == seq!['h', 't', 't', 'p', ':', '/', '/'] + rest ==> r is Ok,
        url == seq!['h', 't', 't', 'p', 's', ':', '/', '/'] + rest ==> r is Ok,
        r is Ok ==> url.len() >= 7 && url.take(4) == seq!['h', 't', 't', 'p'],
        r matches Err(m) ==> m@ == "only http/https URLs are allowed"@,
{
    law_urls_start_with_their_scheme(url, rest);
}

/// The UI gets the text of a granted request, untouched, and of any other the
/// status alone.
pub proof fn law_granted_requests_give_their_text(
    status: u16,
    status_text: Seq<char>,
    text: String,
    r: Result<String, String>,
)
    requires
        replies(status, status_text, text, r),
    ensures
        200 <= status <= 299 ==> r == Ok::<String, String>(text),
        status < 200 || status > 299 ==> (r matches Err(m) && m@ == "HTTP "@ + status_text),
{
}

} // verus!
