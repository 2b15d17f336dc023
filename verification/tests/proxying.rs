//! The stream proxy and the UI's own requests.

use horriplayer::base64::base64_encode;
use horriplayer::proxy::{
    check_url, proxy_address, proxy_audio, proxy_target, refuse, refused, relay, text_reply,
    ProxyOutcome, ProxyResponse, Refusal,
};

fn header<'a>(r: &'a ProxyResponse, name: &str) -> Option<&'a str> {
    r.headers.iter().find(|(k, _)| k == name).map(|(_, v)| v.as_str())
}

#[test]
fn the_address_of_a_url_leads_back_to_it() {
    for url in ["http://h/a?b=c&d=~ąę", "https://example.com/", "http://"] {
        let standard = base64_encode(url.as_bytes());
        let safe = standard.trim_end_matches('=').replace('+', "-").replace('/', "_");
        assert_eq!(proxy_target(&standard), Ok(url.to_string()));
        assert_eq!(proxy_target(&safe), Ok(url.to_string()));
    }
}

#[test]
fn addresses_that_are_no_http_url_are_refused() {
    let of = |bytes: &[u8]| proxy_target(&base64_encode(bytes));
    assert_eq!(of(b"ftp://h/a"), Err(Refusal::NotHttp));
    assert_eq!(of(b"file:///etc"), Err(Refusal::NotHttp));
    assert_eq!(of(b""), Err(Refusal::NotHttp));
    assert_eq!(of(b"http://h/\xff"), Err(Refusal::BadUrl));
    assert_eq!(proxy_target("!"), Err(Refusal::BadUrl));
}

#[test]
fn refusals_say_why_and_are_readable_from_anywhere() {
    let r = refused(Refusal::BadUrl);
    assert_eq!(r.status, 400);
    assert_eq!(r.body, b"bad url");
    assert_eq!(
        r.headers,
        vec![("Access-Control-Allow-Origin".to_string(), "*".to_string())]
    );
    assert_eq!(refused(Refusal::NotHttp).body, b"only http/https URLs are allowed");
    assert_eq!(refuse(500, "ąę").body, "ąę".as_bytes());
}

#[test]
fn streams_are_relayed_with_their_range() {
    let r = relay(206, None, Some("bytes 0-1/9".to_string()), vec![1, 2]);
    assert_eq!(r.status, 206);
    assert_eq!(r.body, vec![1, 2]);
    assert_eq!(header(&r, "Content-Type"), Some("audio/mpeg"));
    assert_eq!(header(&r, "Accept-Ranges"), Some("bytes"));
    assert_eq!(header(&r, "Access-Control-Allow-Origin"), Some("*"));
    assert_eq!(header(&r, "Content-Range"), Some("bytes 0-1/9"));
    assert_eq!(r.headers.len(), 4);

    let r = relay(200, Some("audio/flac".to_string()), None, vec![]);
    assert_eq!(header(&r, "Content-Type"), Some("audio/flac"));
    assert_eq!(header(&r, "Content-Range"), None);
    assert_eq!(r.headers.len(), 3);
}

#[test]
fn every_outcome_has_its_answer() {
    let e = || "boom".to_string();
    let r = proxy_audio(ProxyOutcome::Refused(Refusal::NotHttp));
    assert_eq!(r.status, 400);
    assert_eq!(proxy_audio(ProxyOutcome::NoClient(e())).status, 500);
    assert_eq!(proxy_audio(ProxyOutcome::NoReply(e())).status, 502);
    let r = proxy_audio(ProxyOutcome::NoBody(e()));
    assert_eq!(r.status, 502);
    assert_eq!(r.body, b"boom");
    let r = proxy_audio(ProxyOutcome::Reply {
        status: 404,
        content_type: Some("text/html".to_string()),
        content_range: None,
        body: b"gone".to_vec(),
    });
    assert_eq!(r.status, 404, "what the server says is relayed as it is");
    assert_eq!(header(&r, "Content-Type"), Some("text/html"));
    assert_eq!(r.body, b"gone");
}

#[test]
fn the_address_stands_behind_the_slashes() {
    assert_eq!(proxy_address("/aHR0"), "aHR0");
    assert_eq!(proxy_address("//a/b/"), "a/b/");
    assert_eq!(proxy_address("a"), "a");
    assert_eq!(proxy_address("//"), "");
    assert_eq!(proxy_address(""), "");
}

#[test]
fn the_ui_may_request_http_alone() {
    assert_eq!(check_url("http://h"), Ok(()));
    assert_eq!(check_url("https://h"), Ok(()));
    assert_eq!(check_url("file:///a"), Err("only http/https URLs are allowed".to_string()));
}

#[test]
fn the_ui_gets_the_text_or_the_status() {
    let body = || "body".to_string();
    assert_eq!(text_reply(200, "200 OK", body()), Ok(body()));
    assert_eq!(text_reply(299, "299", body()), Ok(body()));
    assert_eq!(text_reply(404, "404 Not Found", body()), Err("HTTP 404 Not Found".to_string()));
    assert_eq!(text_reply(304, "304", body()), Err("HTTP 304".to_string()));
    assert_eq!(text_reply(199, "199", body()), Err("HTTP 199".to_string()));
}
