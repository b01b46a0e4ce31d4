use obs_webrtc::whip::{
    answer_description, delete_headers, header_text, offer_headers, resource_url,
    try_resource_url, HeaderKind, RequestHeader, SdpKind, WhipError,
};

fn pairs(hs: Vec<RequestHeader>) -> Vec<(HeaderKind, String)> {
    hs.into_iter().map(|h| (h.name, h.value)).collect()
}

#[test]
fn offer_headers_without_token() {
    let hs = pairs(offer_headers("30.1.2", None).unwrap());
    assert_eq!(
        hs,
        vec![
            (HeaderKind::ContentType, "application/sdp".to_string()),
            (HeaderKind::UserAgent, "libobs/30.1.2".to_string()),
        ]
    );
}

#[test]
fn offer_headers_with_token() {
    let hs = pairs(offer_headers("30.1.2", Some("s3cret")).unwrap());
    assert_eq!(hs.len(), 3);
    assert_eq!(hs[2], (HeaderKind::Authorization, "Bearer s3cret".to_string()));
}

#[test]
fn empty_token_sends_no_authorization() {
    let hs = pairs(offer_headers("30", Some("")).unwrap());
    assert!(hs.iter().all(|(n, _)| *n != HeaderKind::Authorization));
}

#[test]
fn delete_headers_have_no_content_type() {
    let hs = pairs(delete_headers("30", Some("tok")).unwrap());
    assert_eq!(
        hs,
        vec![
            (HeaderKind::UserAgent, "libobs/30".to_string()),
            (HeaderKind::Authorization, "Bearer tok".to_string()),
        ]
    );
}

#[test]
fn invalid_header_values_are_refused() {
    assert!(matches!(offer_headers("30", Some("bad\ntoken")), Err(WhipError::InvalidHeaderValue)));
    assert!(matches!(delete_headers("30\u{7f}", None), Err(WhipError::InvalidHeaderValue)));
    assert!(offer_headers("30", Some("tab\tand é")).is_ok());
}

#[test]
fn header_text_is_visible_ascii_only() {
    assert_eq!(header_text(b"https://a.example/x").as_deref(), Some("https://a.example/x"));
    assert_eq!(header_text(b"a\tb").as_deref(), Some("a\tb"));
    assert!(header_text(&[0x68, 0xc3, 0xa9]).is_none());
    assert!(header_text(b"a\x7fb").is_none());
}

#[test]
fn without_location_the_resource_is_the_response_url() {
    let r = try_resource_url("https://whip.example/endpoint", None).unwrap();
    assert_eq!(r.unwrap(), "https://whip.example/endpoint");
}

#[test]
fn absolute_location_moves_scheme_host_and_path() {
    let r = resource_url("https://whip.example:8443/endpoint?x=1", Some(b"http://other.example/resource/42")).unwrap();
    assert_eq!(r, "http://other.example:8443/resource/42?x=1");
}

#[test]
fn location_path_keeps_response_host() {
    let r = try_resource_url("https://whip.example/endpoint", Some(b"https://whip.example/sessions/7")).unwrap();
    assert_eq!(r.unwrap(), "https://whip.example/sessions/7");
}

#[test]
fn relative_location_is_an_error() {
    let r = try_resource_url("https://whip.example/endpoint", Some(b"/sessions/7")).unwrap();
    assert!(matches!(r, Err(WhipError::InvalidLocationUrl)));
}

#[test]
fn non_ascii_location_is_an_error() {
    let r = try_resource_url("https://whip.example/endpoint", Some(&[0xff, 0x41])).unwrap();
    assert!(matches!(r, Err(WhipError::InvalidLocationHeader)));
}

#[test]
fn unsettable_scheme_gives_no_result() {
    assert!(try_resource_url("https://whip.example/endpoint", Some(b"foo://x/y")).is_none());
    assert!(try_resource_url("not a url", None).is_none());
}

#[test]
fn answer_must_be_sdp() {
    assert!(matches!(answer_description("not sdp".to_string()), Err(WhipError::InvalidAnswer(_))));
    let sdp = "v=0\r\no=- 0 0 IN IP4 127.0.0.1\r\ns=-\r\nt=0 0\r\n".to_string();
    let answer = answer_description(sdp.clone()).unwrap();
    assert_eq!(answer.sdp(), sdp);
    assert_eq!(answer.kind(), SdpKind::Answer);
    let description = answer.into_description();
    assert_eq!(description.sdp, sdp);
}
