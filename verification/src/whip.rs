//! The WHIP exchange: the headers of the offer and of the deletion of the
//! session, the URL of the session resource that the server's answer
//! designates, and the SDP answer.
use vstd::prelude::*;

use webrtc::peer_connection::sdp::sdp_type::RTCSdpType;
use webrtc::peer_connection::sdp::session_description::RTCSessionDescription;

verus! {

/// `webrtc`'s session description (an SDP offer or answer); carried opaquely.
#[verifier::external_type_specification]
#[verifier::external_body]
pub struct ExRTCSessionDescription(RTCSessionDescription);

/// Why a WHIP exchange failed.
#[derive(Debug)]
pub enum WhipError {
    /// A header value holds a character that HTTP does not allow.
    InvalidHeaderValue,
    /// The URL the response came from is not a URL.
    InvalidResponseUrl,
    /// The `Location` header holds more than visible ASCII characters.
    InvalidLocationHeader,
    /// The `Location` header is not an absolute URL.
    InvalidLocationUrl,
    /// The host of the `Location` URL cannot be set on the resource URL.
    InvalidHost,
    /// The server's answer is not a valid SDP session description.
    InvalidAnswer(webrtc::Error),
}

/// The headers that a WHIP request sets.
#[derive(Clone, Copy, Debug, PartialEq, Eq, Structural)]
pub enum HeaderKind {
    ContentType,
    UserAgent,
    Authorization,
}

/// One header of a request.
pub struct RequestHeader {
    pub name: HeaderKind,
    pub value: String,
}

/// A header as a pair of its name and its text.
pub open spec fn header_view(h: RequestHeader) -> (HeaderKind, Seq<char>) {
    (h.name, h.value@)
}

/// The headers of a list, as pairs.
pub open spec fn headers_view(hs: Seq<RequestHeader>) -> Seq<(HeaderKind, Seq<char>)> {
    hs.map_values(|h: RequestHeader| header_view(h))
}

/// Whether HTTP accepts a character in a header value: any character from
/// the space up, except DEL, and the tab. (A character beyond ASCII is
/// written as bytes of 0x80 and more, which are accepted too.)
pub open spec fn header_char_ok(c: char) -> bool {
    (c as u32 >= 32 && c as u32 != 127) || c == '\t'
}

/// Whether HTTP accepts a text as a header value.
pub open spec fn header_text_ok(s: Seq<char>) -> bool {
    forall|i: int| 0 <= i < s.len() ==> header_char_ok(#[trigger] s[i])
}

/// `http::HeaderValue::from_str` (through `reqwest::header`): whether the
/// text is accepted as a header value. Trusted: the source (version 0.2)
/// accepts exactly the byte strings whose bytes are all at least 32 and not
/// 127, or are the tab; the UTF-8 bytes of a character beyond ASCII are all
/// at least 0x80, so over characters this is `header_text_ok`.
#[verifier::external_body]
fn header_value_accepted(s: &str) -> (r: bool)
    ensures
        r == header_text_ok(s@),
{
    reqwest::header::HeaderValue::from_str(s).is_ok()
}

/// The `User-Agent` of the plugin: `libobs/{version}`.
pub open spec fn user_agent(obs_version: Seq<char>) -> Seq<char> {
    "libobs/"@ + obs_version
}

/// The `Authorization` value for a bearer token: `Bearer {token}`.
pub open spec fn bearer(token: Seq<char>) -> Seq<char> {
    "Bearer "@ + token
}

/// Whether a request carries an `Authorization` header: when a token is
/// given and it is not empty.
pub open spec fn wants_auth(token: Option<Seq<char>>) -> bool {
    token matches Some(t) && t.len() > 0
}

/// The `Authorization` header, when there is one.
pub open spec fn auth_headers(token: Option<Seq<char>>) -> Seq<(HeaderKind, Seq<char>)> {
    if wants_auth(token) {
        seq![(HeaderKind::Authorization, bearer(token.unwrap()))]
    } else {
        Seq::empty()
    }
}

/// Whether every header value of a request is accepted by HTTP.
pub open spec fn headers_ok(obs_version: Seq<char>, token: Option<Seq<char>>) -> bool {
    &&& header_text_ok(user_agent(obs_version))
    &&& wants_auth(token) ==> header_text_ok(bearer(token.unwrap()))
}

/// The headers of the offer: `Content-Type: application/sdp`, the
/// `User-Agent`, and the `Authorization` when there is a token.
pub open spec fn offer_headers_spec(obs_version: Seq<char>, token: Option<Seq<char>>) -> Seq<
    (HeaderKind, Seq<char>),
> {
    seq![
        (HeaderKind::ContentType, "application/sdp"@),
        (HeaderKind::UserAgent, user_agent(obs_version)),
    ] + auth_headers(token)
}

/// The headers of the deletion: the `User-Agent`, and the `Authorization`
/// when there is a token.
pub open spec fn delete_headers_spec(obs_version: Seq<char>, token: Option<Seq<char>>) -> Seq<
    (HeaderKind, Seq<char>),
> {
    seq![(HeaderKind::UserAgent, user_agent(obs_version))] + auth_headers(token)
}

/// The characters of an optional string.
pub open spec fn opt_str_view(s: Option<&str>) -> Option<Seq<char>> {
    match s {
        Some(t) => Some(t@),
        None => None,
    }
}

fn text_header(name: HeaderKind, prefix: &str, rest: &str) -> (r: Option<RequestHeader>)
    ensures
        header_text_ok(prefix@ + rest@) ==> (r matches Some(h) && header_view(h) == (
            name,
            prefix@ + rest@,
        )),
        !header_text_ok(prefix@ + rest@) ==> r is None,
{
    let mut value = String::from_str(prefix);
    value.append(rest);
    if header_value_accepted(value.as_str()) {
        Some(RequestHeader { name, value })
    } else {
        None
    }
}

fn common_headers(
    headers: &mut Vec<RequestHeader>,
    obs_version: &str,
    bearer_token: Option<&str>,
) -> (ok: bool)
    ensures
        ok == headers_ok(obs_version@, opt_str_view(bearer_token)),
        ok ==> headers_view(final(headers)@) == headers_view(old(headers)@) + seq![
            (HeaderKind::UserAgent, user_agent(obs_version@)),
        ] + auth_headers(opt_str_view(bearer_token)),
{
    let ghost before = headers_view(headers@);
    match text_header(HeaderKind::UserAgent, "libobs/", obs_version) {
        Some(h) => headers.push(h),
        None => {
            return false;
        },
    }
    assert(headers_view(headers@) =~= before + seq![
        (HeaderKind::UserAgent, user_agent(obs_version@)),
    ]);
    if let Some(token) = bearer_token {
        if !token.is_empty() {
            match text_header(HeaderKind::Authorization, "Bearer ", token) {
                Some(h) => headers.push(h),
                None => {
                    return false;
                },
            }
        }
    }
    assert(headers_view(headers@) =~= before + seq![
        (HeaderKind::UserAgent, user_agent(obs_version@)),
    ] + auth_headers(opt_str_view(bearer_token)));
    true
}

/// The headers of the WHIP offer (a POST of the SDP offer). Fails when the
/// `User-Agent` or the `Authorization` value is not a valid header value.
pub fn offer_headers(obs_version: &str, bearer_token: Option<&str>) -> (r: Result<
    Vec<RequestHeader>,
    WhipError,
>)
    ensures
        r is Ok <==> headers_ok(obs_version@, opt_str_view(bearer_token)),
        r matches Ok(hs) ==> headers_view(hs@) == offer_headers_spec(
            obs_version@,
            opt_str_view(bearer_token),
        ),
        r matches Err(e) ==> e is InvalidHeaderValue,
{
    let mut headers: Vec<RequestHeader> = Vec::new();
    headers.push(
        RequestHeader {
            name: HeaderKind::ContentType,
            value: String::from_str("application/sdp"),
        },
    );
    assert(headers_view(headers@) =~= seq![(HeaderKind::ContentType, "application/sdp"@)]);
    if common_headers(&mut headers, obs_version, bearer_token) {
        assert(headers_view(headers@) =~= offer_headers_spec(
            obs_version@,
            opt_str_view(bearer_token),
        ));
        Ok(headers)
    } else {
        Err(WhipError::InvalidHeaderValue)
    }
}

/// The headers of the deletion of the WHIP session (a DELETE of the
/// resource). Fails when the `User-Agent` or the `Authorization` value is
/// not a valid header value.
pub fn delete_headers(obs_version: &str, bearer_token: Option<&str>) -> (r: Result<
    Vec<RequestHeader>,
    WhipError,
>)
    ensures
        r is Ok <==> headers_ok(obs_version@, opt_str_view(bearer_token)),
        r matches Ok(hs) ==> headers_view(hs@) == delete_headers_spec(
            obs_version@,
            opt_str_view(bearer_token),
        ),
        r matches Err(e) ==> e is InvalidHeaderValue,
{
    let mut headers: Vec<RequestHeader> = Vec::new();
    assert(headers_view(headers@) =~= Seq::<(HeaderKind, Seq<char>)>::empty());
    if common_headers(&mut headers, obs_version, bearer_token) {
        assert(headers_view(headers@) =~= delete_headers_spec(
            obs_version@,
            opt_str_view(bearer_token),
        ));
        Ok(headers)
    } else {
        Err(WhipError::InvalidHeaderValue)
    }
}

/// Whether `http::HeaderValue::to_str` accepts a header byte: visible
/// ASCII, or the tab.
pub open spec fn visible_ascii(b: u8) -> bool {
    (b >= 32 && b < 127) || b == 9
}

/// Whether every byte of a header value is visible ASCII.
pub open spec fn all_visible_ascii(bytes: Seq<u8>) -> bool {
    forall|i: int| 0 <= i < bytes.len() ==> visible_ascii(#[trigger] bytes[i])
}

/// The text of ASCII bytes, one character per byte.
pub open spec fn ascii_text(bytes: Seq<u8>) -> Seq<char> {
    bytes.map_values(|b: u8| b as char)
}

/// The text of a header value, as `http::HeaderValue::to_str` reads it:
/// the value's bytes as characters when they are all visible ASCII, else
/// nothing.
pub fn header_text(bytes: &[u8]) -> (r: Option<String>)
    ensures
        r is Some <==> all_visible_ascii(bytes@),
        r matches Some(t) ==> t@ == ascii_text(bytes@),
{
    let mut text = String::new();
    let mut i: usize = 0;
    while i < bytes.len()
        invariant
            i <= bytes@.len(),
            forall|k: int| 0 <= k < i ==> visible_ascii(#[trigger] bytes@[k]),
            text@ == ascii_text(bytes@.subrange(0, i as int)),
        decreases bytes@.len() - i,
    {
        let b = bytes[i];
        if !((b >= 32 && b < 127) || b == 9) {
            return None;
        }
        crate::text::push_char(&mut text, b as char);
        i = i + 1;
        assert(ascii_text(bytes@.subrange(0, i as int)) =~= ascii_text(
            bytes@.subrange(0, i - 1),
        ).push(b as char));
    }
    assert(bytes@.subrange(0, bytes@.len() as int) =~= bytes@);
    Some(text)
}

/// What `url::Url::parse` (through `reqwest::Url`) makes of a text: the
/// serialization of the URL it parses to, or nothing when it is not an
/// absolute URL.
pub uninterp spec fn parsed_url(input: Seq<char>) -> Option<Seq<char>>;

/// The text before the first `:` (all of it when there is none). In the
/// serialization of a URL this is the scheme: a serialization starts with
/// the scheme and a `:`, and a scheme holds no `:`.
pub open spec fn text_before_colon(s: Seq<char>) -> Seq<char>
    decreases s.len(),
{
    if s.len() == 0 || s[0] == ':' {
        Seq::empty()
    } else {
        seq![s[0]] + text_before_colon(s.drop_first())
    }
}

/// The host of a URL (`Url::host_str`), given by its serialization; none
/// when the URL has no host.
pub uninterp spec fn url_host(url: Seq<char>) -> Option<Seq<char>>;

/// The path of a URL (`Url::path`), given by its serialization.
pub uninterp spec fn url_path(url: Seq<char>) -> Seq<char>;

/// A URL with its scheme replaced (`Url::set_scheme`), by serializations;
/// none when the URL's scheme cannot be changed to that one.
pub uninterp spec fn url_with_scheme(url: Seq<char>, scheme: Seq<char>) -> Option<Seq<char>>;

/// A URL with its host replaced (`Url::set_host`), by serializations; none
/// when that host cannot be set on the URL.
pub uninterp spec fn url_with_host(url: Seq<char>, host: Seq<char>) -> Option<Seq<char>>;

/// A URL with its path replaced (`Url::set_path`), by serializations.
pub uninterp spec fn url_with_path(url: Seq<char>, path: Seq<char>) -> Seq<char>;

/// Whether a text is the serialization of a URL: it parses, to itself.
pub open spec fn is_url(s: Seq<char>) -> bool {
    parsed_url(s) == Some(s)
}

/// `url::Url::parse`. Trusted: the result is named by `parsed_url`; and a
/// serialization parses back to itself, which the url crate (2.5) asserts in
/// `Url::check_invariants` ("Failed to parse myself?").
#[verifier::external_body]
fn parse_url(input: &str) -> (r: Option<String>)
    ensures
        r matches Some(u) ==> is_url(u@),
        match r {
            Some(u) => parsed_url(input@) == Some(u@),
            None => parsed_url(input@) is None,
        },
{
    reqwest::Url::parse(input).ok().map(|u| u.as_str().to_string())
}

/// `url::Url::scheme` of the URL serialized as `url`. Trusted: the scheme is
/// the serialization's text up to its first `:` (`scheme` slices the
/// serialization up to `scheme_end`, where the parser wrote the `:` that ends
/// the scheme, whose characters are letters, digits, `+`, `-` and `.`).
#[verifier::external_body]
fn scheme_of(url: &str) -> (r: String)
    requires
        is_url(url@),
    ensures
        r@ == text_before_colon(url@),
{
    reqwest::Url::parse(url).unwrap().scheme().to_string()
}

/// `url::Url::host_str` of the URL serialized as `url`. In the url crate's
/// source `host_str` is `Some` exactly when `has_host` holds.
#[verifier::external_body]
fn host_of(url: &str) -> (r: Option<String>)
    requires
        is_url(url@),
    ensures
        match r {
            Some(h) => url_host(url@) == Some(h@),
            None => url_host(url@) is None,
        },
{
    reqwest::Url::parse(url).unwrap().host_str().map(|h| h.to_string())
}

/// `url::Url::path` of the URL serialized as `url`.
#[verifier::external_body]
fn path_of(url: &str) -> (r: String)
    requires
        is_url(url@),
    ensures
        r@ == url_path(url@),
{
    reqwest::Url::parse(url).unwrap().path().to_string()
}

/// `url::Url::set_scheme` on the URL serialized as `url`: the new
/// serialization, or none when `set_scheme` refuses. A serialization parses
/// back to itself (`Url::check_invariants`).
#[verifier::external_body]
fn with_scheme(url: &str, scheme: &str) -> (r: Option<String>)
    requires
        is_url(url@),
    ensures
        r matches Some(u) ==> is_url(u@),
        match r {
            Some(u) => url_with_scheme(url@, scheme@) == Some(u@),
            None => url_with_scheme(url@, scheme@) is None,
        },
{
    let mut u = reqwest::Url::parse(url).unwrap();
    match u.set_scheme(scheme) {
        Ok(()) => Some(u.as_str().to_string()),
        Err(()) => None,
    }
}

/// `url::Url::set_host` with `Some(host)` on the URL serialized as `url`:
/// the new serialization, or none when `set_host` fails. A serialization
/// parses back to itself (`Url::check_invariants`).
#[verifier::external_body]
fn with_host(url: &str, host: &str) -> (r: Option<String>)
    requires
        is_url(url@),
    ensures
        r matches Some(u) ==> is_url(u@),
        match r {
            Some(u) => url_with_host(url@, host@) == Some(u@),
            None => url_with_host(url@, host@) is None,
        },
{
    let mut u = reqwest::Url::parse(url).unwrap();
    match u.set_host(Some(host)) {
        Ok(()) => Some(u.as_str().to_string()),
        Err(_) => None,
    }
}

/// `url::Url::set_path` on the URL serialized as `url`: the new
/// serialization. A serialization parses back to itself
/// (`Url::check_invariants`).
#[verifier::external_body]
fn with_path(url: &str, path: &str) -> (r: String)
    requires
        is_url(url@),
    ensures
        is_url(r@),
        r@ == url_with_path(url@, path@),
{
    let mut u = reqwest::Url::parse(url).unwrap();
    u.set_path(path);
    u.as_str().to_string()
}

/// The URL that a `Location` header designates, once its bytes are checked:
/// an error when they are not all visible ASCII or do not parse as an
/// absolute URL.
pub open spec fn location_url(location: Seq<u8>) -> Result<Seq<char>, WhipError> {
    if !all_visible_ascii(location) {
        Err(WhipError::InvalidLocationHeader)
    } else {
        match parsed_url(ascii_text(location)) {
            Some(l) => Ok(l),
            None => Err(WhipError::InvalidLocationUrl),
        }
    }
}

/// Whether the resource URL can take the scheme of the `Location` URL. When
/// it cannot, the resolution has no result: the plugin stops there.
pub open spec fn scheme_settable(response_url: Seq<char>, location: Option<Seq<u8>>) -> bool {
    match location {
        None => true,
        Some(bytes) => match location_url(bytes) {
            Ok(l) => text_before_colon(l).len() > 0 ==> url_with_scheme(
                response_url,
                text_before_colon(l),
            ) is Some,
            Err(_) => true,
        },
    }
}

/// The resource URL once the `Location` URL `l` has been read: the response
/// URL, with the scheme of `l` when it has one, the host of `l` when it has
/// one, and the path of `l`.
pub open spec fn relocated(response_url: Seq<char>, l: Seq<char>) -> Result<Seq<char>, WhipError> {
    let with_s = if text_before_colon(l).len() > 0 {
        url_with_scheme(response_url, text_before_colon(l)).unwrap()
    } else {
        response_url
    };
    match url_host(l) {
        Some(h) => match url_with_host(with_s, h) {
            Some(with_h) => Ok(url_with_path(with_h, url_path(l))),
            None => Err(WhipError::InvalidHost),
        },
        None => Ok(url_with_path(with_s, url_path(l))),
    }
}

/// The URL of the WHIP session resource: the URL the answer came from when
/// it has no `Location` header; else that URL moved to the `Location`.
pub open spec fn resource_url_spec(response_url: Seq<char>, location: Option<Seq<u8>>) -> Result<
    Seq<char>,
    WhipError,
> {
    match location {
        None => Ok(response_url),
        Some(bytes) => match location_url(bytes) {
            Ok(l) => relocated(response_url, l),
            Err(e) => Err(e),
        },
    }
}

/// The bytes of an optional header value.
pub open spec fn opt_bytes_view(location: Option<&[u8]>) -> Option<Seq<u8>> {
    match location {
        Some(b) => Some(b@),
        None => None,
    }
}

fn read_location(bytes: &[u8]) -> (r: Result<String, WhipError>)
    ensures
        match r {
            Ok(l) => location_url(bytes@) == Ok::<Seq<char>, WhipError>(l@) && is_url(l@),
            Err(e) => location_url(bytes@) == Err::<Seq<char>, WhipError>(e),
        },
{
    match header_text(bytes) {
        None => Err(WhipError::InvalidLocationHeader),
        Some(text) => match parse_url(text.as_str()) {
            Some(l) => Ok(l),
            None => Err(WhipError::InvalidLocationUrl),
        },
    }
}

/// The URL of the WHIP session resource, from the serialization of the URL
/// that the answer came from and the bytes of its `Location` header, if it
/// has one. The caller must make sure that the response URL is a URL and
/// that its scheme can be changed to the one of the `Location`.
pub fn resource_url(response_url: &str, location: Option<&[u8]>) -> (r: Result<String, WhipError>)
    requires
        is_url(response_url@),
        scheme_settable(response_url@, opt_bytes_view(location)),
    ensures
        match r {
            Ok(u) => resource_url_spec(response_url@, opt_bytes_view(location)) == Ok::<
                Seq<char>,
                WhipError,
            >(u@),
            Err(e) => resource_url_spec(response_url@, opt_bytes_view(location)) == Err::<
                Seq<char>,
                WhipError,
            >(e),
        },
{
    let bytes = match location {
        None => {
            return Ok(String::from_str(response_url));
        },
        Some(b) => b,
    };
    let l = match read_location(bytes) {
        Ok(l) => l,
        Err(e) => {
            return Err(e);
        },
    };
    let scheme = scheme_of(l.as_str());
    let url = if scheme.as_str().unicode_len() > 0 {
        with_scheme(response_url, scheme.as_str()).unwrap()
    } else {
        String::from_str(response_url)
    };
    let url = match host_of(l.as_str()) {
        Some(h) => match with_host(url.as_str(), h.as_str()) {
            Some(u) => u,
            None => {
                return Err(WhipError::InvalidHost);
            },
        },
        None => url,
    };
    let path = path_of(l.as_str());
    Ok(with_path(url.as_str(), path.as_str()))
}

/// The resource URL as `resource_url` computes it, for any input: `None`
/// when the response URL is not a URL, or when the resource URL cannot take
/// the scheme of the `Location` (where the plugin gives up).
pub fn try_resource_url(response_url: &str, location: Option<&[u8]>) -> (r: Option<
    Result<String, WhipError>,
>)
    ensures
        r is Some <==> is_url(response_url@) && scheme_settable(
            response_url@,
            opt_bytes_view(location),
        ),
        r matches Some(res) ==> match res {
            Ok(u) => resource_url_spec(response_url@, opt_bytes_view(location)) == Ok::<
                Seq<char>,
                WhipError,
            >(u@),
            Err(e) => resource_url_spec(response_url@, opt_bytes_view(location)) == Err::<
                Seq<char>,
                WhipError,
            >(e),
        },
{
    match parse_url(response_url) {
        Some(u) => {
            if !(u == String::from_str(response_url)) {
                return None;
            }
        },
        None => {
            return None;
        },
    }
    if let Some(bytes) = location {
        if let Ok(l) = read_location(bytes) {
            let scheme = scheme_of(l.as_str());
            if scheme.as_str().unicode_len() > 0 {
                if with_scheme(response_url, scheme.as_str()).is_none() {
                    return None;
                }
            }
        }
    }
    Some(resource_url(response_url, location))
}

/// The name for whether a text is a valid SDP session description, as
/// `webrtc`'s SDP reader (`SessionDescription::unmarshal`) decides.
pub uninterp spec fn sdp_parses(sdp: Seq<char>) -> bool;

/// The kind of a session description (the kinds of WebRTC's `RTCSdpType`).
#[derive(Clone, Copy, Debug, PartialEq, Eq, Structural)]
pub enum SdpKind {
    Unspecified,
    Offer,
    Pranswer,
    Answer,
    Rollback,
}

/// A session description read from a text, together with the text it
/// holds and its kind, both taken from the description itself. Only the
/// reading of an answer builds one.
pub struct SessionDescription {
    sdp: String,
    kind: SdpKind,
    description: RTCSessionDescription,
}

impl SessionDescription {
    /// The SDP text that the description holds.
    pub closed spec fn sdp_text(self) -> Seq<char> {
        self.sdp@
    }

    /// The kind of the description.
    pub closed spec fn sdp_kind(self) -> SdpKind {
        self.kind
    }

    /// The SDP text that the description holds.
    pub fn sdp(&self) -> (r: &str)
        ensures
            r@ == self.sdp_text(),
    {
        self.sdp.as_str()
    }

    /// The kind of the description.
    pub fn kind(&self) -> (r: SdpKind)
        ensures
            r == self.sdp_kind(),
    {
        self.kind
    }

    /// The WebRTC description itself, to hand to the peer connection.
    pub fn into_description(self) -> RTCSessionDescription {
        self.description
    }
}

/// `RTCSessionDescription::answer` (webrtc 0.11): wraps the server's SDP as
/// an answer, after parsing it. Trusted: it succeeds exactly when the SDP
/// parses (its source returns the error of `unmarshal`, and nothing else
/// fails); the description it builds has the given text as its `sdp` field
/// and `RTCSdpType::Answer` as its `sdp_type`, which the result carries
/// alongside it.
#[verifier::external_body]
fn sdp_answer(sdp: String) -> (r: Result<SessionDescription, webrtc::Error>)
    ensures
        r is Ok <==> sdp_parses(sdp@),
        r matches Ok(d) ==> d.sdp_text() == sdp@ && d.sdp_kind() == SdpKind::Answer,
{
    let d = RTCSessionDescription::answer(sdp)?;
    let kind = match d.sdp_type {
        RTCSdpType::Unspecified => SdpKind::Unspecified,
        RTCSdpType::Offer => SdpKind::Offer,
        RTCSdpType::Pranswer => SdpKind::Pranswer,
        RTCSdpType::Answer => SdpKind::Answer,
        RTCSdpType::Rollback => SdpKind::Rollback,
    };
    Ok(SessionDescription { sdp: d.sdp.clone(), kind, description: d })
}

/// The session description of the server's answer, from the body of the
/// response to the offer: the body, read as an answer; an error when the
/// body is not valid SDP.
pub fn answer_description(body: String) -> (r: Result<SessionDescription, WhipError>)
    ensures
        r is Ok <==> sdp_parses(body@),
        r matches Ok(a) ==> a.sdp_text() == body@ && a.sdp_kind() == SdpKind::Answer,
        r matches Err(e) ==> e is InvalidAnswer,
{
    match sdp_answer(body) {
        Ok(d) => Ok(d),
        Err(e) => Err(WhipError::InvalidAnswer(e)),
    }
}

/// Law: the offer carries exactly the headers of the deletion, behind a
/// `Content-Type: application/sdp` header.
pub proof fn lemma_offer_adds_content_type(obs_version: Seq<char>, token: Option<Seq<char>>)
    ensures
        offer_headers_spec(obs_version, token) == seq![
            (HeaderKind::ContentType, "application/sdp"@),
        ] + delete_headers_spec(obs_version, token),
{
    assert(offer_headers_spec(obs_version, token) =~= seq![
        (HeaderKind::ContentType, "application/sdp"@),
    ] + delete_headers_spec(obs_version, token));
}

/// Law: a request carries an `Authorization` header exactly when a
/// non-empty bearer token is given, and then its value is `Bearer {token}`.
pub proof fn lemma_authorization_iff_token(
    obs_version: Seq<char>,
    token: Option<Seq<char>>,
    value: Seq<char>,
)
    ensures
        delete_headers_spec(obs_version, token).contains((HeaderKind::Authorization, value)) <==> (
        wants_auth(token) && value == bearer(token.unwrap())),
        offer_headers_spec(obs_version, token).contains((HeaderKind::Authorization, value)) <==> (
        wants_auth(token) && value == bearer(token.unwrap())),
{
    let d = delete_headers_spec(obs_version, token);
    let o = offer_headers_spec(obs_version, token);
    let a = (HeaderKind::Authorization, value);
    if wants_auth(token) && value == bearer(token.unwrap()) {
        assert(d[1] == a);
        assert(o[2] == a);
    }
    if d.contains(a) {
        let k = choose|k: int| 0 <= k < d.len() && d[k] == a;
        assert(k != 0);
    }
    if o.contains(a) {
        let k = choose|k: int| 0 <= k < o.len() && o[k] == a;
        assert(k != 0 && k != 1);
    }
}

/// Law: without a `Location` header the resource is the URL that the
/// answer came from, unchanged.
pub proof fn lemma_no_location_keeps_url(response_url: Seq<char>)
    ensures
        resource_url_spec(response_url, None) == Ok::<Seq<char>, WhipError>(response_url),
{
}

/// Law: when the `Location` URL `l` has a host `h`, that host is set on the
/// response URL once it has taken the scheme of `l`, whether or not the two
/// schemes were already the same; and the path of `l` is set after it.
/// When `l` has no host, the response URL keeps its own.
pub proof fn lemma_location_host_is_taken(
    response_url: Seq<char>,
    location: Seq<u8>,
    l: Seq<char>,
    moved: Seq<char>,
)
    requires
        location_url(location) == Ok::<Seq<char>, WhipError>(l),
        text_before_colon(l).len() > 0,
        url_with_scheme(response_url, text_before_colon(l)) == Some(moved),
    ensures
        url_host(l) matches Some(h) ==> resource_url_spec(response_url, Some(location)) == match url_with_host(moved, h) {
            Some(w) => Ok::<Seq<char>, WhipError>(url_with_path(w, url_path(l))),
            None => Err::<Seq<char>, WhipError>(WhipError::InvalidHost),
        },
        url_host(l) is None ==> resource_url_spec(response_url, Some(location)) == Ok::<
            Seq<char>,
            WhipError,
        >(url_with_path(moved, url_path(l))),
{
}

/// Law: the resource URL depends on the response URL only through what it
/// becomes once it takes the scheme of the `Location`: two responses that
/// become the same URL (say one `http`, one `https`) designate the same
/// resource.
pub proof fn lemma_resource_depends_on_moved_url(
    response_a: Seq<char>,
    response_b: Seq<char>,
    location: Seq<u8>,
    l: Seq<char>,
)
    requires
        location_url(location) == Ok::<Seq<char>, WhipError>(l),
        text_before_colon(l).len() > 0,
        url_with_scheme(response_a, text_before_colon(l)) is Some,
        url_with_scheme(response_a, text_before_colon(l)) == url_with_scheme(
            response_b,
            text_before_colon(l),
        ),
    ensures
        resource_url_spec(response_a, Some(location)) == resource_url_spec(
            response_b,
            Some(location),
        ),
{
}

/// Law: the `Authorization` value is the seven characters `Bearer ` (with
/// its space) followed by the token; the `User-Agent` is the seven
/// characters `libobs/` followed by OBS's version.
pub proof fn lemma_header_values(token: Seq<char>, obs_version: Seq<char>)
    ensures
        bearer(token).take(7) =~= seq!['B', 'e', 'a', 'r', 'e', 'r', ' '],
        bearer(token).skip(7) =~= token,
        user_agent(obs_version).take(7) =~= seq!['l', 'i', 'b', 'o', 'b', 's', '/'],
        user_agent(obs_version).skip(7) =~= obs_version,
{
    reveal_strlit("Bearer ");
    reveal_strlit("libobs/");
}

/// Law: `text_before_colon` is the longest beginning of a text that holds
/// no `:`; after it comes a `:` or the end of the text.
pub proof fn lemma_text_before_colon(s: Seq<char>)
    ensures
        text_before_colon(s).len() <= s.len(),
        text_before_colon(s) =~= s.take(text_before_colon(s).len() as int),
        forall|i: int| 0 <= i < text_before_colon(s).len() ==> #[trigger] s[i] != ':',
        text_before_colon(s).len() < s.len() ==> s[text_before_colon(s).len() as int] == ':',
    decreases s.len(),
{
    if s.len() > 0 && s[0] != ':' {
        let rest = s.drop_first();
        lemma_text_before_colon(rest);
        assert forall|i: int| 0 <= i < text_before_colon(s).len() implies #[trigger] s[i] != ':' by {
            if i > 0 {
                assert(s[i] == rest[i - 1]);
            }
        }
    }
}

} // verus!
