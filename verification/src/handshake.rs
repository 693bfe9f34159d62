//! The handshake builder: the upgrade request that opens a session.
//!
//! The request is a plain value: method, target, protocol version and headers. The
//! headers are, in this order, `Connection`, `Host`, `Upgrade`, `Sec-WebSocket-Version`
//! and `Sec-WebSocket-Key`, then `Authorization` if a credential was configured, then
//! the caller's own headers. A caller's header whose name is one of these six,
//! whatever the case of its letters, is refused: the request never carries one of
//! them twice, and it carries `Authorization` only for a configured credential.

use base64::Engine;
use rand::RngCore;
use vstd::prelude::*;
use vstd::string::*;
use vstd::utf8::encode_utf8;
use crate::text::{join, names_match, same_name, text_eq};

verus! {

/// The number of random bytes behind a `Sec-WebSocket-Key`.
pub const KEY_LENGTH: usize = 16;

/// One header of a request.
#[derive(Clone, Debug, PartialEq, Eq)]
pub struct Header {
    pub name: String,
    pub value: String,
}

/// What a `Header` stands for.
pub struct HeaderView {
    pub name: Seq<char>,
    pub value: Seq<char>,
}

impl View for Header {
    type V = HeaderView;

    open spec fn view(&self) -> HeaderView {
        HeaderView { name: self.name@, value: self.value@ }
    }
}

impl DeepView for Header {
    type V = HeaderView;

    open spec fn deep_view(&self) -> HeaderView {
        self@
    }
}

/// The upgrade request. It has no body.
#[derive(Clone, Debug, PartialEq, Eq)]
pub struct HandshakeRequest {
    pub method: String,
    pub uri: String,
    pub version: String,
    pub headers: Vec<Header>,
}

/// What a `HandshakeRequest` stands for.
pub struct RequestView {
    pub method: Seq<char>,
    pub uri: Seq<char>,
    pub version: Seq<char>,
    pub headers: Seq<HeaderView>,
}

impl View for HandshakeRequest {
    type V = RequestView;

    open spec fn view(&self) -> RequestView {
        RequestView {
            method: self.method@,
            uri: self.uri@,
            version: self.version@,
            headers: self.headers.deep_view(),
        }
    }
}

impl DeepView for HandshakeRequest {
    type V = RequestView;

    open spec fn deep_view(&self) -> RequestView {
        self@
    }
}

/// The parts of a parsed URL that the handshake reads.
#[derive(Clone, Debug, PartialEq, Eq)]
pub struct ParsedUrl {
    /// The scheme, in small letters, without the colon.
    pub scheme: String,
    /// The host, if the URL has one.
    pub host: Option<String>,
    /// The URL as the parser writes it out.
    pub href: String,
}

/// What a `ParsedUrl` stands for.
pub struct UrlParts {
    pub scheme: Seq<char>,
    pub host: Option<Seq<char>>,
    pub href: Seq<char>,
}

impl View for ParsedUrl {
    type V = UrlParts;

    open spec fn view(&self) -> UrlParts {
        UrlParts { scheme: self.scheme@, host: self.host.deep_view(), href: self.href@ }
    }
}

impl DeepView for ParsedUrl {
    type V = UrlParts;

    open spec fn deep_view(&self) -> UrlParts {
        self@
    }
}

/// Why no request was built.
#[derive(Clone, Copy, Debug, PartialEq, Eq, Structural)]
pub enum RequestError {
    /// The target is no absolute URL with a host and the scheme `ws` or `wss`.
    InvalidUrl,
    /// One of the caller's headers has the name of a header that the builder sets.
    ReservedHeader,
    /// The system gave no random bytes for the key.
    NoEntropy,
}

/// What the `url` crate makes of `input`: `None` where `Url::parse` fails, else the
/// scheme, the host and the serialization of the URL that it returns.
pub uninterp spec fn url_parts(input: Seq<char>) -> Option<UrlParts>;

/// The standard base64 encoding, with padding, of `bytes`, as the `base64` crate
/// writes it.
pub uninterp spec fn base64_standard(bytes: Seq<u8>) -> Seq<char>;

/// `Url::parse` of the `url` crate, followed by `Url::scheme`, `Url::host_str` and
/// `Url::as_str` on the URL that it returned. Parsing depends on `input` alone; the
/// contract gives the outcome the name `url_parts(input)` and claims nothing else.
#[verifier::external_body]
fn parse_url(input: &str) -> (r: Option<ParsedUrl>)
    ensures
        r.deep_view() == url_parts(input@),
{
    match url::Url::parse(input) {
        Ok(parsed) => Some(
            ParsedUrl {
                scheme: parsed.scheme().to_owned(),
                host: parsed.host_str().map(str::to_owned),
                href: parsed.as_str().to_owned(),
            },
        ),
        Err(_) => None,
    }
}

/// `Engine::encode` of the `base64` crate, on its `STANDARD` engine. The text depends
/// on `bytes` alone; the contract gives it the name `base64_standard(bytes)`. The
/// call panics only where four thirds of the length overflow `usize`, which no slice
/// in memory reaches.
#[verifier::external_body]
fn base64_encode(bytes: &[u8]) -> (r: String)
    ensures
        r@ == base64_standard(bytes@),
{
    base64::engine::general_purpose::STANDARD.encode(bytes)
}

/// The error of the generators of the `rand` crate. Nothing is read from it.
#[verifier::external_type_specification]
#[verifier::external_body]
pub struct ExEntropyError(rand::Error);

/// `RngCore::try_fill_bytes` of the `rand` crate, on `OsRng`: fills `dest` with bytes
/// from the operating system, or fails. Nothing is claimed of the bytes but that
/// there are as many as before.
#[verifier::external_body]
fn fill_random(dest: &mut Vec<u8>) -> (r: Result<(), rand::Error>)
    ensures
        final(dest)@.len() == old(dest)@.len(),
{
    rand::rngs::OsRng.try_fill_bytes(dest.as_mut_slice())
}

/// Whether a caller's header may not have the name `name`.
pub open spec fn is_reserved(name: Seq<char>) -> bool {
    ||| same_name(name, "Connection"@)
    ||| same_name(name, "Host"@)
    ||| same_name(name, "Upgrade"@)
    ||| same_name(name, "Sec-WebSocket-Version"@)
    ||| same_name(name, "Sec-WebSocket-Key"@)
    ||| same_name(name, "Authorization"@)
}

/// Whether one of `headers` has a reserved name.
pub open spec fn any_reserved(headers: Seq<HeaderView>) -> bool {
    exists|i: int| 0 <= i < headers.len() && is_reserved(#[trigger] headers[i].name)
}

/// Whether the handshake can go to the parsed target: it has a host, and its scheme
/// is `ws` or `wss`.
pub open spec fn is_websocket_target(parts: UrlParts) -> bool {
    &&& parts.scheme == "ws"@ || parts.scheme == "wss"@
    &&& parts.host is Some
}

/// The headers that every request carries, for the host `host` and the encoded key
/// `key`.
pub open spec fn mandatory_headers(host: Seq<char>, key: Seq<char>) -> Seq<HeaderView> {
    seq![
        HeaderView { name: "Connection"@, value: "Upgrade"@ },
        HeaderView { name: "Host"@, value: host },
        HeaderView { name: "Upgrade"@, value: "websocket"@ },
        HeaderView { name: "Sec-WebSocket-Version"@, value: "13"@ },
        HeaderView { name: "Sec-WebSocket-Key"@, value: key },
    ]
}

/// The header for the encoded credential `token`, if there is one.
pub open spec fn authorization_headers(token: Option<Seq<char>>) -> Seq<HeaderView> {
    match token {
        Some(t) => seq![HeaderView { name: "Authorization"@, value: "Basic "@ + t }],
        None => Seq::empty(),
    }
}

/// The request for a target that `is_websocket_target` accepts.
pub open spec fn request_spec(
    parts: UrlParts,
    key: Seq<char>,
    token: Option<Seq<char>>,
    extra: Seq<HeaderView>,
) -> RequestView {
    RequestView {
        method: "GET"@,
        uri: parts.href,
        version: "HTTP/1.1"@,
        headers: mandatory_headers(parts.host->0, key) + authorization_headers(token) + extra,
    }
}

/// Why the target `parts` and the caller's headers `extra` give no request, if they
/// give none: the target is looked at first.
pub open spec fn rejection(parts: Option<UrlParts>, extra: Seq<HeaderView>) -> Option<
    RequestError,
> {
    if parts is None || !is_websocket_target(parts->0) {
        Some(RequestError::InvalidUrl)
    } else if any_reserved(extra) {
        Some(RequestError::ReservedHeader)
    } else {
        None
    }
}

/// The request, or why there is none: the target and the caller's headers are looked
/// at before the key.
pub open spec fn assemble_spec(
    parts: Option<UrlParts>,
    key: Option<Seq<char>>,
    token: Option<Seq<char>>,
    extra: Seq<HeaderView>,
) -> Result<RequestView, RequestError> {
    match rejection(parts, extra) {
        Some(error) => Err(error),
        None => match key {
            Some(k) => Ok(request_spec(parts->0, k, token, extra)),
            None => Err(RequestError::NoEntropy),
        },
    }
}

/// Whether `r` is the outcome `expected`.
pub open spec fn is_outcome(
    r: Result<HandshakeRequest, RequestError>,
    expected: Result<RequestView, RequestError>,
) -> bool {
    match expected {
        Ok(view) => r matches Ok(request) && request@ == view,
        Err(error) => r matches Err(e) && e == error,
    }
}

/// Whether a caller's header may not have the name `name`.
pub fn reserved_name(name: &str) -> (b: bool)
    ensures
        b == is_reserved(name@),
{
    names_match(name, "Connection") || names_match(name, "Host") || names_match(name, "Upgrade")
        || names_match(name, "Sec-WebSocket-Version") || names_match(name, "Sec-WebSocket-Key")
        || names_match(name, "Authorization")
}

/// Whether one of `headers` has a reserved name.
pub fn has_reserved(headers: &Vec<Header>) -> (b: bool)
    ensures
        b == any_reserved(headers.deep_view()),
{
    let mut i: usize = 0;
    while i < headers.len()
        invariant
            i <= headers.len(),
            forall|j: int| 0 <= j < i ==> !is_reserved(#[trigger] headers.deep_view()[j].name),
        decreases headers.len() - i,
    {
        if reserved_name(headers[i].name.as_str()) {
            proof {
                assert(is_reserved(headers.deep_view()[i as int].name));
            }
            return true;
        }
        i = i + 1;
    }
    false
}

/// Adds the header `name: value` at the end of `headers`.
fn push_header(headers: &mut Vec<Header>, name: &str, value: String)
    ensures
        final(headers).deep_view() == old(headers).deep_view().push(
            HeaderView { name: name@, value: value@ },
        ),
{
    headers.push(Header { name: String::from_str(name), value });
    proof {
        assert(headers.deep_view() =~= old(headers).deep_view().push(
            HeaderView { name: name@, value: value@ },
        ));
    }
}

/// Builds the request from what the parser, the encoder and the caller gave.
///
/// `parts` is the parsed target, `None` where it did not parse; `key` is the encoded
/// key, `None` where the system gave no random bytes; `token` is the encoded
/// credential, if one was configured; `extra` holds the caller's headers. The target
/// is refused unless it has a host and the scheme `ws` or `wss`; then the caller's
/// headers are refused if one has a reserved name; then a missing key is reported.
pub fn assemble_request(
    parts: Option<ParsedUrl>,
    key: Option<String>,
    token: Option<String>,
    extra: &Vec<Header>,
) -> (r: Result<HandshakeRequest, RequestError>)
    ensures
        is_outcome(
            r,
            assemble_spec(
                parts.deep_view(),
                key.deep_view(),
                token.deep_view(),
                extra.deep_view(),
            ),
        ),
{
    let target: ParsedUrl = match parts {
        Some(target) => target,
        None => { return Err(RequestError::InvalidUrl); },
    };
    let is_ws: bool = text_eq(target.scheme.as_str(), "ws") || text_eq(
        target.scheme.as_str(),
        "wss",
    );
    if !is_ws {
        return Err(RequestError::InvalidUrl);
    }
    let host: String = match target.host {
        Some(host) => host,
        None => { return Err(RequestError::InvalidUrl); },
    };
    if has_reserved(extra) {
        return Err(RequestError::ReservedHeader);
    }
    let key: String = match key {
        Some(key) => key,
        None => { return Err(RequestError::NoEntropy); },
    };
    let mut headers: Vec<Header> = Vec::new();
    proof {
        assert(headers.deep_view() =~= Seq::<HeaderView>::empty());
    }
    push_header(&mut headers, "Connection", String::from_str("Upgrade"));
    push_header(&mut headers, "Host", host);
    push_header(&mut headers, "Upgrade", String::from_str("websocket"));
    push_header(&mut headers, "Sec-WebSocket-Version", String::from_str("13"));
    push_header(&mut headers, "Sec-WebSocket-Key", key);
    proof {
        assert(headers.deep_view() =~= mandatory_headers(host@, key@));
    }
    match token {
        Some(t) => {
            push_header(&mut headers, "Authorization", join("Basic ", t.as_str()));
        },
        None => {},
    }
    proof {
        assert(headers.deep_view() =~= mandatory_headers(host@, key@) + authorization_headers(
            token.deep_view(),
        ));
    }
    let ghost before = headers.deep_view();
    let mut i: usize = 0;
    while i < extra.len()
        invariant
            i <= extra.len(),
            headers.deep_view() == before + extra.deep_view().take(i as int),
        decreases extra.len() - i,
    {
        push_header(&mut headers, extra[i].name.as_str(), extra[i].value.clone());
        proof {
            assert(extra.deep_view().take(i + 1) =~= extra.deep_view().take(i as int).push(
                extra.deep_view()[i as int],
            ));
        }
        i = i + 1;
    }
    proof {
        assert(extra.deep_view().take(extra.len() as int) =~= extra.deep_view());
    }
    Ok(
        HandshakeRequest {
            method: String::from_str("GET"),
            uri: target.href,
            version: String::from_str("HTTP/1.1"),
            headers,
        },
    )
}

/// The encoded credential, if one was configured: the base64 text of its UTF-8 bytes.
pub open spec fn credential_token(credential: Option<Seq<char>>) -> Option<Seq<char>> {
    match credential {
        Some(c) => Some(base64_standard(encode_utf8(c))),
        None => None,
    }
}

/// Whether `bytes` has the length of a key.
pub open spec fn is_key(bytes: Seq<u8>) -> bool {
    bytes.len() == KEY_LENGTH
}

/// Whether `r` is what building the request for `url` gives when the system hands out
/// the random bytes `key`.
pub open spec fn is_request_for(
    r: Result<HandshakeRequest, RequestError>,
    url: Seq<char>,
    key: Seq<u8>,
    credential: Option<Seq<char>>,
    extra: Seq<HeaderView>,
) -> bool {
    is_outcome(
        r,
        assemble_spec(
            url_parts(url),
            Some(base64_standard(key)),
            credential_token(credential),
            extra,
        ),
    )
}

/// Whether `r` is a possible outcome of building the request for `url`: the refusal,
/// where the target or the caller's headers are refused; otherwise `NoEntropy`, or
/// the request for some key.
pub open spec fn is_built(
    r: Result<HandshakeRequest, RequestError>,
    url: Seq<char>,
    credential: Option<Seq<char>>,
    extra: Seq<HeaderView>,
) -> bool {
    match rejection(url_parts(url), extra) {
        Some(error) => r matches Err(e) && e == error,
        None => {
            ||| r matches Err(e) && e == RequestError::NoEntropy
            ||| r is Ok && exists|key: Seq<u8>| #[trigger]
                is_key(key) && is_request_for(r, url, key, credential, extra)
        },
    }
}

/// Builds the upgrade request for `url`.
///
/// The target and the caller's headers are looked at first, and no random bytes are
/// drawn for a request that is refused. Then a fresh key of `KEY_LENGTH` random bytes
/// is drawn from the operating system for this one request; if the system gives none,
/// the outcome is `NoEntropy`. Otherwise the request is the one that
/// `assemble_request` builds from the parsed target, the encoded key, the encoded
/// credential and the caller's headers.
pub fn build_request(url: &str, credential: Option<&str>, extra: &Vec<Header>) -> (r: Result<
    HandshakeRequest,
    RequestError,
>)
    ensures
        is_built(r, url@, credential.deep_view(), extra.deep_view()),
{
    let parts: Option<ParsedUrl> = parse_url(url);
    let refused: bool = match &parts {
        Some(target) => !(text_eq(target.scheme.as_str(), "ws") || text_eq(
            target.scheme.as_str(),
            "wss",
        )) || target.host.is_none(),
        None => true,
    };
    if refused {
        return Err(RequestError::InvalidUrl);
    }
    if has_reserved(extra) {
        return Err(RequestError::ReservedHeader);
    }
    let mut key: Vec<u8> = Vec::new();
    while key.len() < KEY_LENGTH
        invariant
            key.len() <= KEY_LENGTH,
        decreases KEY_LENGTH - key.len(),
    {
        key.push(0u8);
    }
    let key_text: Option<String> = match fill_random(&mut key) {
        Ok(_) => Some(base64_encode(key.as_slice())),
        Err(_) => None,
    };
    let token: Option<String> = match credential {
        Some(c) => Some(base64_encode(c.as_bytes())),
        None => None,
    };
    let r = assemble_request(parts, key_text, token, extra);
    proof {
        if key_text is Some {
            assert(is_key(key@));
            assert(is_request_for(r, url@, key@, credential.deep_view(), extra.deep_view()));
        }
    }
    r
}

/// Whether one of `headers` has the name `name`, whatever the case of its letters.
pub open spec fn carries(headers: Seq<HeaderView>, name: Seq<char>) -> bool {
    exists|i: int| 0 <= i < headers.len() && same_name(#[trigger] headers[i].name, name)
}

/// The value of the first of `headers` that has the name `name`, whatever the case of
/// its letters.
pub open spec fn first_value(headers: Seq<HeaderView>, name: Seq<char>) -> Option<Seq<char>>
    decreases headers.len(),
{
    if headers.len() == 0 {
        None
    } else if same_name(headers[0].name, name) {
        Some(headers[0].value)
    } else {
        first_value(headers.drop_first(), name)
    }
}

impl HandshakeRequest {
    /// The value of the first header that has the name `name`, whatever the case of
    /// its letters.
    pub fn header(&self, name: &str) -> (r: Option<&str>)
        ensures
            r.deep_view() == first_value(self@.headers, name@),
    {
        let ghost all = self.headers.deep_view();
        let mut i: usize = 0;
        proof {
            assert(all.skip(0) =~= all);
        }
        while i < self.headers.len()
            invariant
                i <= self.headers.len(),
                all == self.headers.deep_view(),
                first_value(all, name@) == first_value(all.skip(i as int), name@),
            decreases self.headers.len() - i,
        {
            proof {
                let rest = all.skip(i as int);
                assert(rest[0] == all[i as int]);
                assert(rest.drop_first() =~= all.skip(i + 1));
            }
            if names_match(self.headers[i].name.as_str(), name) {
                return Some(self.headers[i].value.as_str());
            }
            i = i + 1;
        }
        None
    }
}

/// A request carries `Authorization` if and only if a credential was configured, and
/// then its value is `Basic `, followed by the encoded credential.
pub proof fn law_authorization(
    parts: UrlParts,
    key: Seq<char>,
    token: Option<Seq<char>>,
    extra: Seq<HeaderView>,
)
    requires
        rejection(Some(parts), extra) is None,
    ensures
        carries(request_spec(parts, key, token, extra).headers, "Authorization"@)
            <==> token is Some,
        token matches Some(t) ==> request_spec(parts, key, token, extra).headers[5]
            == (HeaderView { name: "Authorization"@, value: "Basic "@ + t }),
{
    reveal_strlit("Connection");
    reveal_strlit("Host");
    reveal_strlit("Upgrade");
    reveal_strlit("Sec-WebSocket-Version");
    reveal_strlit("Sec-WebSocket-Key");
    reveal_strlit("Authorization");
    let headers = request_spec(parts, key, token, extra).headers;
    let fixed = mandatory_headers(parts.host->0, key) + authorization_headers(token);
    if token is Some {
        assert(same_name(headers[5].name, "Authorization"@));
    } else {
        assert forall|i: int| 0 <= i < headers.len() implies !same_name(
            #[trigger] headers[i].name,
            "Authorization"@,
        ) by {
            if i >= 5 {
                assert(headers[i] == extra[i - 5]);
                assert(!is_reserved(extra[i - 5].name));
            }
        }
    }
}

/// A request starts with the five headers of the protocol, in their order, with the
/// host of the target and the key in them; and none of the caller's headers, which
/// come last, has a reserved name.
pub proof fn law_header_order(
    parts: UrlParts,
    key: Seq<char>,
    token: Option<Seq<char>>,
    extra: Seq<HeaderView>,
)
    requires
        rejection(Some(parts), extra) is None,
    ensures
        ({
            let headers = request_spec(parts, key, token, extra).headers;
            let fixed = if token is Some { 6int } else { 5int };
            &&& headers.len() == fixed + extra.len()
            &&& headers.take(5) == mandatory_headers(parts.host->0, key)
            &&& headers.skip(fixed) == extra
            &&& forall|i: int|
                fixed <= i < headers.len() ==> !is_reserved(#[trigger] headers[i].name)
        }),
{
    let headers = request_spec(parts, key, token, extra).headers;
    let fixed = if token is Some { 6int } else { 5int };
    assert(headers.take(5) =~= mandatory_headers(parts.host->0, key));
    assert(headers.skip(fixed) =~= extra);
    assert forall|i: int| fixed <= i < headers.len() implies !is_reserved(
        #[trigger] headers[i].name,
    ) by {
        assert(headers[i] == extra[i - fixed]);
    }
}

impl RequestError {
    /// The cause in words, for one line on the terminal.
    pub open spec fn describe_spec(self) -> Seq<char> {
        match self {
            RequestError::InvalidUrl => "The URL must start with ws:// or wss://"@,
            RequestError::ReservedHeader => "A header of the handshake cannot be set twice"@,
            RequestError::NoEntropy => "The system gave no random bytes for the key"@,
        }
    }

    /// The cause in words, for one line on the terminal.
    pub fn describe(self) -> (text: String)
        ensures
            text@ == self.describe_spec(),
    {
        match self {
            RequestError::InvalidUrl => String::from_str("The URL must start with ws:// or wss://"),
            RequestError::ReservedHeader => String::from_str(
                "A header of the handshake cannot be set twice",
            ),
            RequestError::NoEntropy => String::from_str(
                "The system gave no random bytes for the key",
            ),
        }
    }
}

} // verus!
