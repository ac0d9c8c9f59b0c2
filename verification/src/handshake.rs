//! The WebSocket upgrade request that opens a session.

use vstd::prelude::*;
use vstd::string::*;
use vstd::utf8::encode_utf8;
use crate::chance::websocket_key;
use crate::codec::{base64_url, encode_base64_url, parse_url_host, url_host};
use crate::frames::{bearer, bearer_token, text_field};
use crate::json::{fields_of, json_text, Json, JsonValue, Member};

verus! {

/// One header of a request.
#[derive(Debug, PartialEq)]
pub struct Header {
    pub name: String,
    pub value: String,
}

/// The mathematical value of a [`Header`].
pub struct HeaderView {
    pub name: Seq<char>,
    pub value: Seq<char>,
}

impl View for Header {
    type V = HeaderView;

    open spec fn view(&self) -> HeaderView {
        HeaderView { name: self.name@, value: self.value@ }
    }
}

/// A `GET` request that asks for an upgrade to a WebSocket.
#[derive(Debug, PartialEq)]
pub struct UpgradeRequest {
    pub uri: String,
    pub headers: Vec<Header>,
}

/// The mathematical value of an [`UpgradeRequest`].
pub struct RequestView {
    pub uri: Seq<char>,
    pub headers: Seq<HeaderView>,
}

impl View for UpgradeRequest {
    type V = RequestView;

    open spec fn view(&self) -> RequestView {
        RequestView { uri: self.uri@, headers: self.headers@.map_values(|h: Header| h@) }
    }
}

/// Where the socket connects to: `wss://<realtime host>/graphql`.
pub open spec fn endpoint(realtime_uri: Seq<char>) -> Seq<char> {
    "wss://"@ + realtime_uri + "/graphql"@
}

/// `{"host":<host>,"Authorization":"Bearer <token>"}`
pub open spec fn handshake_header_value(token: Seq<char>, host: Seq<char>) -> JsonValue {
    JsonValue::Object(seq![text_field("host"@, host), text_field("Authorization"@, bearer(token))])
}

/// The sub-protocols offered: the protocol's name, then `header-` and the URL-safe
/// base64 of the JSON that carries host and credential.
pub open spec fn protocols_value(token: Seq<char>, host: Seq<char>) -> Seq<char> {
    "graphql-ws, header-"@ + base64_url(
        encode_utf8(json_text(handshake_header_value(token, host))),
    )
}

/// A header `name: value`.
pub open spec fn header(name: Seq<char>, value: Seq<char>) -> HeaderView {
    HeaderView { name, value }
}

/// The upgrade request for the given credential, hosts and key.
pub open spec fn upgrade_request_view(
    token: Seq<char>,
    http_uri: Seq<char>,
    realtime_uri: Seq<char>,
    host: Seq<char>,
    key: Seq<char>,
) -> RequestView {
    RequestView {
        uri: endpoint(realtime_uri),
        headers: seq![
            header("Host"@, host),
            header("Connection"@, "upgrade"@),
            header("Upgrade"@, "websocket"@),
            header("Sec-WebSocket-Version"@, "13"@),
            header("Sec-WebSocket-Protocol"@, protocols_value(token, http_uri)),
            header("Sec-WebSocket-Key"@, key),
        ],
    }
}

/// The key that a request carries.
pub open spec fn key_of(request: RequestView) -> Seq<char> {
    request.headers[5].value
}

/// Whether a server that answers with `status` has accepted the upgrade.
pub fn handshake_accepted(status: u16) -> (accepted: bool)
    ensures
        accepted == (status == 101),
{
    status == 101
}

/// Builds a header.
fn make_header(name: &str, value: &str) -> (h: Header)
    ensures
        h@ == header(name@, value@),
{
    Header { name: String::from_str(name), value: String::from_str(value) }
}

/// The address the socket connects to.
pub fn endpoint_uri(realtime_uri: &str) -> (uri: String)
    ensures
        uri@ == endpoint(realtime_uri@),
{
    String::from_str("wss://").concat(realtime_uri).concat("/graphql")
}

/// The value of the `Sec-WebSocket-Protocol` header.
pub fn protocols_header(token: &str, http_uri: &str) -> (value: String)
    ensures
        value@ == protocols_value(token@, http_uri@),
{
    let authorization = bearer_token(token);
    let mut members: Vec<Member> = Vec::new();
    members.push(Member::new("host", Json::string(http_uri)));
    members.push(Member::new("Authorization", Json::string(authorization.as_str())));
    assert(fields_of(members@) =~= seq![
        text_field("host"@, http_uri@),
        text_field("Authorization"@, bearer(token@)),
    ]);
    let text = Json::object(members).to_text();
    let encoded = encode_base64_url(text.as_str().as_bytes());
    String::from_str("graphql-ws, header-").concat(encoded.as_str())
}

/// Builds the upgrade request from its parts.
pub fn upgrade_request(token: &str, http_uri: &str, realtime_uri: &str, host: &str, key: &str) -> (request:
    UpgradeRequest)
    ensures
        request@ == upgrade_request_view(token@, http_uri@, realtime_uri@, host@, key@),
{
    let protocols = protocols_header(token, http_uri);
    let mut headers: Vec<Header> = Vec::new();
    headers.push(make_header("Host", host));
    headers.push(make_header("Connection", "upgrade"));
    headers.push(make_header("Upgrade", "websocket"));
    headers.push(make_header("Sec-WebSocket-Version", "13"));
    headers.push(make_header("Sec-WebSocket-Protocol", protocols.as_str()));
    headers.push(make_header("Sec-WebSocket-Key", key));
    let request = UpgradeRequest { uri: endpoint_uri(realtime_uri), headers };
    assert(request@.headers =~= upgrade_request_view(
        token@,
        http_uri@,
        realtime_uri@,
        host@,
        key@,
    ).headers);
    request
}

/// Builds the upgrade request for a new attempt, with a freshly drawn key.
///
/// There is a request exactly where the address parses as a URL that names a host;
/// everything in it but the key is then determined.
pub fn connect_request(token: &str, http_uri: &str, realtime_uri: &str) -> (request: Option<
    UpgradeRequest,
>)
    ensures
        match url_host(endpoint(realtime_uri@)) {
            Some(Some(host)) => request matches Some(r) && r@ == upgrade_request_view(
                token@,
                http_uri@,
                realtime_uri@,
                host,
                key_of(r@),
            ),
            _ => request is None,
        },
{
    let uri = endpoint_uri(realtime_uri);
    match parse_url_host(uri.as_str()) {
        Some(Some(host)) => {
            let key = websocket_key();
            Some(upgrade_request(token, http_uri, realtime_uri, host.as_str(), key.as_str()))
        },
        _ => None,
    }
}

} // verus!
