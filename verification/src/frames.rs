//! The text frames that this client sends.

use vstd::prelude::*;
use vstd::string::*;
use crate::json::{json_text, Field, Json, JsonValue, Member};

verus! {

/// What a frame asks of the server.
#[derive(Debug, Clone, Copy, PartialEq, Eq, Structural)]
pub enum FrameKind {
    /// Opens the session: `connection_init`.
    Init,
    /// Registers a subscription: `start`.
    Start,
    /// Ends a subscription: `stop`.
    Stop,
}

/// One outbound frame: its kind, the subscription it is about (empty for `Init`), and
/// the JSON text that goes on the wire.
#[derive(Debug, PartialEq)]
pub struct Frame {
    pub kind: FrameKind,
    pub id: String,
    pub text: String,
}

/// The mathematical value of a [`Frame`].
pub struct FrameView {
    pub kind: FrameKind,
    pub id: Seq<char>,
    pub text: Seq<char>,
}

impl View for Frame {
    type V = FrameView;

    open spec fn view(&self) -> FrameView {
        FrameView { kind: self.kind, id: self.id@, text: self.text@ }
    }
}

/// The mathematical values of a list of frames, in order.
pub open spec fn frame_views(frames: Seq<Frame>) -> Seq<FrameView> {
    frames.map_values(|f: Frame| f@)
}

/// A member `name` holding the JSON string `text`.
pub open spec fn text_field(name: Seq<char>, text: Seq<char>) -> Field {
    Field { name, value: JsonValue::Str(text) }
}

/// `{"type":"connection_init"}`
pub open spec fn init_value() -> JsonValue {
    JsonValue::Object(seq![text_field("type"@, "connection_init"@)])
}

/// `{"id":<id>,"type":"stop"}`
pub open spec fn stop_value(id: Seq<char>) -> JsonValue {
    JsonValue::Object(seq![text_field("id"@, id), text_field("type"@, "stop"@)])
}

/// `{"query":<query>,"variables":<variables>}`
pub open spec fn data_value(query: Seq<char>, variables: JsonValue) -> JsonValue {
    JsonValue::Object(
        seq![text_field("query"@, query), Field { name: "variables"@, value: variables }],
    )
}

/// The value of the `Authorization` header for `token`.
pub open spec fn bearer(token: Seq<char>) -> Seq<char> {
    "Bearer "@ + token
}

/// `{"Authorization":"Bearer <token>","host":<host>}`
pub open spec fn authorization_value(token: Seq<char>, host: Seq<char>) -> JsonValue {
    JsonValue::Object(
        seq![text_field("Authorization"@, bearer(token)), text_field("host"@, host)],
    )
}

/// The payload of a `start` frame: the query and its variables as one JSON text under
/// `data`, and the authorization under `extensions`.
pub open spec fn start_payload(
    query: Seq<char>,
    variables: JsonValue,
    token: Seq<char>,
    host: Seq<char>,
) -> JsonValue {
    JsonValue::Object(
        seq![
            text_field("data"@, json_text(data_value(query, variables))),
            Field {
                name: "extensions"@,
                value: JsonValue::Object(
                    seq![
                        Field {
                            name: "authorization"@,
                            value: authorization_value(token, host),
                        },
                    ],
                ),
            },
        ],
    )
}

/// `{"id":<id>,"type":"start","payload":{..}}`
pub open spec fn start_value(
    id: Seq<char>,
    query: Seq<char>,
    variables: JsonValue,
    token: Seq<char>,
    host: Seq<char>,
) -> JsonValue {
    JsonValue::Object(
        seq![
            text_field("id"@, id),
            text_field("type"@, "start"@),
            Field { name: "payload"@, value: start_payload(query, variables, token, host) },
        ],
    )
}

/// The frame that opens a session.
pub open spec fn init_frame_view() -> FrameView {
    FrameView { kind: FrameKind::Init, id: Seq::empty(), text: json_text(init_value()) }
}

/// The frame that ends subscription `id`.
pub open spec fn stop_frame_view(id: Seq<char>) -> FrameView {
    FrameView { kind: FrameKind::Stop, id, text: json_text(stop_value(id)) }
}

/// The frame that registers subscription `id`.
pub open spec fn start_frame_view(
    id: Seq<char>,
    query: Seq<char>,
    variables: JsonValue,
    token: Seq<char>,
    host: Seq<char>,
) -> FrameView {
    FrameView {
        kind: FrameKind::Start,
        id,
        text: json_text(start_value(id, query, variables, token, host)),
    }
}

/// A JSON object of one member.
fn object1(a: Member) -> (json: Json)
    ensures
        json@ == JsonValue::Object(seq![a@]),
{
    let mut members: Vec<Member> = Vec::new();
    members.push(a);
    assert(crate::json::fields_of(members@) =~= seq![a@]);
    Json::object(members)
}

/// A JSON object of two members.
fn object2(a: Member, b: Member) -> (json: Json)
    ensures
        json@ == JsonValue::Object(seq![a@, b@]),
{
    let mut members: Vec<Member> = Vec::new();
    members.push(a);
    members.push(b);
    assert(crate::json::fields_of(members@) =~= seq![a@, b@]);
    Json::object(members)
}

/// A JSON object of three members.
fn object3(a: Member, b: Member, c: Member) -> (json: Json)
    ensures
        json@ == JsonValue::Object(seq![a@, b@, c@]),
{
    let mut members: Vec<Member> = Vec::new();
    members.push(a);
    members.push(b);
    members.push(c);
    assert(crate::json::fields_of(members@) =~= seq![a@, b@, c@]);
    Json::object(members)
}

/// The authorization header value for `token`: `Bearer <token>`.
pub fn bearer_token(token: &str) -> (header: String)
    ensures
        header@ == bearer(token@),
{
    String::from_str("Bearer ").concat(token)
}

/// The JSON object that carries the credential: `Authorization` and `host`.
pub fn authorization_json(token: &str, host: &str) -> (json: Json)
    ensures
        json@ == authorization_value(token@, host@),
{
    let header = bearer_token(token);
    object2(
        Member::new("Authorization", Json::string(header.as_str())),
        Member::new("host", Json::string(host)),
    )
}

/// Builds the frame that opens a session.
pub fn init_frame() -> (frame: Frame)
    ensures
        frame@ == init_frame_view(),
{
    let json = object1(Member::new("type", Json::string("connection_init")));
    Frame { kind: FrameKind::Init, id: String::new(), text: json.to_text() }
}

/// Builds the frame that ends subscription `id`.
pub fn stop_frame(id: &str) -> (frame: Frame)
    ensures
        frame@ == stop_frame_view(id@),
{
    let json = object2(Member::new("id", Json::string(id)), Member::new("type", Json::string("stop")));
    Frame { kind: FrameKind::Stop, id: String::from_str(id), text: json.to_text() }
}

/// Builds the frame that registers subscription `id` with its query and variables,
/// carrying the credential inside the payload.
pub fn start_frame(id: &str, query: &str, variables: &Json, token: &str, host: &str) -> (frame:
    Frame)
    ensures
        frame@ == start_frame_view(id@, query@, variables@, token@, host@),
{
    let data = object2(
        Member::new("query", Json::string(query)),
        Member { name: String::from_str("variables"), value: variables.duplicate() },
    );
    let data_text = data.to_text();
    let extensions = object1(
        Member { name: String::from_str("authorization"), value: authorization_json(token, host) },
    );
    let payload = object2(
        Member::new("data", Json::string(data_text.as_str())),
        Member { name: String::from_str("extensions"), value: extensions },
    );
    let json = object3(
        Member::new("id", Json::string(id)),
        Member::new("type", Json::string("start")),
        Member { name: String::from_str("payload"), value: payload },
    );
    Frame { kind: FrameKind::Start, id: String::from_str(id), text: json.to_text() }
}

} // verus!
