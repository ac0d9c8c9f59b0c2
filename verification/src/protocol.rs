//! The protocol handler: what each inbound frame does to the worker.

use vstd::prelude::*;
use vstd::string::*;
use crate::json::{json_parse, Json, JsonValue};
use crate::outputs::{
    output_views, send_all, EventView, Notification, NotificationView, Output,
    OutputView, StreamerUpdateEvent,
};
use crate::subscriptions::{
    ids_of, lemma_plan_ids, manage_subscriptions, reconcile_frames, SubscriptionMap,
};
use crate::text::{chars_of, str_eq, text_of};
use crate::strmap::StrMap;
use crate::worker::{listening, AppSyncWorker, Phase, Reaction, WorkerView};

verus! {

/// An inbound frame, decoded.
#[derive(Debug, PartialEq)]
pub struct IncomingMessage {
    pub id: Option<String>,
    pub msg_type: String,
    pub payload: Option<Json>,
}

/// The mathematical value of an [`IncomingMessage`].
pub struct IncomingView {
    pub id: Option<Seq<char>>,
    pub msg_type: Seq<char>,
    pub payload: Option<JsonValue>,
}

/// The mathematical value of an optional JSON value.
pub open spec fn value_of(json: Option<Json>) -> Option<JsonValue> {
    match json {
        Some(j) => Some(j@),
        None => None,
    }
}

impl View for IncomingMessage {
    type V = IncomingView;

    open spec fn view(&self) -> IncomingView {
        IncomingView {
            id: text_of(self.id),
            msg_type: self.msg_type@,
            payload: value_of(self.payload),
        }
    }
}

/// The `id` of a frame: absent and `null` both mean none. Any value but a string is a
/// malformed frame, which is the outer `None`.
pub open spec fn frame_id(frame: JsonValue) -> Option<Option<Seq<char>>> {
    match frame.member("id"@) {
        None => Some(None),
        Some(JsonValue::Null) => Some(None),
        Some(JsonValue::Str(s)) => Some(Some(s)),
        Some(_) => None,
    }
}

/// The `payload` of a frame: absent and `null` both mean none.
pub open spec fn frame_payload(frame: JsonValue) -> Option<JsonValue> {
    match frame.member("payload"@) {
        None => None,
        Some(JsonValue::Null) => None,
        Some(p) => Some(p),
    }
}

/// A frame is a JSON object with a string under `type`, an optional string under `id`
/// and an optional value under `payload`; other members are ignored. Anything else is
/// malformed.
pub open spec fn decoded(frame: JsonValue) -> Option<IncomingView> {
    match (frame.member_text("type"@), frame_id(frame)) {
        (Some(msg_type), Some(id)) => Some(
            IncomingView { id, msg_type, payload: frame_payload(frame) },
        ),
        _ => None,
    }
}

/// Decodes a frame from its JSON value.
pub fn decode(frame: &Json) -> (msg: Option<IncomingMessage>)
    ensures
        match msg {
            Some(m) => decoded(frame@) == Some(m@),
            None => decoded(frame@) is None,
        },
{
    let msg_type = match frame.get("type") {
        Some(t) => match t.as_str() {
            Some(s) => String::from_str(s),
            None => {
                return None;
            },
        },
        None => {
            return None;
        },
    };
    let id = match frame.get("id") {
        None => None,
        Some(Json::Null) => None,
        Some(Json::Str(s)) => Some(s.clone()),
        Some(_) => {
            return None;
        },
    };
    let payload = match frame.get("payload") {
        None => None,
        Some(Json::Null) => None,
        Some(p) => Some(p.duplicate()),
    };
    Some(IncomingMessage { id, msg_type, payload })
}

/// Whether `c` is the letter given in either case.
pub open spec fn same_letter(c: char, lower: char, upper: char) -> bool {
    c == lower || c == upper
}

/// Whether the letters of `lower`, in either case, stand in `text` from `at` on.
/// `upper` holds the same letters in upper case.
pub open spec fn occurs_at(text: Seq<char>, lower: Seq<char>, upper: Seq<char>, at: int) -> bool {
    &&& 0 <= at
    &&& at + lower.len() <= text.len()
    &&& forall|j: int|
        0 <= j < lower.len() ==> same_letter(
            #[trigger] text.subrange(at, at + lower.len())[j],
            lower[j],
            upper[j],
        )
}

/// Whether the letters of `lower`, in either case, stand somewhere in `text`.
pub open spec fn occurs(text: Seq<char>, lower: Seq<char>, upper: Seq<char>) -> bool {
    exists|at: int| #[trigger] occurs_at(text, lower, upper, at)
}

/// Whether an error message signals a missing authorization: it holds `unauthor`, in
/// any mix of upper and lower case.
pub open spec fn unauthorized(message: Seq<char>) -> bool {
    occurs(message, "unauthor"@, "UNAUTHOR"@)
}

/// Whether the letters of `lower`, in either case, stand somewhere in `text`.
fn contains_ignoring_case(text: &str, lower: &str, upper: &str) -> (found: bool)
    requires
        lower@.len() == upper@.len(),
    ensures
        found == occurs(text@, lower@, upper@),
{
    let hay = chars_of(text);
    let low = chars_of(lower);
    let up = chars_of(upper);
    let n: usize = hay.len();
    let m: usize = low.len();
    if m > n {
        assert forall|at: int| !occurs_at(text@, lower@, upper@, at) by {}
        return false;
    }
    let mut at: usize = 0;
    while at <= n - m
        invariant
            hay@ == text@,
            low@ == lower@,
            up@ == upper@,
            n == hay@.len(),
            m == low@.len(),
            m == up@.len(),
            m <= n,
            at <= n - m + 1,
            forall|a: int| 0 <= a < at ==> !occurs_at(text@, lower@, upper@, a),
        decreases n - m + 1 - at,
    {
        let ghost window = text@.subrange(at as int, at + m);
        let mut j: usize = 0;
        let mut all: bool = true;
        while j < m
            invariant
                hay@ == text@,
                low@ == lower@,
                up@ == upper@,
                n == hay@.len(),
                m == low@.len(),
                m == up@.len(),
                at + m <= n,
                j <= m,
                window == text@.subrange(at as int, at + m),
                all ==> forall|k: int|
                    0 <= k < j ==> same_letter(#[trigger] window[k], lower@[k], upper@[k]),
                !all ==> !occurs_at(text@, lower@, upper@, at as int),
            decreases m - j,
        {
            let c = hay[at + j];
            assert(window[j as int] == c);
            if !(c == low[j] || c == up[j]) {
                all = false;
                assert(!same_letter(window[j as int], lower@[j as int], upper@[j as int]));
            }
            j = j + 1;
        }
        if all {
            assert(occurs_at(text@, lower@, upper@, at as int));
            return true;
        }
        at = at + 1;
    }
    assert forall|a: int| !occurs_at(text@, lower@, upper@, a) by {
        if occurs_at(text@, lower@, upper@, a) {
            assert(a < at);
        }
    }
    false
}

/// Whether an error message signals a missing authorization.
pub fn is_unauthorized(message: &str) -> (signal: bool)
    ensures
        signal == unauthorized(message@),
{
    proof {
        reveal_strlit("unauthor");
        reveal_strlit("UNAUTHOR");
    }
    contains_ignoring_case(message, "unauthor", "UNAUTHOR")
}

/// `pending` without `id`, where the frame named one.
pub open spec fn without(pending: Set<Seq<char>>, id: Option<Seq<char>>) -> Set<Seq<char>> {
    match id {
        Some(x) => pending.remove(x),
        None => pending,
    }
}

/// The result that a `data` frame carries: what stands under `data.onUpdateStreamer`
/// of the payload, else under `onUpdateStreamer`, else `null`.
pub open spec fn streamer_object(payload: Option<JsonValue>) -> JsonValue {
    let p = match payload {
        Some(p) => p,
        None => JsonValue::Null,
    };
    let nested = match p.member("data"@) {
        Some(d) => d.member("onUpdateStreamer"@),
        None => None,
    };
    match nested {
        Some(o) => o,
        None => match p.member("onUpdateStreamer"@) {
            Some(o) => o,
            None => JsonValue::Null,
        },
    }
}

/// The string under `key`, or the empty string.
pub open spec fn text_or_empty(object: JsonValue, key: Seq<char>) -> Seq<char> {
    match object.member_text(key) {
        Some(t) => t,
        None => Seq::empty(),
    }
}

/// The application event for a `data` frame.
pub open spec fn event_for(id: Option<Seq<char>>, payload: Option<JsonValue>) -> EventView {
    let object = streamer_object(payload);
    EventView { sub_id: id, broadcaster_id: object.member_text("broadcaster_id"@), payload: object }
}

/// The heading of the notification for an update of kind `kind` by `name`, where that
/// kind calls for one.
pub open spec fn heading_for(name: Seq<char>, kind: Seq<char>) -> Option<Seq<char>> {
    if kind == "channel_updated"@ {
        Some(name + " - Channel updated"@)
    } else if kind == "status"@ {
        Some(name + " just went live!"@)
    } else {
        None
    }
}

/// The notification that a result calls for: one where it names its owner and is of a
/// kind that is worth telling.
pub open spec fn notification_for(object: JsonValue) -> Option<NotificationView> {
    match (object.member_text("broadcaster_name"@), object.member_text("type"@)) {
        (Some(name), Some(kind)) => match heading_for(name, kind) {
            Some(heading) => Some(
                NotificationView {
                    heading,
                    body: text_or_empty(object, "category"@) + " - "@ + text_or_empty(
                        object,
                        "title"@,
                    ),
                    name,
                },
            ),
            None => None,
        },
        _ => None,
    }
}

/// The outputs of a `data` frame: the application event, then the notification where
/// the result calls for one.
pub open spec fn data_outputs(id: Option<Seq<char>>, payload: Option<JsonValue>) -> Seq<
    OutputView,
> {
    let event = seq![OutputView::Emit(event_for(id, payload))];
    match notification_for(streamer_object(payload)) {
        Some(n) => event.push(OutputView::Notify(n)),
        None => event,
    }
}

/// The message of the first error that an `error` frame reports.
pub open spec fn first_error_message(payload: Option<JsonValue>) -> Option<Seq<char>> {
    match payload {
        Some(p) => match p.member("errors"@) {
            Some(errors) => match errors.first() {
                Some(error) => error.member_text("message"@),
                None => None,
            },
            None => None,
        },
        None => None,
    }
}

/// Whether an `error` frame signals a missing authorization.
pub open spec fn authorization_error(payload: Option<JsonValue>) -> bool {
    match first_error_message(payload) {
        Some(message) => unauthorized(message),
        None => false,
    }
}

impl WorkerView {
    /// A `start_ack` or `complete` frame: the subscription it names is pending no more.
    pub open spec fn on_settled(self, id: Option<Seq<char>>) -> Reaction {
        Reaction {
            worker: WorkerView { pending: without(self.pending, id), ..self },
            outputs: Seq::empty(),
        }
    }

    /// An `error` frame: the subscription it names is pending no more. On an open
    /// session an authorization error calls for a credential refresh, after which the
    /// socket is closed; any other error closes the socket at once and counts as a
    /// failed attempt.
    pub open spec fn on_error(self, id: Option<Seq<char>>, payload: Option<JsonValue>) -> Reaction {
        let settled = WorkerView { pending: without(self.pending, id), ..self };
        if !listening(self.phase) {
            Reaction { worker: settled, outputs: Seq::empty() }
        } else if authorization_error(payload) {
            Reaction {
                worker: WorkerView { phase: Phase::RefreshingForError, ..settled },
                outputs: Seq::empty(),
            }
        } else {
            Reaction { worker: settled.backed_off(), outputs: seq![OutputView::Close] }
        }
    }

    /// What a decoded frame does, by its `type`.
    pub open spec fn on_frame(self, msg: IncomingView) -> Reaction {
        if msg.msg_type == "connection_ack"@ {
            self.on_connection_ack()
        } else if msg.msg_type == "ka"@ || msg.msg_type == "keepalive"@ {
            self.unchanged()
        } else if msg.msg_type == "start_ack"@ || msg.msg_type == "complete"@ {
            self.on_settled(msg.id)
        } else if msg.msg_type == "data"@ || msg.msg_type == "next"@ {
            Reaction { worker: self, outputs: data_outputs(msg.id, msg.payload) }
        } else if msg.msg_type == "error"@ || msg.msg_type == "connection_error"@ {
            self.on_error(msg.id, msg.payload)
        } else {
            self.unchanged()
        }
    }

    /// What a frame's JSON value does: nothing where it is malformed.
    pub open spec fn on_json(self, frame: JsonValue) -> Reaction {
        match decoded(frame) {
            Some(msg) => self.on_frame(msg),
            None => self.unchanged(),
        }
    }

    /// What a text frame does: nothing where it is no JSON.
    pub open spec fn on_text(self, text: Seq<char>) -> Reaction {
        match json_parse(text) {
            Some(frame) => self.on_json(frame),
            None => self.unchanged(),
        }
    }
}

/// After a `connection_ack` on an open session exactly the active subscriptions are
/// pending, as many as the active map holds, and the outputs are one `start` frame for
/// each entry of the active map, in order, and nothing else.
pub proof fn ack_starts_every_subscription(w: WorkerView)
    requires
        w.wf(),
        listening(w.phase),
    ensures
        w.on_connection_ack().worker.phase == Phase::Acked,
        w.on_connection_ack().worker.active == w.active,
        w.on_connection_ack().worker.pending == ids_of(w.active).to_set(),
        w.on_connection_ack().worker.pending.len() == w.active.len(),
        w.on_connection_ack().outputs.len() == w.active.len(),
        forall|i: int|
            0 <= i < w.active.len() ==> #[trigger] w.on_connection_ack().outputs[i]
                == OutputView::Send(
                crate::frames::start_frame_view(
                    w.active[i].id,
                    w.active[i].descriptor.query,
                    w.active[i].descriptor.variables,
                    w.token,
                    w.http_uri,
                ),
            ),
{
    let ids = ids_of(w.active);
    crate::subscriptions::lemma_start_everything(w.active, w.token, w.http_uri);
    assert(ids_of(Seq::<crate::subscriptions::Planned>::empty()) =~= Seq::<Seq<char>>::empty());
    assert(Seq::<Seq<char>>::empty().to_set() =~= Set::<Seq<char>>::empty());
    assert(w.on_connection_ack().worker.pending =~= ids.to_set());
    ids.unique_seq_to_set();
    let frames = reconcile_frames(Seq::empty(), w.active, w.token, w.http_uri);
    assert(frames =~= crate::subscriptions::start_frames(
        w.active,
        Set::empty(),
        w.token,
        w.http_uri,
    ));
}

/// A `start_ack` or `complete` frame that names a subscription takes exactly that one
/// out of the pending set and changes nothing else, whatever the state; naming one
/// that is not pending changes nothing at all.
pub proof fn settling_removes_exactly_the_named(w: WorkerView, msg: IncomingView, id: Seq<char>)
    requires
        msg.msg_type == "start_ack"@ || msg.msg_type == "complete"@,
        msg.id == Some(id),
    ensures
        w.on_frame(msg).worker == (WorkerView { pending: w.pending.remove(id), ..w }),
        w.on_frame(msg).outputs == Seq::<OutputView>::empty(),
        !w.pending.contains(id) ==> w.on_frame(msg).worker == w,
{
    reveal_strlit("start_ack");
    reveal_strlit("complete");
    reveal_strlit("connection_ack");
    reveal_strlit("ka");
    reveal_strlit("keepalive");
    assert("start_ack"@.len() == 9 && "complete"@.len() == 8);
    assert("connection_ack"@.len() == 14 && "ka"@.len() == 2 && "keepalive"@.len() == 9);
    assert("start_ack"@[0] != "keepalive"@[0]);
    assert(msg.msg_type != "connection_ack"@);
    assert(msg.msg_type != "ka"@);
    assert(msg.msg_type != "keepalive"@);
    assert(w.on_frame(msg) == w.on_settled(msg.id));
    if !w.pending.contains(id) {
        assert(w.pending.remove(id) =~= w.pending);
    }
}

/// No outputs.
fn nothing() -> (outputs: Vec<Output>)
    ensures
        output_views(outputs@) == Seq::<OutputView>::empty(),
{
    let outputs: Vec<Output> = Vec::new();
    assert(output_views(outputs@) =~= Seq::<OutputView>::empty());
    outputs
}

/// The string under `key` of `object`, copied out.
fn member_string(object: &Json, key: &str) -> (text: Option<String>)
    ensures
        text_of(text) == object@.member_text(key@),
{
    match object.get(key) {
        Some(v) => match v.as_str() {
            Some(s) => Some(String::from_str(s)),
            None => None,
        },
        None => None,
    }
}

/// Picks the result out of the payload of a `data` frame.
pub fn extract_streamer_object(payload: &Option<Json>) -> (object: Json)
    ensures
        object@ == streamer_object(value_of(*payload)),
{
    match payload {
        Some(p) => {
            let nested = match p.get("data") {
                Some(d) => d.get("onUpdateStreamer"),
                None => None,
            };
            match nested {
                Some(o) => o.duplicate(),
                None => match p.get("onUpdateStreamer") {
                    Some(o) => o.duplicate(),
                    None => Json::Null,
                },
            }
        },
        None => Json::Null,
    }
}

/// The notification that a result calls for.
pub fn notification_of(object: &Json) -> (notification: Option<Notification>)
    ensures
        match notification {
            Some(n) => notification_for(object@) == Some(n@),
            None => notification_for(object@) is None,
        },
{
    let name = match member_string(object, "broadcaster_name") {
        Some(name) => name,
        None => {
            return None;
        },
    };
    let kind = match member_string(object, "type") {
        Some(kind) => kind,
        None => {
            return None;
        },
    };
    let heading = if str_eq(kind.as_str(), "channel_updated") {
        name.clone().concat(" - Channel updated")
    } else if str_eq(kind.as_str(), "status") {
        name.clone().concat(" just went live!")
    } else {
        return None;
    };
    let category = match member_string(object, "category") {
        Some(c) => c,
        None => String::new(),
    };
    let title = match member_string(object, "title") {
        Some(t) => t,
        None => String::new(),
    };
    let body = category.concat(" - ").concat(title.as_str());
    Some(Notification { heading, body, name })
}

/// A `connection_ack`: the session is acknowledged and every active subscription is
/// started on it.
pub fn handle_connection_ack(worker: &mut AppSyncWorker) -> (outputs: Vec<Output>)
    requires
        old(worker).wf(),
    ensures
        final(worker).wf(),
        final(worker)@ == old(worker)@.on_connection_ack().worker,
        output_views(outputs@) == old(worker)@.on_connection_ack().outputs,
{
    if worker.phase == Phase::Unacked || worker.phase == Phase::Acked {
        let nothing_yet: SubscriptionMap = StrMap::new();
        proof {
            lemma_plan_ids(nothing_yet);
            lemma_plan_ids(worker.active_subscriptions);
            assert(crate::subscriptions::plan_of(nothing_yet) =~= Seq::empty());
            assert(ids_of(Seq::empty()) =~= Seq::<Seq<char>>::empty());
            assert(Seq::<Seq<char>>::empty().to_set() =~= Set::<Seq<char>>::empty());
        }
        let frames = manage_subscriptions(
            worker.token.as_str(),
            worker.http_uri.as_str(),
            &nothing_yet,
            &worker.active_subscriptions,
            &mut worker.pending_subscriptions,
        );
        worker.phase = Phase::Acked;
        proof {
            worker.pending_subscriptions.lemma_finite();
        }
        send_all(frames)
    } else {
        nothing()
    }
}

/// A `start_ack`: the subscription it names is pending no more. Naming one that is not
/// pending changes nothing.
pub fn handle_start_ack(worker: &mut AppSyncWorker, id: &Option<String>) -> (outputs: Vec<Output>)
    requires
        old(worker).wf(),
    ensures
        final(worker).wf(),
        final(worker)@ == old(worker)@.on_settled(text_of(*id)).worker,
        output_views(outputs@) == old(worker)@.on_settled(text_of(*id)).outputs,
{
    match id {
        Some(id_str) => {
            let _ = worker.pending_subscriptions.remove(id_str.as_str());
            proof {
                worker.pending_subscriptions.lemma_finite();
                if worker.phase == Phase::Unacked {
                    assert(worker.pending_subscriptions@ =~= Set::<Seq<char>>::empty());
                }
            }
        },
        None => {},
    }
    nothing()
}

/// A `complete`: the subscription it names is pending no more.
pub fn handle_complete(worker: &mut AppSyncWorker, id: &Option<String>) -> (outputs: Vec<Output>)
    requires
        old(worker).wf(),
    ensures
        final(worker).wf(),
        final(worker)@ == old(worker)@.on_settled(text_of(*id)).worker,
        output_views(outputs@) == old(worker)@.on_settled(text_of(*id)).outputs,
{
    handle_start_ack(worker, id)
}

/// A `data` or `next` frame: the result it carries becomes an application event, and a
/// notification where it calls for one. The worker does not change.
pub fn handle_data(id: Option<String>, payload: Option<Json>) -> (outputs: Vec<Output>)
    ensures
        output_views(outputs@) == data_outputs(text_of(id), value_of(payload)),
{
    let object = extract_streamer_object(&payload);
    let notification = notification_of(&object);
    let broadcaster_id = member_string(&object, "broadcaster_id");
    let mut outputs: Vec<Output> = Vec::new();
    outputs.push(Output::Emit(StreamerUpdateEvent { sub_id: id, broadcaster_id, payload: object }));
    match notification {
        Some(n) => {
            outputs.push(Output::Notify(n));
        },
        None => {},
    }
    assert(output_views(outputs@) =~= data_outputs(text_of(id), value_of(payload)));
    outputs
}

/// Whether the payload of an `error` frame signals a missing authorization: its first
/// error's message says so.
pub fn is_authorization_error(payload: &Option<Json>) -> (signal: bool)
    ensures
        signal == authorization_error(value_of(*payload)),
{
    match payload {
        Some(p) => match p.get("errors") {
            Some(errors) => match errors.first() {
                Some(error) => match error.get("message") {
                    Some(message) => match message.as_str() {
                        Some(text) => is_unauthorized(text),
                        None => false,
                    },
                    None => false,
                },
                None => false,
            },
            None => false,
        },
        None => false,
    }
}

/// An `error` or `connection_error` frame.
pub fn handle_error(worker: &mut AppSyncWorker, id: &Option<String>, payload: &Option<Json>) -> (outputs:
    Vec<Output>)
    requires
        old(worker).wf(),
    ensures
        final(worker).wf(),
        final(worker)@ == old(worker)@.on_error(text_of(*id), value_of(*payload)).worker,
        output_views(outputs@) == old(worker)@.on_error(text_of(*id), value_of(*payload)).outputs,
{
    let _ = handle_start_ack(worker, id);
    if !(worker.phase == Phase::Unacked || worker.phase == Phase::Acked) {
        nothing()
    } else if is_authorization_error(payload) {
        worker.phase = Phase::RefreshingForError;
        nothing()
    } else {
        worker.back_off();
        let mut outputs: Vec<Output> = Vec::new();
        outputs.push(Output::Close);
        assert(output_views(outputs@) =~= seq![OutputView::Close]);
        outputs
    }
}

/// Takes a decoded frame.
pub fn handle_incoming(worker: &mut AppSyncWorker, msg: IncomingMessage) -> (outputs: Vec<Output>)
    requires
        old(worker).wf(),
    ensures
        final(worker).wf(),
        final(worker)@ == old(worker)@.on_frame(msg@).worker,
        output_views(outputs@) == old(worker)@.on_frame(msg@).outputs,
{
    let kind = msg.msg_type.as_str();
    if str_eq(kind, "connection_ack") {
        handle_connection_ack(worker)
    } else if str_eq(kind, "ka") || str_eq(kind, "keepalive") {
        nothing()
    } else if str_eq(kind, "start_ack") {
        handle_start_ack(worker, &msg.id)
    } else if str_eq(kind, "complete") {
        handle_complete(worker, &msg.id)
    } else if str_eq(kind, "data") || str_eq(kind, "next") {
        handle_data(msg.id, msg.payload)
    } else if str_eq(kind, "error") || str_eq(kind, "connection_error") {
        handle_error(worker, &msg.id, &msg.payload)
    } else {
        nothing()
    }
}

/// Takes the JSON value of a frame; a malformed one changes nothing.
pub fn handle_json(worker: &mut AppSyncWorker, frame: &Json) -> (outputs: Vec<Output>)
    requires
        old(worker).wf(),
    ensures
        final(worker).wf(),
        final(worker)@ == old(worker)@.on_json(frame@).worker,
        output_views(outputs@) == old(worker)@.on_json(frame@).outputs,
{
    match decode(frame) {
        Some(msg) => handle_incoming(worker, msg),
        None => nothing(),
    }
}

/// Takes a text frame from the socket; text that is no JSON changes nothing.
pub fn handle_message(worker: &mut AppSyncWorker, text: &str) -> (outputs: Vec<Output>)
    requires
        old(worker).wf(),
    ensures
        final(worker).wf(),
        final(worker)@ == old(worker)@.on_text(text@).worker,
        output_views(outputs@) == old(worker)@.on_text(text@).outputs,
{
    match Json::parse(text) {
        Some(frame) => handle_json(worker, &frame),
        None => nothing(),
    }
}

} // verus!
