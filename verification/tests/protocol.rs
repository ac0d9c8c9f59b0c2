use notisr::frames::FrameKind;
use notisr::json::Json;
use notisr::outputs::{Notification, Output, StreamerUpdateEvent};
use notisr::protocol::{
    decode, extract_streamer_object, handle_data, handle_incoming, handle_json, handle_message,
    is_authorization_error, is_unauthorized, notification_of, IncomingMessage,
};
use notisr::worker::{AppSyncWorker, Next, Phase};

fn worker_for(ids: &[&str]) -> AppSyncWorker {
    let ids: Vec<String> = ids.iter().map(|s| s.to_string()).collect();
    AppSyncWorker::new(
        "tok".to_string(),
        "api.example".to_string(),
        "realtime.example".to_string(),
        "user-1".to_string(),
        &ids,
    )
    .worker
}

fn acked_worker(ids: &[&str]) -> AppSyncWorker {
    let mut worker = worker_for(ids);
    worker.on_handshake(Some(101));
    handle_message(&mut worker, r#"{"type":"connection_ack"}"#);
    worker
}

fn parsed(text: &str) -> Json {
    Json::parse(text).unwrap()
}

#[test]
fn frames_decode_by_their_members() {
    let msg = decode(&parsed(r#"{"type":"data","id":"s1","payload":{"a":1},"extra":true}"#)).unwrap();
    assert_eq!(msg.msg_type, "data");
    assert_eq!(msg.id, Some("s1".to_string()));
    assert_eq!(msg.payload, Some(parsed(r#"{"a":1}"#)));

    let bare = decode(&parsed(r#"{"type":"ka"}"#)).unwrap();
    assert_eq!(bare, IncomingMessage { id: None, msg_type: "ka".to_string(), payload: None });

    let nulls = decode(&parsed(r#"{"type":"ka","id":null,"payload":null}"#)).unwrap();
    assert_eq!(nulls, IncomingMessage { id: None, msg_type: "ka".to_string(), payload: None });
}

#[test]
fn malformed_frames_do_not_decode() {
    assert_eq!(decode(&parsed(r#"{"id":"s1"}"#)), None);
    assert_eq!(decode(&parsed(r#"{"type":5}"#)), None);
    assert_eq!(decode(&parsed(r#"{"type":"data","id":5}"#)), None);
    assert_eq!(decode(&parsed(r#"["data"]"#)), None);
    assert_eq!(decode(&parsed("null")), None);
    assert_eq!(decode(&parsed("\"data\"")), None);
}

#[test]
fn connection_ack_starts_every_active_subscription() {
    let mut worker = worker_for(&["111", "222"]);
    assert_eq!(worker.active_subscriptions.len(), 2);
    worker.on_handshake(Some(101));
    assert_eq!(worker.phase, Phase::Unacked);
    assert_eq!(worker.pending_subscriptions.len(), 0);

    let outputs = handle_message(&mut worker, r#"{"type":"connection_ack"}"#);
    assert_eq!(worker.phase, Phase::Acked);
    assert!(worker.is_connected());
    assert_eq!(outputs.len(), 2);
    for (i, output) in outputs.iter().enumerate() {
        match output {
            Output::Send(frame) => {
                assert_eq!(frame.kind, FrameKind::Start);
                assert_eq!(frame.id, worker.active_subscriptions.key_at(i));
                assert!(worker.pending_subscriptions.contains(&frame.id));
            }
            other => panic!("unexpected output {:?}", other),
        }
    }
    assert_eq!(worker.pending_subscriptions.len(), worker.active_subscriptions.len());

    let first = worker.active_subscriptions.key_at(0).to_string();
    let ack = format!(r#"{{"type":"start_ack","id":"{}"}}"#, first);
    let outputs = handle_message(&mut worker, &ack);
    assert!(outputs.is_empty());
    assert_eq!(worker.pending_subscriptions.len(), 1);
    assert!(!worker.pending_subscriptions.contains(&first));
}

#[test]
fn connection_ack_is_ignored_without_a_socket() {
    let mut worker = worker_for(&["111"]);
    let outputs = handle_message(&mut worker, r#"{"type":"connection_ack"}"#);
    assert!(outputs.is_empty());
    assert_eq!(worker.phase, Phase::Connecting);
    assert_eq!(worker.pending_subscriptions.len(), 0);
}

#[test]
fn settled_subscription_leaves_pending_and_nothing_else_changes() {
    for kind in ["start_ack", "complete"] {
        let mut worker = acked_worker(&["111", "222", "333"]);
        let target = worker.active_subscriptions.key_at(1).to_string();
        let others = [
            worker.active_subscriptions.key_at(0).to_string(),
            worker.active_subscriptions.key_at(2).to_string(),
        ];
        let text = format!(r#"{{"type":"{}","id":"{}"}}"#, kind, target);
        let outputs = handle_message(&mut worker, &text);
        assert!(outputs.is_empty());
        assert!(!worker.pending_subscriptions.contains(&target));
        for other in &others {
            assert!(worker.pending_subscriptions.contains(other));
        }
        assert_eq!(worker.pending_subscriptions.len(), 2);
        assert_eq!(worker.active_subscriptions.len(), 3);
        assert_eq!(worker.phase, Phase::Acked);

        let again = handle_message(&mut worker, &text);
        assert!(again.is_empty());
        assert_eq!(worker.pending_subscriptions.len(), 2);

        let unknown = format!(r#"{{"type":"{}","id":"never-seen"}}"#, kind);
        handle_message(&mut worker, &unknown);
        assert_eq!(worker.pending_subscriptions.len(), 2);

        let unnamed = format!(r#"{{"type":"{}"}}"#, kind);
        handle_message(&mut worker, &unnamed);
        assert_eq!(worker.pending_subscriptions.len(), 2);
    }
}

#[test]
fn keepalive_unknown_and_malformed_frames_change_nothing() {
    let mut worker = acked_worker(&["111"]);
    for text in [
        r#"{"type":"ka"}"#,
        r#"{"type":"keepalive"}"#,
        r#"{"type":"message"}"#,
        r#"{"type":"something_else","id":"x"}"#,
        r#"{"no_type":true}"#,
        r#"{"type":"start_ack","id":17}"#,
        "{ this is not json",
        "",
    ] {
        let outputs = handle_message(&mut worker, text);
        assert!(outputs.is_empty(), "{}", text);
        assert_eq!(worker.phase, Phase::Acked);
        assert_eq!(worker.pending_subscriptions.len(), 1);
        assert_eq!(worker.active_subscriptions.len(), 1);
        assert_eq!(worker.backoff_attempt, 0);
    }
}

#[test]
fn unauthorized_error_refreshes_then_closes_and_backs_off() {
    for refreshed in [None, Some("new-token".to_string())] {
        let mut worker = acked_worker(&["111"]);
        worker.pending_subscriptions.insert("abc".to_string());
        let outputs = handle_message(
            &mut worker,
            r#"{"type":"error","id":"abc","payload":{"errors":[{"message":"Unauthorized"}]}}"#,
        );
        assert!(outputs.is_empty());
        assert!(!worker.pending_subscriptions.contains("abc"));
        assert_eq!(worker.phase, Phase::RefreshingForError);
        assert_eq!(worker.next(), Next::Refresh);

        let expected_token = refreshed.clone().unwrap_or("tok".to_string());
        let outputs = worker.on_refreshed(refreshed);
        assert_eq!(outputs, vec![Output::Close]);
        assert_eq!(worker.token, expected_token);
        assert_eq!(worker.phase, Phase::BackingOff);
        assert_eq!(worker.backoff_attempt, 1);
        match worker.next() {
            Next::Sleep(ms) => assert!((1000..3000).contains(&ms)),
            other => panic!("unexpected {:?}", other),
        }
        worker.on_backoff_elapsed();
        assert_eq!(worker.next(), Next::Connect);
    }
}

#[test]
fn other_errors_close_the_socket_at_once() {
    for text in [
        r#"{"type":"error","id":"abc","payload":{"errors":[{"message":"Validation failed"}]}}"#,
        r#"{"type":"connection_error"}"#,
        r#"{"type":"error","payload":{"errors":[]}}"#,
        r#"{"type":"error","payload":{"errors":[{"message":7}]}}"#,
        r#"{"type":"error","payload":{"errors":[{"message":"fine"},{"message":"Unauthorized"}]}}"#,
    ] {
        let mut worker = acked_worker(&["111"]);
        worker.pending_subscriptions.insert("abc".to_string());
        let before = worker.pending_subscriptions.len();
        let outputs = handle_message(&mut worker, text);
        assert_eq!(outputs, vec![Output::Close], "{}", text);
        assert_eq!(worker.phase, Phase::BackingOff);
        assert_eq!(worker.backoff_attempt, 1);
        assert_eq!(worker.token, "tok");
        let named = text.contains("\"id\"");
        assert_eq!(worker.pending_subscriptions.len(), if named { before - 1 } else { before });
    }
}

#[test]
fn unauthorized_signal_ignores_case() {
    assert!(is_unauthorized("Unauthorized"));
    assert!(is_unauthorized("UNAUTHORIZED"));
    assert!(is_unauthorized("unauthorized"));
    assert!(is_unauthorized("You are UnAuThOrIzEd to do this"));
    assert!(is_unauthorized("xxunauthorxx"));
    assert!(is_unauthorized("unauthor"));
    assert!(!is_unauthorized("unautho"));
    assert!(!is_unauthorized("not authorized"));
    assert!(!is_unauthorized("un authorized"));
    assert!(!is_unauthorized(""));
    assert!(!is_unauthorized("forbidden"));
    assert!(is_unauthorized("\u{e9}t\u{e9} unauthorized"));
}

#[test]
fn unauthorized_signal_agrees_with_lowercasing() {
    for s in ["Unauthorized", "UNAUTHOR", "nope", "AUTHOR", "unauthoR!", "uunauthor", "unauth or"] {
        assert_eq!(is_unauthorized(s), s.to_lowercase().contains("unauthor"));
    }
}

#[test]
fn authorization_error_reads_the_first_message_only() {
    let yes = Some(parsed(r#"{"errors":[{"message":"Unauthorized: token expired"}]}"#));
    let second = Some(parsed(r#"{"errors":[{"message":"x"},{"message":"Unauthorized"}]}"#));
    let no_array = Some(parsed(r#"{"errors":{"message":"Unauthorized"}}"#));
    assert!(is_authorization_error(&yes));
    assert!(!is_authorization_error(&second));
    assert!(!is_authorization_error(&no_array));
    assert!(!is_authorization_error(&None));
    assert!(!is_authorization_error(&Some(Json::Null)));
}

#[test]
fn data_frame_becomes_an_event_and_a_notification() {
    let mut worker = acked_worker(&["111"]);
    let text = r#"{"type":"data","id":"s1","payload":{"data":{"onUpdateStreamer":{"broadcaster_id":"111","broadcaster_name":"Ann","category":"Chess","title":"Opening traps","is_live":true,"type":"status"}}}}"#;
    let outputs = handle_message(&mut worker, text);
    let object = parsed(r#"{"broadcaster_id":"111","broadcaster_name":"Ann","category":"Chess","title":"Opening traps","is_live":true,"type":"status"}"#);
    assert_eq!(
        outputs,
        vec![
            Output::Emit(StreamerUpdateEvent {
                sub_id: Some("s1".to_string()),
                broadcaster_id: Some("111".to_string()),
                payload: object,
            }),
            Output::Notify(Notification {
                heading: "Ann just went live!".to_string(),
                body: "Chess - Opening traps".to_string(),
                name: "Ann".to_string(),
            }),
        ]
    );
    assert_eq!(worker.phase, Phase::Acked);
    assert_eq!(worker.pending_subscriptions.len(), 1);
}

#[test]
fn next_frame_is_read_as_data() {
    let outputs_a = handle_data(Some("s".to_string()), Some(parsed(r#"{"onUpdateStreamer":{"broadcaster_id":"9"}}"#)));
    let mut worker = acked_worker(&[]);
    let outputs_b = handle_message(&mut worker, r#"{"type":"next","id":"s","payload":{"onUpdateStreamer":{"broadcaster_id":"9"}}}"#);
    assert_eq!(outputs_a, outputs_b);
    assert_eq!(
        outputs_a,
        vec![Output::Emit(StreamerUpdateEvent {
            sub_id: Some("s".to_string()),
            broadcaster_id: Some("9".to_string()),
            payload: parsed(r#"{"broadcaster_id":"9"}"#),
        })]
    );
}

#[test]
fn result_is_looked_for_under_data_first() {
    let nested = Some(parsed(r#"{"data":{"onUpdateStreamer":{"a":1}},"onUpdateStreamer":{"a":2}}"#));
    assert_eq!(extract_streamer_object(&nested), parsed(r#"{"a":1}"#));
    let fallback = Some(parsed(r#"{"data":{"other":1},"onUpdateStreamer":{"a":2}}"#));
    assert_eq!(extract_streamer_object(&fallback), parsed(r#"{"a":2}"#));
    let flat = Some(parsed(r#"{"onUpdateStreamer":"text"}"#));
    assert_eq!(extract_streamer_object(&flat), Json::Str("text".to_string()));
    assert_eq!(extract_streamer_object(&Some(parsed(r#"{"data":5}"#))), Json::Null);
    assert_eq!(extract_streamer_object(&Some(parsed("[1]"))), Json::Null);
    assert_eq!(extract_streamer_object(&None), Json::Null);
}

#[test]
fn data_without_a_result_still_emits_an_event() {
    let outputs = handle_data(None, None);
    assert_eq!(
        outputs,
        vec![Output::Emit(StreamerUpdateEvent { sub_id: None, broadcaster_id: None, payload: Json::Null })]
    );
}

#[test]
fn notifications_depend_on_the_kind_of_update() {
    let updated = notification_of(&parsed(r#"{"broadcaster_name":"Bo","type":"channel_updated","title":"T","category":"C"}"#));
    assert_eq!(
        updated,
        Some(Notification { heading: "Bo - Channel updated".to_string(), body: "C - T".to_string(), name: "Bo".to_string() })
    );
    let bare = notification_of(&parsed(r#"{"broadcaster_name":"Bo","type":"status"}"#));
    assert_eq!(
        bare,
        Some(Notification { heading: "Bo just went live!".to_string(), body: " - ".to_string(), name: "Bo".to_string() })
    );
    let odd_fields = notification_of(&parsed(r#"{"broadcaster_name":"Bo","type":"status","title":5,"category":null}"#));
    assert_eq!(odd_fields.unwrap().body, " - ");
    assert_eq!(notification_of(&parsed(r#"{"broadcaster_name":"Bo","type":"offline"}"#)), None);
    assert_eq!(notification_of(&parsed(r#"{"type":"status"}"#)), None);
    assert_eq!(notification_of(&parsed(r#"{"broadcaster_name":"Bo"}"#)), None);
    assert_eq!(notification_of(&parsed(r#"{"broadcaster_name":7,"type":"status"}"#)), None);
    assert_eq!(notification_of(&Json::Null), None);
}

#[test]
fn decoded_frames_and_json_frames_are_handled_alike() {
    let mut a = acked_worker(&["111"]);
    let mut b = acked_worker(&["111"]);
    b.pending_subscriptions.clear();
    a.pending_subscriptions.clear();
    a.pending_subscriptions.insert("x".to_string());
    b.pending_subscriptions.insert("x".to_string());
    let out_a = handle_json(&mut a, &parsed(r#"{"type":"complete","id":"x"}"#));
    let out_b = handle_incoming(
        &mut b,
        IncomingMessage { id: Some("x".to_string()), msg_type: "complete".to_string(), payload: None },
    );
    assert_eq!(out_a, out_b);
    assert_eq!(a.pending_subscriptions.len(), 0);
    assert_eq!(b.pending_subscriptions.len(), 0);
}
