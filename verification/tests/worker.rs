use base64::Engine;
use notisr::events::Event;
use notisr::frames::FrameKind;
use notisr::handshake::{endpoint_uri, handshake_accepted, protocols_header, upgrade_request};
use notisr::outputs::Output;
use notisr::protocol::handle_message;
use notisr::worker::{
    update_and_manage_subscriptions, AppSyncWorker, ConnectionState, ControlMsg, Next, Phase,
};

fn list(items: &[&str]) -> Vec<String> {
    items.iter().map(|s| s.to_string()).collect()
}

fn new_worker(ids: &[&str]) -> AppSyncWorker {
    AppSyncWorker::new(
        "tok".to_string(),
        "api.example.com".to_string(),
        "realtime.example.com".to_string(),
        "user-1".to_string(),
        &list(ids),
    )
    .worker
}

fn connected(ids: &[&str]) -> AppSyncWorker {
    let mut worker = new_worker(ids);
    worker.on_handshake(Some(101));
    handle_message(&mut worker, r#"{"type":"connection_ack"}"#);
    worker
}

fn kinds(outputs: &[Output]) -> Vec<FrameKind> {
    outputs
        .iter()
        .map(|o| match o {
            Output::Send(frame) => frame.kind,
            other => panic!("unexpected output {:?}", other),
        })
        .collect()
}

#[test]
fn new_worker_is_about_to_connect() {
    let launch = AppSyncWorker::new(
        "tok".to_string(),
        "api".to_string(),
        "rt".to_string(),
        "u".to_string(),
        &list(&["111", "x", "222"]),
    );
    assert_eq!(
        launch.outputs,
        vec![Output::Skipped(list(&["x"])), Output::Register(vec![111, 222])]
    );
    let worker = launch.worker;
    assert_eq!(worker.phase, Phase::Connecting);
    assert_eq!(worker.next(), Next::Connect);
    assert_eq!(worker.connection_state(), ConnectionState::Connecting);
    assert_eq!(worker.backoff_attempt, 0);
    assert_eq!(worker.active_subscriptions.len(), 2);
    assert_eq!(worker.pending_subscriptions.len(), 0);
    assert!(!worker.is_connected());
    assert_eq!(worker.token, "tok");
    assert_eq!(worker.user_id, "u");
}

#[test]
fn new_worker_without_topics_registers_nothing() {
    let launch = AppSyncWorker::new("t".to_string(), "a".to_string(), "r".to_string(), "u".to_string(), &list(&[]));
    assert!(launch.outputs.is_empty());
    assert!(launch.worker.active_subscriptions.is_empty());
}

#[test]
fn accepted_handshake_opens_the_session() {
    let mut worker = new_worker(&["111"]);
    worker.backoff_attempt = 4;
    worker.pending_subscriptions.insert("stale".to_string());
    let outputs = worker.on_handshake(Some(101));
    assert_eq!(outputs.len(), 1);
    match &outputs[0] {
        Output::Send(frame) => {
            assert_eq!(frame.kind, FrameKind::Init);
            assert_eq!(frame.text, r#"{"type":"connection_init"}"#);
            assert_eq!(frame.id, "");
        }
        other => panic!("unexpected output {:?}", other),
    }
    assert_eq!(worker.phase, Phase::Unacked);
    assert_eq!(worker.connection_state(), ConnectionState::ConnectedUnacked);
    assert_eq!(worker.backoff_attempt, 0);
    assert_eq!(worker.pending_subscriptions.len(), 0);
    assert_eq!(worker.next(), Next::Listen);
}

#[test]
fn only_status_101_is_an_accepted_handshake() {
    assert!(handshake_accepted(101));
    for status in [0u16, 100, 102, 200, 204, 301, 401, 403, 500] {
        assert!(!handshake_accepted(status));
        let mut worker = new_worker(&[]);
        let outputs = worker.on_handshake(Some(status));
        assert!(outputs.is_empty());
        assert_eq!(worker.phase, Phase::RefreshingForHandshake);
        assert_eq!(worker.next(), Next::Refresh);
        assert_eq!(worker.backoff_attempt, 0);
    }
}

#[test]
fn refused_handshake_without_refresh_credential_backs_off() {
    let mut worker = new_worker(&["111"]);
    worker.on_handshake(Some(403));
    assert_eq!(worker.next(), Next::Refresh);
    let outputs = worker.on_refreshed(None);
    assert!(outputs.is_empty());
    assert_eq!(worker.phase, Phase::BackingOff);
    assert_eq!(worker.connection_state(), ConnectionState::Disconnected);
    assert_eq!(worker.backoff_attempt, 1);
    assert_eq!(worker.token, "tok");
    for _ in 0..50 {
        match worker.next() {
            Next::Sleep(ms) => assert!((1000..3000).contains(&ms), "{}", ms),
            other => panic!("unexpected {:?}", other),
        }
    }
}

#[test]
fn refused_handshake_with_new_credential_connects_again_at_once() {
    let mut worker = new_worker(&["111"]);
    worker.backoff_attempt = 2;
    worker.on_handshake(Some(401));
    let outputs = worker.on_refreshed(Some("fresh".to_string()));
    assert!(outputs.is_empty());
    assert_eq!(worker.token, "fresh");
    assert_eq!(worker.phase, Phase::Connecting);
    assert_eq!(worker.next(), Next::Connect);
    assert_eq!(worker.backoff_attempt, 2);
}

#[test]
fn attempt_without_a_response_refreshes_and_backs_off_either_way() {
    for refreshed in [None, Some("fresh".to_string())] {
        let mut worker = new_worker(&[]);
        let outputs = worker.on_handshake(None);
        assert!(outputs.is_empty());
        assert_eq!(worker.phase, Phase::RefreshingForFailure);
        assert_eq!(worker.connection_state(), ConnectionState::Disconnected);
        assert_eq!(worker.next(), Next::Refresh);
        assert_eq!(worker.backoff_attempt, 0);
        let expected = refreshed.clone().unwrap_or("tok".to_string());
        let outputs = worker.on_refreshed(refreshed);
        assert!(outputs.is_empty());
        assert_eq!(worker.token, expected);
        assert_eq!(worker.phase, Phase::BackingOff);
        assert_eq!(worker.backoff_attempt, 1);
    }
}

#[test]
fn every_failed_attempt_counts_until_a_handshake_succeeds() {
    let mut worker = new_worker(&[]);
    for attempt in 1..=9u32 {
        worker.on_handshake(None);
        worker.on_refreshed(None);
        assert_eq!(worker.backoff_attempt, attempt);
        let base: u64 = 1000 * (1u64 << attempt.min(6));
        match worker.next() {
            Next::Sleep(ms) => assert!(2 * ms >= base && 2 * ms < 3 * base),
            other => panic!("unexpected {:?}", other),
        }
        worker.on_backoff_elapsed();
        assert_eq!(worker.phase, Phase::Connecting);
    }
    worker.on_handshake(Some(101));
    assert_eq!(worker.backoff_attempt, 0);
}

#[test]
fn jitter_is_drawn_anew() {
    let mut worker = new_worker(&[]);
    worker.backoff_attempt = 6;
    worker.phase = Phase::BackingOff;
    let mut seen = std::collections::BTreeSet::new();
    for _ in 0..200 {
        match worker.next() {
            Next::Sleep(ms) => {
                assert!((32000..96000).contains(&ms));
                seen.insert(ms);
            }
            other => panic!("unexpected {:?}", other),
        }
    }
    assert!(seen.len() > 1);
}

#[test]
fn closed_socket_backs_off() {
    for ack in [false, true] {
        let mut worker = new_worker(&["111"]);
        worker.on_handshake(Some(101));
        if ack {
            handle_message(&mut worker, r#"{"type":"connection_ack"}"#);
        }
        let outputs = worker.on_socket_closed();
        assert!(outputs.is_empty());
        assert_eq!(worker.phase, Phase::BackingOff);
        assert_eq!(worker.backoff_attempt, 1);
        assert_eq!(worker.active_subscriptions.len(), 1);
    }
}

#[test]
fn events_out_of_turn_change_nothing() {
    let mut worker = new_worker(&["111"]);
    assert!(worker.on_refreshed(Some("x".to_string())).is_empty());
    assert!(worker.on_backoff_elapsed().is_empty());
    assert!(worker.on_socket_closed().is_empty());
    assert_eq!(worker.phase, Phase::Connecting);
    assert_eq!(worker.token, "tok");
    assert_eq!(worker.backoff_attempt, 0);

    let mut open = connected(&["111"]);
    assert!(open.on_handshake(Some(403)).is_empty());
    assert!(open.on_handshake(None).is_empty());
    assert!(open.on_backoff_elapsed().is_empty());
    assert_eq!(open.phase, Phase::Acked);
    assert_eq!(open.backoff_attempt, 0);
}

#[test]
fn stop_closes_an_open_socket_and_ends_the_worker() {
    let mut worker = connected(&["111"]);
    let outputs = worker.on_control(ControlMsg::Stop);
    assert_eq!(outputs, vec![Output::Close]);
    assert_eq!(worker.phase, Phase::Stopped);
    assert_eq!(worker.next(), Next::Stop);
    assert_eq!(worker.connection_state(), ConnectionState::Disconnected);
    assert!(worker.on_stop().is_empty());
    assert_eq!(worker.next(), Next::Stop);
}

#[test]
fn stop_without_a_socket_has_nothing_to_close() {
    let mut worker = new_worker(&["111"]);
    assert!(worker.on_stop().is_empty());
    assert_eq!(worker.phase, Phase::Stopped);
    assert!(worker.on_backoff_elapsed().is_empty());
    assert!(worker.on_handshake(Some(101)).is_empty());
    assert_eq!(worker.phase, Phase::Stopped);
}

#[test]
fn update_on_acknowledged_session_sends_the_difference() {
    let mut worker = connected(&["111", "222"]);
    let old_ids = [
        worker.active_subscriptions.key_at(0).to_string(),
        worker.active_subscriptions.key_at(1).to_string(),
    ];
    let outputs = worker.on_control(ControlMsg::UpdateSubscriptions { streamer_ids: list(&["222", "333", "bad"]) });
    assert_eq!(outputs[0], Output::Skipped(list(&["bad"])));
    assert_eq!(outputs[1], Output::Register(vec![222, 333]));
    assert_eq!(
        kinds(&outputs[2..]),
        vec![FrameKind::Stop, FrameKind::Stop, FrameKind::Start, FrameKind::Start]
    );
    assert_eq!(worker.active_subscriptions.len(), 2);
    for old in &old_ids {
        assert!(!worker.active_subscriptions.contains_key(old));
        assert!(!worker.pending_subscriptions.contains(old));
    }
    assert_eq!(worker.pending_subscriptions.len(), 2);
    for i in 0..2 {
        assert!(worker.pending_subscriptions.contains(worker.active_subscriptions.key_at(i)));
    }
}

#[test]
fn same_topics_twice_are_stopped_and_started_again() {
    let mut worker = connected(&[]);
    let first = update_and_manage_subscriptions(&mut worker, list(&["111"]));
    assert_eq!(first[0], Output::Register(vec![111]));
    assert_eq!(kinds(&first[1..]), vec![FrameKind::Start]);
    let first_id = worker.active_subscriptions.key_at(0).to_string();

    let second = update_and_manage_subscriptions(&mut worker, list(&["111"]));
    assert_eq!(second[0], Output::Register(vec![111]));
    assert_eq!(kinds(&second[1..]), vec![FrameKind::Stop, FrameKind::Start]);
    let second_id = worker.active_subscriptions.key_at(0).to_string();
    assert_ne!(first_id, second_id);
    match (&second[1], &second[2]) {
        (Output::Send(stop), Output::Send(start)) => {
            assert_eq!(stop.id, first_id);
            assert_eq!(start.id, second_id);
        }
        other => panic!("unexpected {:?}", other),
    }
    assert_eq!(worker.active_subscriptions.len(), 1);
    assert_eq!(worker.pending_subscriptions.to_vec(), vec![second_id]);
}

#[test]
fn update_before_the_acknowledgement_only_replaces_the_map() {
    let mut worker = new_worker(&["111"]);
    worker.on_handshake(Some(101));
    let outputs = update_and_manage_subscriptions(&mut worker, list(&["222", "333"]));
    assert_eq!(outputs, vec![Output::Register(vec![222, 333])]);
    assert_eq!(worker.active_subscriptions.len(), 2);
    assert_eq!(worker.pending_subscriptions.len(), 0);

    let acked = handle_message(&mut worker, r#"{"type":"connection_ack"}"#);
    assert_eq!(kinds(&acked), vec![FrameKind::Start, FrameKind::Start]);
    assert_eq!(worker.pending_subscriptions.len(), 2);
}

#[test]
fn update_while_disconnected_sends_nothing() {
    let mut worker = new_worker(&["111"]);
    worker.on_handshake(None);
    worker.on_refreshed(None);
    let outputs = update_and_manage_subscriptions(&mut worker, list(&["x", "7"]));
    assert_eq!(outputs, vec![Output::Skipped(list(&["x"])), Output::Register(vec![7])]);
    assert_eq!(worker.active_subscriptions.len(), 1);
    assert_eq!(worker.phase, Phase::BackingOff);
}

#[test]
fn timer_tick_updates_or_leaves_alone() {
    let mut worker = connected(&["111"]);
    let before = worker.active_subscriptions.key_at(0).to_string();
    assert!(worker.on_tick(None).is_empty());
    assert_eq!(worker.active_subscriptions.key_at(0), before);
    assert_eq!(worker.pending_subscriptions.len(), 1);

    let outputs = worker.on_tick(Some(list(&["111", "222"])));
    assert_eq!(outputs[0], Output::Register(vec![111, 222]));
    assert_eq!(kinds(&outputs[1..]), vec![FrameKind::Stop, FrameKind::Start, FrameKind::Start]);
    assert_eq!(worker.active_subscriptions.len(), 2);
}

#[test]
fn start_frames_use_the_current_token() {
    let mut worker = new_worker(&["111"]);
    worker.on_handshake(Some(401));
    worker.on_refreshed(Some("second".to_string()));
    worker.on_handshake(Some(101));
    let outputs = handle_message(&mut worker, r#"{"type":"connection_ack"}"#);
    match &outputs[0] {
        Output::Send(frame) => {
            let value: serde_json::Value = serde_json::from_str(&frame.text).unwrap();
            assert_eq!(value["payload"]["extensions"]["authorization"]["Authorization"], "Bearer second");
            assert_eq!(value["payload"]["extensions"]["authorization"]["host"], "api.example.com");
        }
        other => panic!("unexpected output {:?}", other),
    }
}

#[test]
fn upgrade_request_names_host_protocol_and_key() {
    let worker = new_worker(&[]);
    let request = worker.connect_request().unwrap();
    assert_eq!(request.uri, "wss://realtime.example.com/graphql");
    let names: Vec<&str> = request.headers.iter().map(|h| h.name.as_str()).collect();
    assert_eq!(
        names,
        vec!["Host", "Connection", "Upgrade", "Sec-WebSocket-Version", "Sec-WebSocket-Protocol", "Sec-WebSocket-Key"]
    );
    assert_eq!(request.headers[0].value, "realtime.example.com");
    assert_eq!(request.headers[1].value, "upgrade");
    assert_eq!(request.headers[2].value, "websocket");
    assert_eq!(request.headers[3].value, "13");
    assert_eq!(request.headers[4].value, protocols_header("tok", "api.example.com"));
    let key = base64::engine::general_purpose::STANDARD.decode(&request.headers[5].value).unwrap();
    assert_eq!(key.len(), 16);
    let other = worker.connect_request().unwrap();
    assert_ne!(other.headers[5].value, request.headers[5].value);
}

#[test]
fn host_header_is_the_host_of_the_address() {
    let mut worker = new_worker(&[]);
    worker.realtime_uri = "Realtime.Example.COM:8443".to_string();
    let request = worker.connect_request().unwrap();
    assert_eq!(request.uri, "wss://Realtime.Example.COM:8443/graphql");
    assert_eq!(request.headers[0].value, "realtime.example.com");
}

#[test]
fn no_request_where_the_address_is_no_url() {
    let mut worker = new_worker(&[]);
    worker.realtime_uri = "bad host".to_string();
    assert_eq!(worker.connect_request(), None);
    worker.realtime_uri = "[::1".to_string();
    assert_eq!(worker.connect_request(), None);
}

#[test]
fn host_is_whatever_the_url_names() {
    let mut worker = new_worker(&[]);
    worker.realtime_uri = "".to_string();
    let request = worker.connect_request().unwrap();
    assert_eq!(request.uri, "wss:///graphql");
    assert_eq!(request.headers[0].value, "graphql");
}

#[test]
fn protocol_header_embeds_host_and_credential() {
    let value = protocols_header("tok-1", "api.example.com");
    let encoded = value.strip_prefix("graphql-ws, header-").unwrap();
    assert!(!encoded.contains('='));
    let bytes = base64::engine::general_purpose::URL_SAFE_NO_PAD.decode(encoded).unwrap();
    let json: serde_json::Value = serde_json::from_slice(&bytes).unwrap();
    assert_eq!(json["host"], "api.example.com");
    assert_eq!(json["Authorization"], "Bearer tok-1");
    assert_eq!(json.as_object().unwrap().len(), 2);
}

#[test]
fn protocol_header_uses_the_url_safe_alphabet() {
    let value = protocols_header("??>>~~", "h");
    let encoded = value.strip_prefix("graphql-ws, header-").unwrap();
    assert!(encoded.chars().all(|c| c.is_ascii_alphanumeric() || c == '-' || c == '_'));
    assert_eq!(value, "graphql-ws, header-eyJBdXRob3JpemF0aW9uIjoiQmVhcmVyID8_Pj5-fiIsImhvc3QiOiJoIn0");
}

#[test]
fn request_is_built_from_its_parts() {
    let request = upgrade_request("t", "api", "rt.example", "rt.example", "a2V5");
    assert_eq!(request.uri, endpoint_uri("rt.example"));
    assert_eq!(request.headers.len(), 6);
    assert_eq!(request.headers[5].name, "Sec-WebSocket-Key");
    assert_eq!(request.headers[5].value, "a2V5");
}

#[test]
fn state_stays_consistent_along_the_way() {
    let mut worker = new_worker(&["111", "222"]);
    assert!(worker.is_consistent());
    worker.on_handshake(Some(101));
    assert!(worker.is_consistent());
    handle_message(&mut worker, r#"{"type":"connection_ack"}"#);
    assert!(worker.is_consistent());
    update_and_manage_subscriptions(&mut worker, list(&["333"]));
    assert!(worker.is_consistent());
    handle_message(&mut worker, r#"{"type":"error","payload":{"errors":[{"message":"unauthorized"}]}}"#);
    assert_eq!(worker.connection_state(), ConnectionState::Disconnected);
    assert!(worker.is_consistent());
    worker.on_refreshed(None);
    assert!(worker.is_consistent());
}

#[test]
fn inconsistent_state_is_told_apart() {
    let mut unacked = new_worker(&["111"]);
    unacked.on_handshake(Some(101));
    unacked.pending_subscriptions.insert("x".to_string());
    assert!(!unacked.is_consistent());

    let mut acked = connected(&["111"]);
    acked.pending_subscriptions.insert("not-active".to_string());
    assert!(!acked.is_consistent());
    acked.phase = Phase::BackingOff;
    assert!(acked.is_consistent());
}

#[test]
fn step_takes_every_kind_of_event() {
    let mut worker = new_worker(&["111"]);
    assert!(worker.step(Event::Handshake(Some(500))).is_empty());
    assert_eq!(worker.next(), Next::Refresh);
    assert!(worker.step(Event::Refreshed(Some("t2".to_string()))).is_empty());
    assert_eq!(worker.token, "t2");
    assert_eq!(worker.next(), Next::Connect);
    assert_eq!(kinds(&worker.step(Event::Handshake(Some(101)))), vec![FrameKind::Init]);
    assert_eq!(worker.next(), Next::Listen);
    let ack = worker.step(Event::Frame(r#"{"type":"connection_ack"}"#.to_string()));
    assert_eq!(kinds(&ack), vec![FrameKind::Start]);
    assert!(worker.step(Event::Tick(None)).is_empty());
    let tick = worker.step(Event::Tick(Some(list(&["111"]))));
    assert_eq!(kinds(&tick[1..]), vec![FrameKind::Stop, FrameKind::Start]);
    let update = worker.step(Event::Control(ControlMsg::UpdateSubscriptions { streamer_ids: list(&[]) }));
    assert_eq!(kinds(&update), vec![FrameKind::Stop]);
    assert!(worker.active_subscriptions.is_empty());
    assert!(worker.step(Event::SocketClosed).is_empty());
    assert_eq!(worker.backoff_attempt, 1);
    assert!(worker.step(Event::BackoffElapsed).is_empty());
    assert_eq!(worker.next(), Next::Connect);
    assert!(worker.step(Event::Control(ControlMsg::Stop)).is_empty());
    assert_eq!(worker.next(), Next::Stop);
    assert!(worker.step(Event::Handshake(Some(101))).is_empty());
    assert_eq!(worker.next(), Next::Stop);
}

#[test]
fn every_update_renews_all_subscriptions() {
    let mut worker = connected(&["1", "2", "3"]);
    for round in 0..5 {
        let before: Vec<String> =
            (0..worker.active_subscriptions.len()).map(|i| worker.active_subscriptions.key_at(i).to_string()).collect();
        let outputs = update_and_manage_subscriptions(&mut worker, list(&["1", "2", "3"]));
        assert_eq!(outputs[0], Output::Register(vec![1, 2, 3]));
        assert_eq!(
            kinds(&outputs[1..]),
            vec![
                FrameKind::Stop,
                FrameKind::Stop,
                FrameKind::Stop,
                FrameKind::Start,
                FrameKind::Start,
                FrameKind::Start
            ],
            "round {}",
            round
        );
        assert_eq!(worker.active_subscriptions.len(), 3);
        assert_eq!(worker.pending_subscriptions.len(), 3);
        for old in &before {
            assert!(!worker.active_subscriptions.contains_key(old));
            assert!(!worker.pending_subscriptions.contains(old));
        }
        for i in 0..3 {
            assert!(worker.pending_subscriptions.contains(worker.active_subscriptions.key_at(i)));
        }
    }
}
