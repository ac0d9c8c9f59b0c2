use notisr::control::{
    add_subscription, client_stopped, on_startup, remove_subscription, start_ws_client,
    stop_ws_client, ClientRegistry, TopicSet,
};
use notisr::dev_store::{DevEntry, DevStore};
use notisr::json::Json;
use notisr::oauth::{
    challenge_for, gen_b64_url, generate_pkce_pair, random_base64url, refresh_outcome,
    validation_outcome, Refresh, ValidateResp, Validation,
};
use notisr::pending::{PendingSet, StrSet};
use notisr::sorting::sorted_distinct;
use notisr::streamers::{open_broadcaster_url, partition_live, Broadcasters};
use notisr::strmap::StrMap;
use notisr::topic_source::{followed_page_url, read_page, FollowedFetch};
use notisr::worker::ControlMsg;

fn owned(items: &[&str]) -> Vec<String> {
    items.iter().map(|s| s.to_string()).collect()
}

fn streamer(name: &str, live: bool) -> Broadcasters {
    Broadcasters {
        broadcaster_id: format!("id-{}", name),
        broadcaster_name: name.to_string(),
        category: "c".to_string(),
        title: "t".to_string(),
        is_live: live,
        profile_picture: None,
    }
}

#[test]
fn only_one_client_runs_at_a_time() {
    let mut registry = ClientRegistry::new();
    assert!(!registry.running);
    assert_eq!(start_ws_client(&mut registry), Ok(()));
    assert!(registry.running);
    assert_eq!(start_ws_client(&mut registry), Err("Client is already running.".to_string()));
    assert!(registry.running);
    client_stopped(&mut registry);
    assert!(!registry.running);
    assert_eq!(start_ws_client(&mut registry), Ok(()));
}

#[test]
fn stop_is_asked_of_a_running_client_only() {
    let mut registry = ClientRegistry::new();
    assert_eq!(stop_ws_client(&registry), Err("Client is not running.".to_string()));
    start_ws_client(&mut registry).unwrap();
    assert_eq!(stop_ws_client(&registry), Ok(ControlMsg::Stop));
}

#[test]
fn topics_asked_for_are_sent_as_one_update() {
    let mut registry = ClientRegistry::new();
    let mut topics = TopicSet::new();
    assert_eq!(
        add_subscription(&registry, &mut topics, "111".to_string()),
        Err("client not running".to_string())
    );
    assert_eq!(topics.len(), 0);
    start_ws_client(&mut registry).unwrap();
    assert_eq!(
        add_subscription(&registry, &mut topics, "111".to_string()),
        Ok(ControlMsg::UpdateSubscriptions { streamer_ids: owned(&["111"]) })
    );
    assert_eq!(
        add_subscription(&registry, &mut topics, "222".to_string()),
        Ok(ControlMsg::UpdateSubscriptions { streamer_ids: owned(&["111", "222"]) })
    );
    assert_eq!(
        add_subscription(&registry, &mut topics, "111".to_string()),
        Ok(ControlMsg::UpdateSubscriptions { streamer_ids: owned(&["111", "222"]) })
    );
    assert_eq!(
        remove_subscription(&registry, &mut topics, "111".to_string()),
        Ok(ControlMsg::UpdateSubscriptions { streamer_ids: owned(&["222"]) })
    );
    assert_eq!(
        remove_subscription(&registry, &mut topics, "999".to_string()),
        Ok(ControlMsg::UpdateSubscriptions { streamer_ids: owned(&["222"]) })
    );
    client_stopped(&mut registry);
    assert_eq!(
        remove_subscription(&registry, &mut topics, "222".to_string()),
        Err("client not running".to_string())
    );
    assert!(topics.contains("222"));
}

#[test]
fn window_asks_for_login_without_a_credential() {
    assert_eq!(on_startup(&None), Some("log_in".to_string()));
    assert_eq!(on_startup(&Some("token".to_string())), None);
}

#[test]
fn string_set_holds_each_member_once() {
    let mut set = StrSet::new();
    assert!(set.insert("a".to_string()));
    assert!(set.insert("b".to_string()));
    assert!(!set.insert("a".to_string()));
    assert_eq!(set.len(), 2);
    assert!(set.contains("a"));
    assert!(!set.contains("c"));
    assert!(!set.remove("c"));
    assert!(set.remove("a"));
    assert!(!set.remove("a"));
    assert_eq!(set.to_vec(), owned(&["b"]));
    set.clear();
    assert_eq!(set.len(), 0);
    assert!(!set.contains("b"));
    let pending: PendingSet = set;
    assert_eq!(pending.to_vec(), owned(&[]));
}

#[test]
fn string_map_keeps_first_places_and_last_values() {
    let mut map: StrMap<u32> = StrMap::new();
    assert!(map.is_empty());
    assert!(map.insert("a".to_string(), 1));
    assert!(map.insert("b".to_string(), 2));
    assert!(!map.insert("a".to_string(), 3));
    assert_eq!(map.len(), 2);
    assert_eq!(map.key_at(0), "a");
    assert_eq!(*map.value_at(0), 3);
    assert_eq!(map.get("b"), Some(&2));
    assert_eq!(map.get("c"), None);
    assert!(map.contains_key("a"));
    assert!(map.remove("a"));
    assert!(!map.remove("a"));
    assert!(!map.contains_key("a"));
    assert_eq!(map.key_at(0), "b");
    assert_eq!(map.len(), 1);
}

#[test]
fn dev_secrets_are_kept_by_service_and_user() {
    let mut store = DevStore::new();
    let access = DevEntry::new("notisr", "access_token");
    let refresh = DevEntry::new("notisr", "refresh_token");
    assert_eq!(access.key(), "notisr:access_token");
    assert_eq!(access.get_secret(&store), Err("Secret not found"));
    access.set_secret(&mut store, b"one");
    refresh.set_secret(&mut store, b"two");
    assert_eq!(access.get_secret(&store), Ok(b"one".to_vec()));
    assert_eq!(refresh.get_secret(&store), Ok(b"two".to_vec()));
    access.set_secret(&mut store, b"three");
    assert_eq!(access.get_secret(&store), Ok(b"three".to_vec()));
    assert_eq!(store.len(), 2);
    assert_eq!(store.keys(), owned(&["notisr:access_token", "notisr:refresh_token"]));
    assert_eq!(store.get("notisr:refresh_token"), Some(b"two".to_vec()));
    access.delete_secret(&mut store);
    assert_eq!(access.get_secret(&store), Err("Secret not found"));
    access.delete_secret(&mut store);
    assert_eq!(store.len(), 1);
    store.put("k".to_string(), vec![1, 2]);
    store.forget("notisr:refresh_token");
    assert_eq!(store.keys(), owned(&["k"]));
}

#[test]
fn dev_entries_with_a_colon_share_a_key() {
    let a = DevEntry::new("a:b", "c");
    let b = DevEntry::new("a", "b:c");
    assert_eq!(a.key(), b.key());
}

#[test]
fn random_values_are_base64_of_the_bytes_asked_for() {
    let text = gen_b64_url();
    assert_eq!(text.len(), 43);
    assert!(text.chars().all(|c| c.is_ascii_alphanumeric() || c == '-' || c == '_'));
    assert_ne!(gen_b64_url(), text);
    assert_eq!(random_base64url(0), "");
    assert_eq!(random_base64url(3).len(), 4);
    assert_eq!(random_base64url(16).len(), 22);
}

#[test]
fn code_challenge_is_the_digest_of_the_verifier() {
    assert_eq!(
        challenge_for("dBjftJeZ4CVP-mB92K27uhbUJU1p1r_wW1gFWFOEjXk"),
        "E9Melhoa2OwvFrEMTJguCHaoeK1t8URWbuGJSstw-cM"
    );
    assert_eq!(challenge_for(""), "47DEQpj8HBSa-_TImW-5JCeuQeRkm5NMpJWZG3hSuFU");
    let (challenge, verifier) = generate_pkce_pair();
    assert_eq!(verifier.len(), 43);
    assert_eq!(challenge.len(), 43);
    assert_eq!(challenge, challenge_for(&verifier));
    assert_ne!(challenge, verifier);
}

#[test]
fn answers_of_the_identity_service_are_read_by_status() {
    assert_eq!(validation_outcome(200), Validation::Valid);
    assert_eq!(validation_outcome(299), Validation::Valid);
    assert_eq!(validation_outcome(401), Validation::Expired);
    assert_eq!(validation_outcome(199), Validation::Failed);
    assert_eq!(validation_outcome(300), Validation::Failed);
    assert_eq!(validation_outcome(403), Validation::Failed);
    assert_eq!(validation_outcome(500), Validation::Failed);
    assert_eq!(refresh_outcome(200), Refresh::Refreshed);
    assert_eq!(refresh_outcome(401), Refresh::Rejected);
    assert_eq!(refresh_outcome(400), Refresh::Failed);
    assert_eq!(refresh_outcome(503), Refresh::Failed);
    assert_eq!(ValidateResp { expires_in: Some(5) }.expires_in, Some(5));
}

#[test]
fn streamers_are_parted_by_liveness_in_order() {
    let listing = partition_live(vec![
        streamer("a", true),
        streamer("b", false),
        streamer("c", true),
        streamer("d", false),
        streamer("e", false),
    ]);
    let online: Vec<&str> = listing.online.iter().map(|b| b.broadcaster_name.as_str()).collect();
    let offline: Vec<&str> = listing.offline.iter().map(|b| b.broadcaster_name.as_str()).collect();
    assert_eq!(online, vec!["a", "c"]);
    assert_eq!(offline, vec!["b", "d", "e"]);
    let none = partition_live(vec![]);
    assert!(none.online.is_empty() && none.offline.is_empty());
}

#[test]
fn streamer_page_is_under_its_name() {
    assert_eq!(open_broadcaster_url("ann"), "https://twitch.tv/ann");
    assert_eq!(open_broadcaster_url(""), "https://twitch.tv/");
}

#[test]
fn page_address_names_user_size_and_cursor() {
    assert_eq!(
        followed_page_url("42", &None),
        "https://api.twitch.tv/helix/channels/followed?user_id=42&first=100"
    );
    assert_eq!(
        followed_page_url("42", &Some("abc".to_string())),
        "https://api.twitch.tv/helix/channels/followed?user_id=42&first=100&after=abc"
    );
}

#[test]
fn page_lists_ids_and_names_the_next_page() {
    let body = Json::parse(
        r#"{"data":[{"broadcaster_id":"3"},{"other":1},{"broadcaster_id":7},{"broadcaster_id":"1"}],"pagination":{"cursor":"next"}}"#,
    )
    .unwrap();
    let page = read_page(&body);
    assert_eq!(page.ids, owned(&["3", "1"]));
    assert_eq!(page.cursor, Some("next".to_string()));

    let last = read_page(&Json::parse(r#"{"data":[],"pagination":{}}"#).unwrap());
    assert_eq!(last.ids, owned(&[]));
    assert_eq!(last.cursor, None);

    let odd = read_page(&Json::parse(r#"{"data":{"broadcaster_id":"3"},"pagination":{"cursor":5}}"#).unwrap());
    assert_eq!(odd.ids, owned(&[]));
    assert_eq!(odd.cursor, None);
    assert_eq!(read_page(&Json::Null).ids, owned(&[]));
}

#[test]
fn list_is_read_page_by_page_until_no_cursor() {
    let mut fetch = FollowedFetch::new();
    assert_eq!(
        fetch.next_url("u"),
        Some("https://api.twitch.tv/helix/channels/followed?user_id=u&first=100".to_string())
    );
    fetch.on_page(&Json::parse(r#"{"data":[{"broadcaster_id":"30"},{"broadcaster_id":"4"}],"pagination":{"cursor":"c1"}}"#).unwrap());
    assert_eq!(
        fetch.next_url("u"),
        Some("https://api.twitch.tv/helix/channels/followed?user_id=u&first=100&after=c1".to_string())
    );
    fetch.on_page(&Json::parse(r#"{"data":[{"broadcaster_id":"4"},{"broadcaster_id":"100"}],"pagination":{}}"#).unwrap());
    assert_eq!(fetch.next_url("u"), None);
    assert_eq!(fetch.finish(), owned(&["100", "30", "4"]));
}

#[test]
fn sorting_orders_like_std_and_drops_repeats() {
    let samples: [&[&str]; 5] = [
        &[],
        &["b", "a", "c", "a", "b"],
        &["10", "9", "100", "1", "", "1"],
        &["\u{e9}", "z", "e", "\u{1f600}", "\u{ffff}", "ab", "a", "abc"],
        &["same", "same"],
    ];
    for sample in samples {
        let input = owned(sample);
        let mut expected = input.clone();
        expected.sort();
        expected.dedup();
        assert_eq!(sorted_distinct(&input), expected);
    }
}
