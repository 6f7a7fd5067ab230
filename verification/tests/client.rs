//! The remote operations: exact payloads (held against serde_json's own
//! serialization), cache keys, failure classification and the login poll.

use m163_core::cache::Date;
use m163_core::client::{
    cache_file_name, classify_send_error, cookie_file_name, create_play_list_request,
    delete_play_list_request, handle_response, lyric_request, parse_failure, play_detail_key,
    play_detail_request, play_list_key, play_list_request, profile_request, qr_link_request,
    qr_login_request, qr_login_state, qr_wait_outcome, recommend_resource_request,
    recommend_songs_request, search_request, song_file_name, song_request, song_url_request,
    sub_play_request, target, track_request, unsub_play_request, NCErr, OfflineMonitor,
    ProfileGuard, QrOutcome,
};
use m163_core::event::{AppState, LoginState, ES};

/// The search payload equals what serde_json itself writes for the same
/// object, for plain, quoted, control and multi-byte search terms.
#[test]
fn search_payload_matches_serde_json() {
    let terms = [
        "hello",
        "with \"quotes\" and \\slashes\\",
        "line\nbreak\ttab\u{1}ctl",
        "\u{6d4b}\u{8bd5}\u{1f3b5}",
    ];
    for term in terms {
        let mut map = serde_json::Map::new();
        map.insert("s".to_string(), serde_json::Value::String(term.to_string()));
        map.insert("offset".to_string(), serde_json::Value::String("0".to_string()));
        map.insert("limit".to_string(), serde_json::Value::String("10".to_string()));
        map.insert("type".to_string(), serde_json::Value::String("1".to_string()));
        let expected = serde_json::to_string(&serde_json::Value::Object(map)).unwrap();
        let r = search_request(term);
        assert_eq!(r.payload, expected);
    }
}

#[test]
fn request_paths_and_payloads() {
    assert_eq!(target(), "https://music.163.com");

    let r = qr_link_request();
    assert_eq!(r.path, "https://music.163.com/weapi/login/qrcode/unikey");
    assert_eq!(r.payload, "{\"noCheckToken\":true,\"type\":1}");
    assert!(r.cache_key.is_none());

    let r = qr_login_request("KEY01");
    assert_eq!(r.path, "https://music.163.com/weapi/login/qrcode/client/login");
    assert_eq!(r.payload, "{\"key\":\"KEY01\",\"noCheckToken\":true,\"type\":1}");

    assert_eq!(profile_request().path, "https://music.163.com/weapi/w/nuser/account/get");
    assert_eq!(profile_request().payload, "{}");
    assert_eq!(m163_core::client::logout_request().payload, "{}");

    let r = lyric_request(42);
    assert_eq!(r.path, "https://music.163.com/weapi/song/lyric");
    assert_eq!(r.payload, "{\"id\":\"42\",\"lv\":-1,\"tv\":-1}");
    assert_eq!(r.cache_key.unwrap(), "42.lyric");

    let r = create_play_list_request("my list");
    assert_eq!(r.payload, "{\"name\":\"my list\"}");

    let r = delete_play_list_request(9);
    assert_eq!(r.payload, "{\"pid\":\"9\"}");

    let r = track_request(true, 7, &vec![1, 22, 333]);
    assert_eq!(r.path, "https://music.163.com/weapi/playlist/manipulate/tracks");
    assert_eq!(
        r.payload,
        "{\"op\":\"add\",\"pid\":\"7\",\"trackIds\":\"[1,22,333]\"}"
    );
    let r = track_request(false, 7, &vec![5]);
    assert_eq!(r.payload, "{\"op\":\"del\",\"pid\":\"7\",\"trackIds\":\"[5]\"}");

    let r = play_list_request(1001, 0, 1000);
    assert_eq!(r.payload, "{\"limit\":1000,\"offset\":0,\"uid\":1001}");
    assert_eq!(r.cache_key.unwrap(), "play_list");

    assert_eq!(sub_play_request(3).payload, "{\"id\":3}");
    assert_eq!(
        sub_play_request(3).path,
        "https://music.163.com/weapi/playlist/subscribe"
    );
    assert_eq!(
        unsub_play_request(3).path,
        "https://music.163.com/weapi/playlist/unsubscribe"
    );

    let r = play_detail_request(15);
    assert_eq!(
        r.payload,
        "{\"id\":15,\"limit\":1000,\"n\":1000,\"offset\":0,\"total\":true}"
    );
    assert_eq!(r.cache_key.unwrap(), "play_detail_15");

    let r = song_url_request(88);
    assert_eq!(r.payload, "{\"br\":128000,\"ids\":\"[88]\"}");
    assert_eq!(song_request(88).payload, "{\"ids\":\"[88]\"}");
}

#[test]
fn daily_cached_requests() {
    let d = Date { year: 2025, month: 10, day: 8 };
    let r = recommend_resource_request(&d);
    assert_eq!(r.payload, "{}");
    assert_eq!(r.cache_key.unwrap(), "recommend_resource_2025-10-08");
    let r = recommend_songs_request(&d);
    assert_eq!(r.payload, "{\"offset\":0,\"total\":true}");
    assert_eq!(r.cache_key.unwrap(), "recommend_2025-10-08");
}

#[test]
fn file_and_key_names() {
    assert_eq!(cache_file_name("play_list"), "play_list.cache");
    assert_eq!(song_file_name(12), "12.mp3");
    assert_eq!(cookie_file_name(), "cookie.cache");
    assert_eq!(play_detail_key(4), "play_detail_4");
    assert_eq!(play_list_key(), "play_list");
}

/// A connect failure or timeout emits exactly one Offline notification and
/// fails with Offline — never with a rejection or decode failure.
#[test]
fn offline_classification() {
    for (t, c) in [(true, false), (false, true), (true, true)] {
        let (err, events) = classify_send_error(t, c, "connection refused");
        assert!(matches!(err, NCErr::Offline));
        assert_eq!(events.len(), 1);
        assert!(matches!(events[0], ES::AppState(AppState::Offline)));
    }
    let (err, events) = classify_send_error(false, false, "tls handshake");
    match err {
        NCErr::Client(what, msg) => {
            assert_eq!(what, "req");
            assert_eq!(msg, "tls handshake");
        }
        _ => panic!("expected a client failure"),
    }
    assert_eq!(events.len(), 0);
}

#[test]
fn response_classification() {
    assert!(handle_response(true, "{\"code\":200}").is_ok());
    match handle_response(true, "") {
        Err(NCErr::Resp(t)) => assert_eq!(t, ""),
        _ => panic!("an empty body is a rejection"),
    }
    match handle_response(false, "504 gateway") {
        Err(NCErr::Resp(t)) => assert_eq!(t, "504 gateway"),
        _ => panic!("a failed status is a rejection"),
    }
    match parse_failure("https://music.163.com/weapi/song/lyric", "rawbody", "missing field") {
        NCErr::Client(what, msg) => {
            assert_eq!(what, "https://music.163.com/weapi/song/lyric");
            assert_eq!(msg, "rawbody err missing field");
        }
        _ => panic!("expected a client failure"),
    }
}

#[test]
fn error_messages() {
    assert_eq!(NCErr::Any.message(), "any error");
    assert_eq!(NCErr::Offline.message(), "offline");
    assert_eq!(NCErr::Resp(String::from("x")).message(), "server respose x");
    assert_eq!(
        NCErr::Client(String::from("req"), String::from("y")).message(),
        "client req: y"
    );
}

/// The login poll switches on the exact protocol codes.
#[test]
fn qr_poll_codes() {
    assert_eq!(qr_wait_outcome(800), QrOutcome::Failed);
    assert_eq!(qr_wait_outcome(801), QrOutcome::Waiting);
    assert_eq!(qr_wait_outcome(802), QrOutcome::Authing);
    assert_eq!(qr_wait_outcome(803), QrOutcome::Confirmed);
    assert_eq!(qr_wait_outcome(999), QrOutcome::Unexpected(999));
    assert!(matches!(qr_login_state(&QrOutcome::Failed), Some(LoginState::Failed)));
    assert!(matches!(qr_login_state(&QrOutcome::Waiting), Some(LoginState::Wait)));
    assert!(matches!(qr_login_state(&QrOutcome::Authing), Some(LoginState::Authing)));
    assert!(matches!(qr_login_state(&QrOutcome::Confirmed), Some(LoginState::Done)));
    assert!(qr_login_state(&QrOutcome::Unexpected(0)).is_none());
}

/// Offline mode probes again a few seconds after the last test, and not
/// before.
#[test]
fn offline_monitor_probe() {
    let mut m = OfflineMonitor::new();
    assert!(m.on_tick(100, true).is_none());
    m.on_offline(100);
    assert!(m.on_tick(102, true).is_none());
    match m.on_tick(104, true) {
        Some(AppState::Authed) => {}
        _ => panic!("a probe was due"),
    }
    // The probe clock restarted.
    assert!(m.on_tick(105, true).is_none());
    match m.on_tick(108, false) {
        Some(AppState::Authing) => {}
        _ => panic!("a probe was due, unauthenticated"),
    }
    m.on_online();
    assert!(m.on_tick(200, true).is_none());
}

#[test]
fn profile_guard_once() {
    let mut g = ProfileGuard::new();
    assert!(g.needs_fetch());
    g.mark_resolved();
    assert!(!g.needs_fetch());
}
