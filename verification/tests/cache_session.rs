//! The response cache and its date-keyed policy, and the session's cookie
//! handling.

use m163_core::cache::{daily_key, date_from_parts, today, Date, ResponseCache};
use m163_core::session::{device_cookie, fresh_device_id, login_chain, s_device_id};

#[test]
fn cache_get_set_invalidate() {
    let mut c = ResponseCache::new();
    assert_eq!(c.get("k"), None);
    c.set("k", String::from("v1"));
    assert_eq!(c.get("k"), Some(String::from("v1")));
    c.set("k", String::from("v2"));
    assert_eq!(c.get("k"), Some(String::from("v2")));
    c.set("other", String::from("x"));
    c.invalidate("k");
    assert_eq!(c.get("k"), None);
    assert_eq!(c.get("other"), Some(String::from("x")));
    // Invalidating a missing key is harmless.
    c.invalidate("nope");
    assert_eq!(c.get("other"), Some(String::from("x")));
}

fn fetch_daily(cache: &mut ResponseCache, d: &Date, network_calls: &mut usize) -> String {
    let key = daily_key("recommend_resource_", d);
    if let Some(v) = cache.get(key.as_str()) {
        return v;
    }
    *network_calls += 1;
    let v = String::from("feed");
    cache.set(key.as_str(), v.clone());
    v
}

/// Two same-day calls to a daily-rotating endpoint issue one network call;
/// a call after the date rolled over issues a new one.
#[test]
fn daily_key_rotation() {
    let mut cache = ResponseCache::new();
    let mut network_calls: usize = 0;
    let day1 = Date { year: 2025, month: 3, day: 9 };
    let day2 = Date { year: 2025, month: 3, day: 10 };
    fetch_daily(&mut cache, &day1, &mut network_calls);
    fetch_daily(&mut cache, &day1, &mut network_calls);
    assert_eq!(network_calls, 1);
    fetch_daily(&mut cache, &day2, &mut network_calls);
    assert_eq!(network_calls, 2);
    fetch_daily(&mut cache, &day2, &mut network_calls);
    assert_eq!(network_calls, 2);
}

#[test]
fn daily_key_format() {
    let d = Date { year: 2025, month: 1, day: 2 };
    assert_eq!(daily_key("recommend_resource_", &d), "recommend_resource_2025-01-02");
    let d = Date { year: 999, month: 12, day: 31 };
    assert_eq!(daily_key("recommend_", &d), "recommend_999-12-31");
}

/// Clock readings become dates unchanged while the year fits the keys;
/// years outside the renderable range yield nothing.
#[test]
fn date_from_clock_parts() {
    assert_eq!(date_from_parts(2025, 3, 9), Some(Date { year: 2025, month: 3, day: 9 }));
    assert_eq!(date_from_parts(0, 1, 1), Some(Date { year: 0, month: 1, day: 1 }));
    assert_eq!(date_from_parts(9999, 12, 31), Some(Date { year: 9999, month: 12, day: 31 }));
    assert_eq!(date_from_parts(10000, 1, 1), None);
    assert_eq!(date_from_parts(-1, 1, 1), None);
}

#[test]
fn today_is_well_formed() {
    let d = today().unwrap();
    assert!(1 <= d.month && d.month <= 12);
    assert!(1 <= d.day && d.day <= 31);
}

/// The device id comes from the first part whose key is exactly sDeviceId.
#[test]
fn device_id_parsing() {
    assert_eq!(s_device_id("sDeviceId=abc123"), Some(String::from("abc123")));
    assert_eq!(s_device_id("a=b;sDeviceId=xyz;c=d"), Some(String::from("xyz")));
    assert_eq!(s_device_id(""), None);
    assert_eq!(s_device_id("a=b;c=d"), None);
    // A leading space makes the key a different string, as the scan wrote it.
    assert_eq!(s_device_id("a=b; sDeviceId=xyz"), None);
    // The value stops at a second '=' inside the part.
    assert_eq!(s_device_id("sDeviceId=v=w"), Some(String::from("v")));
    // A bare key without '=' carries no value.
    assert_eq!(s_device_id("sDeviceId"), None);
}

#[test]
fn device_cookie_line() {
    assert_eq!(device_cookie("abc"), "sDeviceId=abc");
    let c = device_cookie("abc");
    assert_eq!(s_device_id(c.as_str()), Some(String::from("abc")));
}

#[test]
fn fresh_device_id_shape() {
    let id = fresh_device_id();
    assert!(id.starts_with("unknown-"));
    let digits = &id["unknown-".len()..];
    let n: u32 = digits.parse().unwrap();
    assert!((100000..1000000).contains(&n));
}

#[test]
fn login_chain_format() {
    assert_eq!(login_chain("dev1", 1230000000321), "v1_dev1_web_login_1230000000321");
}
