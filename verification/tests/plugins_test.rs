use pathscan::headers::Headers;
use pathscan::plugin::{Plugin, PluginChain};
use pathscan::plugins::fingerprint::FingerprintPlugin;
use pathscan::plugins::rate_limit::RateLimitPlugin;
use pathscan::plugins::recursion::RecursionPlugin;
use pathscan::plugins::screenshot::ScreenshotPlugin;
use pathscan::plugins::BuiltinPlugin;
use pathscan::client::response_from_parts;
use pathscan::types::ScanResult;
use std::time::Duration;

fn result(status: u16, location: Option<&str>) -> ScanResult {
    ScanResult {
        url: "http://x.com/a".into(),
        path: "a".into(),
        status,
        content_length: 1,
        content_type: None,
        response_time: Duration::from_millis(0),
        redirect_location: location.map(|s| s.to_string()),
        is_directory: false,
        content_hash: "h".into(),
        headers: Headers::new(),
        body: String::new(),
    }
}

#[test]
fn recursion_marks_directories() {
    let p = RecursionPlugin;
    let mut r = result(200, None);
    p.on_result(&mut r);
    assert!(r.is_directory);
    let mut r = result(301, Some("/a/"));
    p.on_result(&mut r);
    assert!(r.is_directory);
    let mut r = result(302, Some("/a"));
    p.on_result(&mut r);
    assert!(!r.is_directory);
    let mut r = result(307, Some("/a/"));
    p.on_result(&mut r);
    assert!(!r.is_directory);
    assert_eq!(p.name(), "recursion");
    assert_eq!(p.version(), "0.1.0");
}

#[test]
fn fingerprint_notes_server() {
    let p = FingerprintPlugin;
    let mut r = result(200, None);
    r.content_type = Some("text/html".into());
    r.headers.insert("server".into(), "Apache".into());
    p.on_result(&mut r);
    assert_eq!(r.content_type.as_deref(), Some("text/html (server: Apache)"));
    let mut r = result(200, None);
    p.on_result(&mut r);
    assert_eq!(r.content_type, None);
    assert_eq!(p.name(), "fingerprint");
}

#[test]
fn rate_limit_delays() {
    assert_eq!(RateLimitPlugin::next_delay(0, 100, 429), Some(100));
    assert_eq!(RateLimitPlugin::next_delay(100, 100, 429), Some(200));
    assert_eq!(RateLimitPlugin::next_delay(8000, 100, 429), Some(10_000));
    assert_eq!(RateLimitPlugin::next_delay(4_000_000_000, 100, 429), Some(10_000));
    assert_eq!(RateLimitPlugin::next_delay(400, 100, 200), Some(200));
    assert_eq!(RateLimitPlugin::next_delay(150, 100, 200), Some(100));
    assert_eq!(RateLimitPlugin::next_delay(0, 100, 200), None);
    assert_eq!(RateLimitPlugin::next_delay(400, 100, 404), None);
}

#[test]
fn rate_limit_plugin_state() {
    let p = RateLimitPlugin::new(250);
    assert_eq!(p.current_delay(), None);
    let resp = response_from_parts("u".into(), 429, vec![], "");
    let resp = p.on_response(resp);
    assert_eq!(resp.status, 429);
    assert_eq!(p.current_delay(), Some(Duration::from_millis(250)));
    let _ = p.on_response(resp);
    assert_eq!(p.current_delay(), Some(Duration::from_millis(500)));
    let ok = response_from_parts("u".into(), 200, vec![], "");
    let _ = p.on_response(ok);
    assert_eq!(p.current_delay(), Some(Duration::from_millis(250)));
    assert_eq!(p.name(), "rate_limit");
}

#[test]
fn screenshot_changes_nothing() {
    let p = ScreenshotPlugin::new_disabled();
    assert!(!p.enabled);
    let mut r = result(200, None);
    p.on_result(&mut r);
    assert!(!r.is_directory);
    assert_eq!(p.name(), "screenshot");
}

#[test]
fn chain_runs_in_order() {
    let mut chain = PluginChain::new();
    chain.register(BuiltinPlugin::Recursion(RecursionPlugin));
    chain.register(BuiltinPlugin::Fingerprint(FingerprintPlugin));
    let mut r = result(200, None);
    r.headers.insert("server".into(), "nginx".into());
    chain.run_on_result(&mut r);
    assert!(r.is_directory);
    assert_eq!(r.content_type.as_deref(), Some("unknown (server: nginx)"));
    let resp = response_from_parts("u".into(), 200, vec![], "body");
    let resp = chain.run_on_response(resp);
    assert_eq!(resp.body_snippet, "body");
}

#[test]
fn recursion_twice_is_once() {
    let p = RecursionPlugin;
    let mut r = result(302, Some("/dir/"));
    p.on_result(&mut r);
    let once = r.is_directory;
    p.on_result(&mut r);
    assert_eq!(r.is_directory, once);
    assert!(once);
}
