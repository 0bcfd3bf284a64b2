use pathscan::baseline::BaselineCalibrator;
use pathscan::client::{headers_from_pairs, response_from_parts, user_agent_for};
use pathscan::engine::{ScanCollector, ScanEngine, ScanEvent};
use pathscan::error::PathScanError;
use pathscan::headers::Headers;
use pathscan::types::{RequestContext, ScanConfig, ScanResult};
use std::time::Duration;

fn result(url: &str, status: u16, len: u64, hash: &str) -> ScanResult {
    ScanResult {
        url: url.into(),
        path: "p".into(),
        status,
        content_length: len,
        content_type: None,
        response_time: Duration::from_millis(0),
        redirect_location: None,
        is_directory: false,
        content_hash: hash.into(),
        headers: Headers::new(),
        body: String::new(),
    }
}

#[test]
fn request_target_joins_with_one_slash() {
    let (url, path) = ScanEngine::request_target("http://x.com///", "//admin/");
    assert_eq!(url, "http://x.com/admin/");
    assert_eq!(path, "admin/");
    let (url, path) = ScanEngine::request_target("http://x.com", "a");
    assert_eq!(url, "http://x.com/a");
    assert_eq!(path, "a");
}

#[test]
fn content_hash_exact() {
    let h = ScanEngine::content_hash("http://x.com/admin", 200, 42);
    assert_eq!(h, "b3cf0c4eaf45e9b3d569a1d546b86cc9fdf7741c427c34d1566a4b1a2d841535");
}

#[test]
fn status_announcement() {
    assert!(ScanEngine::status_announced(&vec![200], &vec![], 200));
    assert!(!ScanEngine::status_announced(&vec![200], &vec![], 404));
    assert!(ScanEngine::status_announced(&vec![], &vec![], 404));
    assert!(!ScanEngine::status_announced(&vec![500], &vec![500], 500));
}

#[test]
fn result_from_response_reads_headers() {
    let resp = response_from_parts(
        "http://x.com/a".into(),
        301,
        vec![("location".into(), "/a/".into()), ("content-type".into(), "text/html".into())],
        "moved",
    );
    let r = ScanEngine::result_from_response("http://x.com/a".into(), "a".into(), resp, Duration::from_millis(37));
    assert_eq!(r.status, 301);
    assert_eq!(r.content_length, 5);
    assert_eq!(r.redirect_location.as_deref(), Some("/a/"));
    assert_eq!(r.content_type.as_deref(), Some("text/html"));
    assert_eq!(r.response_time, Duration::from_millis(37));
    assert_eq!(r.body, "moved");
    assert!(!r.is_directory);
    assert_eq!(r.content_hash, ScanEngine::content_hash("http://x.com/a", 301, 5));
}

#[test]
fn events_in_order() {
    let r = result("http://x.com/a", 200, 1, "h");
    let e = ScanEngine::response_events(0, 3, true, &r);
    assert_eq!(e.len(), 2);
    assert!(matches!(&e[0], ScanEvent::Result(x) if x.url == "http://x.com/a"));
    assert!(matches!(e[1], ScanEvent::Progress { completed: 1, total: 3 }));
    let e = ScanEngine::response_events(1, 3, false, &r);
    assert_eq!(e.len(), 1);
    let e = ScanEngine::error_events(2, 3, "boom".into());
    assert!(matches!(e[0], ScanEvent::Progress { completed: 3, total: 3 }));
    assert!(matches!(&e[1], ScanEvent::Error(m) if m == "boom"));
}

#[test]
fn collector_keeps_distinct_admitted_results() {
    let mut config = ScanConfig::new("http://x.com".into());
    config.status_whitelist = vec![200];
    let mut c = ScanCollector::new(&config, None);
    c.accept(result("http://x.com/a", 200, 1, "h1"));
    c.accept(result("http://x.com/b", 200, 2, "h1"));
    c.accept(result("http://x.com/c", 404, 3, "h2"));
    c.accept(result("http://x.com/d", 200, 4, "h3"));
    c.record_error();
    assert_eq!(c.error_count(), 1);
    let report = c.finish("http://x.com".into(), 5, None);
    assert_eq!(report.results.len(), 2);
    assert_eq!(report.results[0].url, "http://x.com/a");
    assert_eq!(report.results[1].url, "http://x.com/d");
    assert!(report.results[0].is_directory);
    assert_eq!(report.errors, 1);
    assert_eq!(report.total_requests, 5);
}

#[test]
fn collector_notes_server() {
    let config = ScanConfig::new("http://x.com".into());
    let mut c = ScanCollector::new(&config, None);
    let mut r = result("http://x.com/a", 200, 1, "h1");
    r.headers.insert("server".into(), "nginx".into());
    c.accept(r);
    let report = c.finish("t".into(), 0, None);
    assert_eq!(report.results[0].content_type.as_deref(), Some("unknown (server: nginx)"));
}

#[test]
fn probe_urls_exact() {
    let urls = BaselineCalibrator::probe_urls("http://x.com/");
    assert_eq!(urls.len(), 5);
    assert_eq!(urls[0], "http://x.com/nonexistent_8a3f2b1c");
    assert_eq!(urls[4], "http://x.com/nonexistent_e8c2b47f");
}

#[test]
fn typical_sample_is_last_most_frequent() {
    assert_eq!(BaselineCalibrator::typical_sample(&vec![]), (404, 0));
    assert_eq!(
        BaselineCalibrator::typical_sample(&vec![(404, 10), (200, 5), (404, 10), (200, 5), (301, 1)]),
        (200, 5)
    );
    assert_eq!(BaselineCalibrator::typical_sample(&vec![(404, 10), (404, 10), (200, 5)]), (404, 10));
}

#[test]
fn baseline_hash_exact() {
    let b = BaselineCalibrator::from_samples(vec![(404, 1234), (404, 1234), (200, 7)]);
    assert_eq!(b.typical_status, 404);
    assert_eq!(b.typical_length, 1234);
    assert_eq!(b.typical_hash, "1af2444c165b8d6156651aa4f8dc49e6302f690473e80304fdfdb73baa9140c7");
    assert_eq!(b.samples.len(), 3);
    let b = BaselineCalibrator::from_samples(vec![]);
    assert_eq!((b.typical_status, b.typical_length), (404, 0));
    assert_eq!(b.typical_hash, "af5570f5a1810b7af78caf4bc70a660f0df51e42baf91d4de5b2328de0e83dfc");
}

#[test]
fn response_parts() {
    let body: String = "é".repeat(250);
    let r = response_from_parts("u".into(), 200, vec![("a".into(), "1".into()), ("a".into(), "2".into())], &body);
    assert_eq!(r.content_length, 500);
    assert_eq!(r.body_snippet.chars().count(), 200);
    assert_eq!(r.body, body);
    assert_eq!(r.headers.get("a").map(|s| s.as_str()), Some("2"));
    assert_eq!(r.headers.len(), 1);
}

#[test]
fn headers_replace_values() {
    let mut h = Headers::new();
    h.insert("X".into(), "1".into());
    h.insert("Y".into(), "2".into());
    h.insert("X".into(), "3".into());
    assert_eq!(h.len(), 2);
    assert_eq!(h.get("X").map(|s| s.as_str()), Some("3"));
    assert!(h.get("Z").is_none());
    assert!(h.contains_key("Y"));
    let h2 = headers_from_pairs(vec![("k".into(), "v".into())]);
    assert_eq!(h2.entries()[0], ("k".to_string(), "v".to_string()));
}

#[test]
fn user_agent_default() {
    let mut config = ScanConfig::new("u".into());
    assert_eq!(user_agent_for(&config), "PathScan/0.1.0");
    config.user_agent = Some("me".into());
    assert_eq!(user_agent_for(&config), "me");
}

#[test]
fn get_request_shape() {
    let mut h = Headers::new();
    h.insert("a".into(), "b".into());
    let r = ScanEngine::get_request("http://x.com/a".into(), &h);
    assert_eq!(r.method, "GET");
    assert!(!r.follow_redirects);
    assert_eq!(r.headers.get("a").map(|s| s.as_str()), Some("b"));
    let d = RequestContext::default();
    assert_eq!(d.method, "GET");
    assert!(d.url.is_empty());
}

#[test]
fn error_messages() {
    assert_eq!(PathScanError::Http("x".into()).message(), "HTTP request failed: x");
    assert_eq!(PathScanError::InvalidUrl("x".into()).message(), "invalid URL: x");
    assert_eq!(PathScanError::WordlistNotFound("x".into()).message(), "wordlist not found: x");
    assert_eq!(PathScanError::WordlistRead("x".into()).message(), "wordlist read error: x");
    assert_eq!(PathScanError::Cancelled.message(), "scan cancelled by user");
    assert_eq!(PathScanError::Serde("x".into()).message(), "serialization error: x");
    assert_eq!(PathScanError::Other("x".into()).message(), "x");
}
