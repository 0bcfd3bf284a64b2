use pathscan::filter::FilterPipeline;
use pathscan::headers::Headers;
use pathscan::types::{Baseline, ScanConfig, ScanResult};
use std::time::Duration;

fn make_result(status: u16, len: u64) -> ScanResult {
    ScanResult {
        url: "http://example.com/test".into(),
        path: "test".into(),
        status,
        content_length: len,
        content_type: None,
        response_time: Duration::from_millis(100),
        redirect_location: None,
        is_directory: false,
        content_hash: "abc".into(),
        headers: Headers::new(),
        body: String::new(),
    }
}

fn sample_baseline() -> Baseline {
    Baseline {
        typical_status: 404,
        typical_length: 1234,
        typical_hash: "hash".into(),
        samples: vec![(404, 1234)],
    }
}

#[test]
fn test_status_filter_passes() {
    let config = ScanConfig::new("http://example.com".into());
    let pipeline = FilterPipeline::new(&config, None);
    assert!(pipeline.run(make_result(200, 1000)).is_some());
}

#[test]
fn test_status_filter_blocks() {
    let mut config = ScanConfig::new("http://example.com".into());
    config.status_whitelist = vec![200, 301];
    let pipeline = FilterPipeline::new(&config, None);
    assert!(pipeline.run(make_result(404, 1000)).is_none());
}

#[test]
fn test_length_filter_blocks_baseline_match() {
    let config = ScanConfig::new("http://example.com".into());
    let baseline = sample_baseline();
    let pipeline = FilterPipeline::new(&config, Some(&baseline));
    assert!(pipeline.run(make_result(200, 1234)).is_none());
}

#[test]
fn test_length_filter_disabled() {
    let mut config = ScanConfig::new("http://example.com".into());
    config.enable_length_filter = false;
    let baseline = sample_baseline();
    let pipeline = FilterPipeline::new(&config, Some(&baseline));
    assert!(pipeline.run(make_result(200, 1234)).is_some());
}

#[test]
fn denied_status_is_dropped_even_when_allowed() {
    // 500 is on both default lists: the deny list wins.
    let config = ScanConfig::new("http://example.com".into());
    let pipeline = FilterPipeline::new(&config, None);
    assert!(pipeline.run(make_result(500, 10)).is_none());
}

#[test]
fn empty_allow_list_admits_any_status_not_denied() {
    let mut config = ScanConfig::new("http://example.com".into());
    config.status_whitelist = vec![];
    config.status_blacklist = vec![404];
    let pipeline = FilterPipeline::new(&config, None);
    assert!(pipeline.run(make_result(418, 10)).is_some());
    assert!(pipeline.run(make_result(404, 10)).is_none());
}

#[test]
fn kept_result_is_unchanged() {
    let config = ScanConfig::new("http://example.com".into());
    let pipeline = FilterPipeline::new(&config, None);
    let kept = pipeline.run(make_result(301, 77)).unwrap();
    assert_eq!(kept.status, 301);
    assert_eq!(kept.content_length, 77);
    assert_eq!(kept.url, "http://example.com/test");
}

#[test]
fn content_pattern_decides_on_body() {
    let mut config = ScanConfig::new("http://example.com".into());
    config.content_regex = Some("adm[i]n panel".into());
    let pipeline = FilterPipeline::new(&config, None);
    let mut r = make_result(200, 10);
    r.body = "<h1>Admin panel</h1><p>admin panel login</p>".into();
    assert!(pipeline.run(r).is_some());
    // The URL matching does not matter: only the body is searched.
    config.content_regex = Some("example".into());
    let pipeline = FilterPipeline::new(&config, None);
    let mut r = make_result(200, 10);
    r.body = "<h1>Not found</h1>".into();
    assert!(pipeline.run(r).is_none());
}

#[test]
fn content_pattern_searches_the_whole_body() {
    let mut config = ScanConfig::new("http://example.com".into());
    config.content_regex = Some("secret-token".into());
    let pipeline = FilterPipeline::new(&config, None);
    let mut r = make_result(200, 10);
    r.body = format!("{}secret-token", "x".repeat(500));
    assert!(pipeline.run(r).is_some());
}

#[test]
fn invalid_pattern_filters_nothing() {
    let mut config = ScanConfig::new("http://example.com".into());
    config.content_regex = Some("foo(bar".into());
    let pipeline = FilterPipeline::new(&config, None);
    assert!(pipeline.run(make_result(200, 10)).is_some());
}
