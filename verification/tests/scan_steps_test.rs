use pathscan::baseline::BaselineCalibrator;
use pathscan::engine::{Gate, ScanCollector, ScanEngine};
use pathscan::error::PathScanError;
use pathscan::headers::Headers;
use pathscan::plugins::rate_limit::{RateLimitPlugin, MAX_DELAY_MS};
use pathscan::types::{ScanConfig, ScanResult, ScanStatus};
use pathscan::wordlist::{FileRead, Wordlist, WordlistFile};
use std::time::Duration;

fn result(url: &str, is_directory: bool) -> ScanResult {
    ScanResult {
        url: url.into(),
        path: "p".into(),
        status: 200,
        content_length: 1,
        content_type: None,
        response_time: Duration::from_millis(0),
        redirect_location: None,
        is_directory,
        content_hash: "h".into(),
        headers: Headers::new(),
        body: String::new(),
    }
}

#[test]
fn paused_scan_waits() {
    assert_eq!(ScanEngine::gate(ScanStatus::Running), Gate::Send);
    assert_eq!(ScanEngine::gate(ScanStatus::Paused), Gate::Wait);
    assert_eq!(ScanEngine::gate(ScanStatus::Completed), Gate::Stop);
    assert_eq!(ScanEngine::gate(ScanStatus::Cancelled), Gate::Stop);
}

#[test]
fn cookie_goes_into_requests() {
    let mut config = ScanConfig::new("http://x.com".into());
    config.custom_headers.insert("X-A".into(), "1".into());
    assert_eq!(ScanEngine::request_headers(&config).len(), 1);
    config.cookie = Some("sid=42".into());
    let h = ScanEngine::request_headers(&config);
    assert_eq!(h.get("Cookie").map(|s| s.as_str()), Some("sid=42"));
    assert_eq!(h.get("X-A").map(|s| s.as_str()), Some("1"));
    config.custom_headers.insert("Cookie".into(), "mine".into());
    let h = ScanEngine::request_headers(&config);
    assert_eq!(h.get("Cookie").map(|s| s.as_str()), Some("mine"));
}

#[test]
fn recursion_follows_directories_to_the_depth() {
    let rs = vec![result("http://x.com/a/", true), result("http://x.com/b", false), result("http://x.com/c/", true)];
    assert_eq!(
        ScanEngine::recursion_targets(&rs, true, 0, 2),
        vec!["http://x.com/a/".to_string(), "http://x.com/c/".to_string()]
    );
    assert!(ScanEngine::recursion_targets(&rs, true, 2, 2).is_empty());
    assert!(ScanEngine::recursion_targets(&rs, false, 0, 2).is_empty());
}

#[test]
fn rate_limit_interval() {
    assert_eq!(ScanEngine::request_interval_nanos(Some(4)), Some(250_000_000));
    assert_eq!(ScanEngine::request_interval_nanos(Some(3)), Some(333_333_333));
    assert_eq!(ScanEngine::request_interval_nanos(Some(0)), None);
    assert_eq!(ScanEngine::request_interval_nanos(None), None);
}

#[test]
fn calibration_steps() {
    let mut config = ScanConfig::new("http://x.com/".into());
    config.cookie = Some("c=1".into());
    let reqs = BaselineCalibrator::calibration_requests(&config);
    assert_eq!(reqs.len(), 5);
    assert_eq!(reqs[0].url, "http://x.com/nonexistent_8a3f2b1c");
    assert_eq!(reqs[4].url, "http://x.com/nonexistent_e8c2b47f");
    assert_eq!(reqs[2].method, "GET");
    assert_eq!(reqs[1].headers.get("Cookie").map(|s| s.as_str()), Some("c=1"));
    let ok = |s: u16, l: u64| -> Result<(u16, u64), PathScanError> { Ok((s, l)) };
    let failed = |m: &str| -> Result<(u16, u64), PathScanError> { Err(PathScanError::Http(m.into())) };
    assert!(BaselineCalibrator::keep_calibrating(&vec![], 5));
    assert!(BaselineCalibrator::keep_calibrating(&vec![ok(404, 3)], 5));
    assert!(!BaselineCalibrator::keep_calibrating(&vec![ok(404, 3), failed("x")], 5));
    assert!(!BaselineCalibrator::keep_calibrating(&vec![ok(404, 3), ok(404, 3), ok(404, 3), ok(404, 3), ok(404, 3)], 5));
    let b = BaselineCalibrator::baseline_from_answers(&config, vec![ok(404, 1234), ok(404, 1234), ok(200, 7)]).unwrap();
    assert_eq!((b.typical_status, b.typical_length), (404, 1234));
    assert_eq!(b.typical_hash, "1af2444c165b8d6156651aa4f8dc49e6302f690473e80304fdfdb73baa9140c7");
    assert_eq!(b.typical_hash.len(), 64);
    assert!(BaselineCalibrator::baseline_from_answers(&config, vec![ok(404, 1), failed("x")]).is_none());
    match BaselineCalibrator::calibration_result(vec![ok(404, 1), failed("first"), failed("second")]) {
        Err(PathScanError::Http(m)) => assert_eq!(m, "first"),
        _ => panic!("expected the first probe error"),
    }
    let b = BaselineCalibrator::calibration_result(vec![ok(404, 9), ok(200, 1), ok(404, 9)]).unwrap();
    assert_eq!((b.typical_status, b.typical_length, b.samples.len()), (404, 9, 3));
    config.no_baseline = true;
    assert!(BaselineCalibrator::calibration_requests(&config).is_empty());
    assert!(BaselineCalibrator::baseline_from_answers(&config, vec![ok(404, 1)]).is_none());
}

#[test]
fn wordlist_file_paths() {
    let f = |dir: Option<&str>, name: &str| WordlistFile { dir: dir.map(|d| d.to_string()), name: name.into() };
    assert_eq!(f(None, "/tmp/w.txt").path_text(), "/tmp/w.txt");
    assert_eq!(f(Some("wordlists"), "small.txt").path_text(), "wordlists/small.txt");
    assert_eq!(f(Some("lists/"), "small.txt").path_text(), "lists/small.txt");
    assert_eq!(f(Some(""), "small.txt").path_text(), "small.txt");
}

#[test]
fn loading_parts_concatenates() {
    let a = vec![FileRead::Content("x\ny\n".into())];
    let b = vec![FileRead::Content("z\n".into()), FileRead::Content("w".into())];
    let whole: Vec<FileRead> = a.iter().chain(b.iter()).cloned().collect();
    let mut parts = Wordlist::load(a).unwrap().entries().to_vec();
    parts.extend(Wordlist::load(b).unwrap().entries().to_vec());
    assert_eq!(Wordlist::load(whole).unwrap().entries(), parts.as_slice());
}

#[test]
fn delay_stays_within_bounds() {
    let base = 100;
    let mut cur = 0;
    for status in [429u16, 429, 429, 429, 429, 429, 429, 429, 429, 404, 500, 200, 200, 200, 200, 200, 200, 200] {
        if let Some(n) = RateLimitPlugin::next_delay(cur, base, status) {
            assert!(base <= n && n <= MAX_DELAY_MS);
            cur = n;
        } else {
            assert!(status != 429);
        }
    }
    assert_eq!(cur, base);
    assert_eq!(RateLimitPlugin::next_delay(6_400, base, 429), Some(MAX_DELAY_MS));
    assert_eq!(RateLimitPlugin::next_delay(800, base, 403), None);
}

#[test]
fn collector_counts_outcomes_in_order() {
    let config = ScanConfig::new("http://x.com".into());
    let mut c = ScanCollector::new(&config, None);
    let mut a = result("http://x.com/a", false);
    a.content_hash = "h1".into();
    let mut b = result("http://x.com/b", false);
    b.content_hash = "h2".into();
    c.take_outcome(Some(a));
    c.take_outcome(None);
    c.take_outcome(Some(b));
    assert_eq!(c.outcome_count(), 3);
    let report = c.finish("http://x.com".into(), 0, None);
    assert_eq!(report.total_requests, 3);
    assert_eq!(report.errors, 1);
    assert_eq!(report.results.len(), 2);
    assert_eq!(report.results[0].url, "http://x.com/a");
    assert_eq!(report.results[1].url, "http://x.com/b");
    assert!(report.results.len() + report.errors <= report.total_requests);
}
