use pathscan::headers::Headers;
use pathscan::output::{HtmlFormatter, TextFormatter};
use pathscan::types::{ScanReport, ScanResult};
use std::time::Duration;

fn sample_result(url: &str, status: u16) -> ScanResult {
    ScanResult {
        url: url.into(),
        path: "test".into(),
        status,
        content_length: 1000,
        content_type: Some("text/html".into()),
        response_time: Duration::from_millis(50),
        redirect_location: None,
        is_directory: false,
        content_hash: "abc".into(),
        headers: Headers::new(),
        body: String::new(),
    }
}

#[test]
fn test_text_formatter_color() {
    let fmt = TextFormatter { color: true };
    let out = fmt.format_result(&sample_result("http://x.com/admin", 200));
    assert!(out.contains("\x1b[32m"));
}

#[test]
fn test_text_formatter_no_color() {
    let fmt = TextFormatter { color: false };
    let out = fmt.format_result(&sample_result("http://x.com/admin", 200));
    assert!(!out.contains("\x1b"));
}

#[test]
fn test_html_formatter() {
    let report = ScanReport {
        target: "http://x.com".into(),
        duration_nanos: 1_000_000_000,
        total_requests: 5,
        results: vec![sample_result("http://x.com/admin", 200)],
        errors: 0,
        baseline: None,
    };
    let html = HtmlFormatter.format_report(&report, "1.0");
    assert!(html.contains("<!DOCTYPE html>"));
    assert!(html.contains("200"));
}

#[test]
fn result_line_exact() {
    let fmt = TextFormatter { color: false };
    let mut r = sample_result("http://x.com/old", 301);
    r.redirect_location = Some("/new/".into());
    assert_eq!(fmt.format_result(&r), "[301] http://x.com/old -> /new/");
    let r = sample_result("http://x.com/a", 7);
    assert_eq!(fmt.format_result(&r), "[  7] http://x.com/a");
}

#[test]
fn status_colors_by_class() {
    let fmt = TextFormatter { color: true };
    assert_eq!(fmt.status_color(204, "x"), "\x1b[32mx\x1b[0m");
    assert_eq!(fmt.status_color(302, "x"), "\x1b[33mx\x1b[0m");
    assert_eq!(fmt.status_color(403, "x"), "\x1b[34mx\x1b[0m");
    assert_eq!(fmt.status_color(500, "x"), "\x1b[31mx\x1b[0m");
    assert_eq!(fmt.status_color(100, "x"), "\x1b[31mx\x1b[0m");
    let plain = TextFormatter { color: false };
    assert_eq!(plain.status_color(200, "x"), "x");
}

#[test]
fn colored_line_starts_with_class_color() {
    let fmt = TextFormatter { color: true };
    let out = fmt.format_result(&sample_result("http://x.com/admin", 404));
    assert!(out.starts_with("\x1b[34m"));
    assert_eq!(out, "\x1b[34m[404]\x1b[0m http://x.com/admin");
}

#[test]
fn text_report_exact() {
    let report = ScanReport {
        target: "http://x.com".into(),
        duration_nanos: 1_234_567_890,
        total_requests: 10,
        results: vec![sample_result("http://x.com/admin", 200)],
        errors: 1,
        baseline: None,
    };
    let fmt = TextFormatter { color: false };
    assert_eq!(
        fmt.format_report(&report, "1.23"),
        "Target:   http://x.com\nDuration: 1.23s\nRequests: 10\nFound:    1\nErrors:   1\n\n[200] http://x.com/admin\n"
    );
}

#[test]
fn duration_text_is_written_as_given() {
    let report = ScanReport {
        target: "t".into(),
        duration_nanos: 15_000_000,
        total_requests: 0,
        results: vec![],
        errors: 0,
        baseline: None,
    };
    let fmt = TextFormatter { color: false };
    assert!(fmt.format_report(&report, "0.01").contains("Duration: 0.01s\n"));
    assert!(HtmlFormatter.format_report(&report, "1.5").contains(">1.5s</div>Duration"));
}

#[test]
fn html_has_search_and_status_counts() {
    let report = ScanReport {
        target: "http://x.com".into(),
        duration_nanos: 0,
        total_requests: 4,
        results: vec![
            sample_result("http://x.com/a", 200),
            sample_result("http://x.com/b", 201),
            sample_result("http://x.com/c", 404),
            sample_result("http://x.com/d", 100),
        ],
        errors: 0,
        baseline: None,
    };
    let html = HtmlFormatter.format_report(&report, "0.0");
    assert!(html.contains("<input id=\"search\""));
    assert!(html.contains("onkeyup=\"filterRows()\""));
    assert!(html.contains("function filterRows()"));
    assert!(html.contains("<table id=\"results\">"));
    assert!(html.contains("<div><div class=\"value status-2xx\">2</div>2xx</div>"));
    assert!(html.contains("<div><div class=\"value status-3xx\">0</div>3xx</div>"));
    assert!(html.contains("<div><div class=\"value status-4xx\">1</div>4xx</div>"));
    assert!(html.contains("<div><div class=\"value status-5xx\">1</div>5xx</div>"));
    assert!(html.ends_with("</script></body></html>"));
}

#[test]
fn html_row_exact() {
    let mut r = sample_result("http://x.com/a", 302);
    r.redirect_location = Some("/b".into());
    let report = ScanReport {
        target: "http://x.com".into(),
        duration_nanos: 0,
        total_requests: 3,
        results: vec![r, sample_result("http://x.com/c", 503)],
        errors: 2,
        baseline: None,
    };
    let html = HtmlFormatter.format_report(&report, "0.0");
    assert!(html.contains("<tr><td class=\"status-3xx\">302</td><td>http://x.com/a</td><td>1000</td><td>/b</td></tr>"));
    assert!(html.contains("<tr><td class=\"status-5xx\">503</td><td>http://x.com/c</td><td>1000</td><td>-</td></tr>"));
    assert!(html.contains("<div class=\"value\">3</div>Requests"));
    assert!(html.contains("<div class=\"value\">2</div>Found"));
    assert!(html.contains("<div class=\"value\">2</div>Errors"));
    assert!(html.contains("<td>-</td></tr></tbody></table>\n<script>"));
}
