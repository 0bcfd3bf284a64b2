use pathscan::cli::{parse_header_arg, parse_status_list, CliArgs};
use pathscan::text::{str_contains, trim_str};
use pathscan::types::{BuiltinSize, ScanConfig, WordlistConfig};

fn args(url: &str) -> CliArgs {
    CliArgs {
        url: url.into(),
        wordlist: None,
        builtin: None,
        concurrency: 32,
        rate_limit: None,
        timeout: 10,
        headers: vec![],
        cookie: None,
        user_agent: None,
        proxy: None,
        status: None,
        exclude_status: None,
        insecure: false,
        no_length_filter: false,
        content_regex: None,
        recursive: false,
        depth: 1,
        output: None,
        json: false,
        html: false,
        no_color: false,
        no_baseline: false,
        tui: false,
    }
}

#[test]
fn status_lists() {
    assert_eq!(parse_status_list("200,403"), vec![200, 403]);
    assert_eq!(parse_status_list(" 200 , x, 70000,+301,,-1"), vec![200, 301]);
    assert_eq!(parse_status_list(""), Vec::<u16>::new());
    assert_eq!(parse_status_list("65535,65536"), vec![65535]);
}

#[test]
fn header_args() {
    assert_eq!(parse_header_arg("Authorization: Bearer x:y"), Some(("Authorization".to_string(), "Bearer x:y".to_string())));
    assert_eq!(parse_header_arg("nocolon"), None);
}

#[test]
fn config_from_args() {
    let mut a = args("https://example.com");
    a.status = Some("200,403".into());
    a.no_length_filter = true;
    a.headers = vec!["A: 1".into(), "bad".into(), "A: 2".into()];
    a.builtin = Some("large".into());
    let c = ScanConfig::from_args(a);
    assert_eq!(c.target_url, "https://example.com");
    assert_eq!(c.status_whitelist, vec![200, 403]);
    assert_eq!(c.status_blacklist, vec![400, 404, 408, 410, 429, 502, 503, 504, 500]);
    assert!(!c.enable_length_filter);
    assert_eq!(c.custom_headers.len(), 1);
    assert_eq!(c.custom_headers.get("A").map(|s| s.as_str()), Some("2"));
    assert!(matches!(c.wordlist, WordlistConfig::Builtin(BuiltinSize::Large)));

    let mut a = args("u");
    a.builtin = Some("huge".into());
    a.wordlist = Some("w.txt".into());
    let c = ScanConfig::from_args(a);
    assert!(matches!(c.wordlist, WordlistConfig::External(ref p) if p == "w.txt"));
    let mut a = args("u");
    a.builtin = Some("huge".into());
    assert!(matches!(ScanConfig::from_args(a).wordlist, WordlistConfig::Builtin(BuiltinSize::Medium)));
}

#[test]
fn default_config() {
    let c = ScanConfig::new("u".into());
    assert_eq!(c.concurrency, 32);
    assert_eq!(c.timeout_secs, 10);
    assert_eq!(c.status_whitelist, vec![200, 201, 204, 301, 302, 307, 401, 403, 405, 500]);
    assert!(c.enable_length_filter);
    assert_eq!(c.max_depth, 1);
    assert!(matches!(c.wordlist, WordlistConfig::Builtin(BuiltinSize::Medium)));
}

#[test]
fn text_helpers() {
    assert_eq!(trim_str("\u{3000} a b \t\n"), "a b");
    assert!(str_contains("abcdef", "cde"));
    assert!(!str_contains("abc", "abcd"));
    assert!(str_contains("abc", ""));
}
