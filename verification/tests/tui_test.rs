use pathscan::engine::ScanEvent;
use pathscan::headers::Headers;
use pathscan::tui::{log_lines, stats_lines, App, Focus, Key, KeyOutcome};
use pathscan::types::{ScanResult, ScanStatus};
use std::time::Duration;

fn result(url: &str, status: u16) -> ScanResult {
    ScanResult {
        url: url.into(),
        path: "p".into(),
        status,
        content_length: 1,
        content_type: None,
        response_time: Duration::from_millis(0),
        redirect_location: None,
        is_directory: false,
        content_hash: "h".into(),
        headers: Headers::new(),
        body: String::new(),
    }
}

#[test]
fn events_update_state() {
    let mut app = App::new(0, false);
    app.update(ScanEvent::Progress { completed: 2, total: 9 });
    app.update(ScanEvent::Result(result("http://x.com/Admin", 200)));
    app.update(ScanEvent::Result(result("http://x.com/b", 404)));
    app.update(ScanEvent::Error("oops".into()));
    app.update(ScanEvent::Status(ScanStatus::Completed));
    assert_eq!((app.completed, app.total), (2, 9));
    assert_eq!(app.results.len(), 2);
    assert_eq!(app.errors, vec!["oops".to_string()]);
    assert_eq!(app.status, ScanStatus::Completed);
    assert_eq!(app.status_counts(), (1, 0, 1, 0));
    app.filter_text = "ADMIN".into();
    let f = app.filtered_results();
    assert_eq!(f.len(), 1);
    assert_eq!(f[0].url, "http://x.com/Admin");
    app.filter_text = String::new();
    assert_eq!(app.filtered_results().len(), 2);
}

#[test]
fn selection_and_keys() {
    let mut app = App::new(3, false);
    assert!(app.selected_result().is_none());
    app.update(ScanEvent::Result(result("a", 200)));
    app.update(ScanEvent::Result(result("b", 301)));
    app.selected_index = 7;
    assert_eq!(app.selected_result().unwrap().url, "b");
    app.selected_index = 0;
    assert_eq!(app.on_key(Key::Up), KeyOutcome::Continue);
    assert_eq!(app.selected_index, 0);
    app.on_key(Key::Down);
    app.on_key(Key::Down);
    assert_eq!(app.selected_index, 1);
    app.on_key(Key::Char('p'));
    assert_eq!(app.status, ScanStatus::Paused);
    app.on_key(Key::Char('p'));
    assert_eq!(app.status, ScanStatus::Running);
    app.on_key(Key::Tab);
    assert_eq!(app.focus, Focus::Stats);
    app.on_key(Key::Tab);
    assert_eq!(app.focus, Focus::Log);
    assert_eq!(app.on_key(Key::Char('q')), KeyOutcome::Quit);
    assert_eq!(app.status_counts(), (1, 1, 0, 0));
}

#[test]
fn save_key_asks_to_save() {
    let mut app = App::new(1, false);
    assert_eq!(app.on_key(Key::Char('s')), KeyOutcome::Save);
    assert_eq!(app.filter_text, "");
}

#[test]
fn filter_key_opens_editing() {
    let mut app = App::new(1, false);
    app.update(ScanEvent::Result(result("http://x.com/admin", 200)));
    app.update(ScanEvent::Result(result("http://x.com/login", 200)));
    assert_eq!(app.on_key(Key::Char('f')), KeyOutcome::Continue);
    assert!(app.editing_filter);
    for c in "adq".chars() {
        assert_eq!(app.on_key(Key::Char(c)), KeyOutcome::Continue);
    }
    // Keys that act outside the filter only type while editing.
    assert_eq!(app.status, ScanStatus::Running);
    assert_eq!(app.filter_text, "adq");
    app.on_key(Key::Backspace);
    assert_eq!(app.filter_text, "ad");
    app.on_key(Key::Enter);
    assert!(!app.editing_filter);
    assert_eq!(app.filtered_results().len(), 1);
    app.on_key(Key::Char('f'));
    app.on_key(Key::Backspace);
    app.on_key(Key::Backspace);
    app.on_key(Key::Backspace);
    assert_eq!(app.filter_text, "");
    app.on_key(Key::Esc);
    assert!(!app.editing_filter);
    assert_eq!(app.filtered_results().len(), 2);
}

#[test]
fn recursive_key_toggles() {
    let mut app = App::new(1, false);
    app.on_key(Key::Char('r'));
    assert!(app.recursive);
    app.on_key(Key::Char('r'));
    assert!(!app.recursive);
}

#[test]
fn log_pane_lines() {
    let mut app = App::new(4, false);
    app.update(ScanEvent::Result(result("http://x.com/a", 200)));
    let mut moved = result("http://x.com/b", 301);
    moved.redirect_location = Some("/b/".into());
    app.update(ScanEvent::Result(moved));
    app.update(ScanEvent::Result(result("http://x.com/c", 404)));
    app.update(ScanEvent::Result(result("http://x.com/d", 503)));
    assert_eq!(
        log_lines(&app, 10),
        vec![
            ("[200] http://x.com/a".to_string(), 2),
            ("[301] http://x.com/b -> /b/".to_string(), 3),
            ("[404] http://x.com/c".to_string(), 4),
            ("[503] http://x.com/d".to_string(), 5),
        ]
    );
    app.scroll_offset = 1;
    assert_eq!(
        log_lines(&app, 4),
        vec![("[301] http://x.com/b -> /b/".to_string(), 3), ("[404] http://x.com/c".to_string(), 4)]
    );
    assert!(log_lines(&app, 1).is_empty());
    app.scroll_offset = 9;
    assert!(log_lines(&app, 10).is_empty());
    app.scroll_offset = 0;
    app.filter_text = "/C".into();
    assert_eq!(log_lines(&app, 10), vec![("[404] http://x.com/c".to_string(), 4)]);
}

#[test]
fn stats_pane_lines() {
    let mut app = App::new(9, false);
    app.update(ScanEvent::Progress { completed: 4, total: 9 });
    app.update(ScanEvent::Result(result("a", 200)));
    app.update(ScanEvent::Result(result("b", 204)));
    app.update(ScanEvent::Result(result("c", 403)));
    app.update(ScanEvent::Result(result("d", 100)));
    app.update(ScanEvent::Error("timeout".into()));
    assert_eq!(
        stats_lines(&app),
        vec![
            "Total:    4/9".to_string(),
            "200-299:  2".to_string(),
            "300-399:  0".to_string(),
            "400-499:  1".to_string(),
            "500+:    1".to_string(),
            "Errors:   1".to_string(),
        ]
    );
}
