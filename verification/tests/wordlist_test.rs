use pathscan::error::PathScanError;
use pathscan::types::{BuiltinSize, WordlistConfig};
use pathscan::wordlist::{parse_wordlist, wordlist_files, FileRead, Wordlist};

#[test]
fn test_deduplicate() {
    let mut wl = Wordlist::from_entries(vec!["a".into(), "b".into(), "a".into()]);
    wl.deduplicate();
    assert_eq!(wl.entries().len(), 2);
}

#[test]
fn deduplicate_keeps_first_occurrences_in_order() {
    let mut wl = Wordlist::from_entries(vec!["b".into(), "a".into(), "b".into(), "c".into(), "a".into()]);
    wl.deduplicate();
    assert_eq!(wl.entries(), &["b".to_string(), "a".to_string(), "c".to_string()]);
    wl.deduplicate();
    assert_eq!(wl.entries(), &["b".to_string(), "a".to_string(), "c".to_string()]);
}

#[test]
fn words_skip_comments_and_blanks() {
    let words = parse_wordlist("admin\n\n  # comment\n  login  \r\n#x\nimages/\n");
    assert_eq!(words, vec!["admin".to_string(), "login".to_string(), "images/".to_string()]);
    assert!(words.iter().all(|e| !e.is_empty() && !e.starts_with('#')));
    assert!(parse_wordlist("").is_empty());
    assert_eq!(parse_wordlist("last"), vec!["last".to_string()]);
}

#[test]
fn load_concatenates_files() {
    let wl = Wordlist::load(vec![
        FileRead::Content("a\nb\n".into()),
        FileRead::Content("c\n".into()),
    ])
    .unwrap();
    assert_eq!(wl.entries(), &["a".to_string(), "b".to_string(), "c".to_string()]);
}

#[test]
fn load_reports_first_missing_file() {
    let r = Wordlist::load(vec![
        FileRead::Content("a\n".into()),
        FileRead::Missing("one.txt".into()),
        FileRead::Missing("two.txt".into()),
    ]);
    match r {
        Err(PathScanError::WordlistNotFound(p)) => assert_eq!(p, "one.txt"),
        _ => panic!("expected a missing wordlist"),
    }
}

#[test]
fn files_of_a_configuration() {
    let config = WordlistConfig::Multiple(vec![
        WordlistConfig::Builtin(BuiltinSize::Small),
        WordlistConfig::External("/tmp/words.txt".into()),
        WordlistConfig::Multiple(vec![WordlistConfig::Builtin(BuiltinSize::Large)]),
    ]);
    let files = wordlist_files(&config, &None);
    assert_eq!(files.len(), 3);
    assert_eq!(files[0].dir.as_deref(), Some("wordlists"));
    assert_eq!(files[0].name, "small.txt");
    assert_eq!(files[1].dir, None);
    assert_eq!(files[1].name, "/tmp/words.txt");
    assert_eq!(files[2].name, "large.txt");
    let files = wordlist_files(&WordlistConfig::Builtin(BuiltinSize::Medium), &Some("lists".into()));
    assert_eq!(files[0].dir.as_deref(), Some("lists"));
    assert_eq!(files[0].name, "medium.txt");
}
