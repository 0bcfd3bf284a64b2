//! The values that a scan reads and produces.
use crate::headers::Headers;
use std::time::Duration;
use vstd::prelude::*;

verus! {

/// The duration of `ms` milliseconds (`Duration::from_millis`).
pub uninterp spec fn millis_duration(ms: u64) -> Duration;

/// The duration of `ms` milliseconds, for a `u32` count.
pub open spec fn millis_duration_u32(ms: u32) -> Duration {
    millis_duration(ms as u64)
}

/// A duration of `ms` milliseconds.
pub fn duration_from_millis_u32(ms: u32) -> (d: Duration)
    ensures
        d == millis_duration(ms as u64),
{
    duration_from_millis(ms as u64)
}

/// Calls `Duration::from_millis`; the contract claims that the duration is a
/// function of `ms` alone.
#[verifier::external_body]
pub(crate) fn duration_from_millis(ms: u64) -> (d: Duration)
    ensures
        d == millis_duration(ms),
{
    Duration::from_millis(ms)
}

/// One answered request, as the scan reports it, with the response body.
#[derive(Debug)]
pub struct ScanResult {
    pub url: String,
    pub path: String,
    pub status: u16,
    pub content_length: u64,
    pub content_type: Option<String>,
    pub response_time: Duration,
    pub redirect_location: Option<String>,
    pub is_directory: bool,
    pub content_hash: String,
    pub headers: Headers,
    pub body: String,
}

/// The view of an optional string.
pub open spec fn opt_view(s: Option<String>) -> Option<Seq<char>> {
    match s {
        Some(v) => Some(v@),
        None => None,
    }
}

/// A scan result as plain values.
pub struct ResultView {
    pub url: Seq<char>,
    pub path: Seq<char>,
    pub status: u16,
    pub content_length: u64,
    pub content_type: Option<Seq<char>>,
    pub response_time: Duration,
    pub redirect_location: Option<Seq<char>>,
    pub is_directory: bool,
    pub content_hash: Seq<char>,
    pub headers: Map<Seq<char>, Seq<char>>,
    pub body: Seq<char>,
}

impl View for ScanResult {
    type V = ResultView;

    open spec fn view(&self) -> ResultView {
        ResultView {
            url: self.url@,
            path: self.path@,
            status: self.status,
            content_length: self.content_length,
            content_type: opt_view(self.content_type),
            response_time: self.response_time,
            redirect_location: opt_view(self.redirect_location),
            is_directory: self.is_directory,
            content_hash: self.content_hash@,
            headers: self.headers@,
            body: self.body@,
        }
    }
}

/// A copy of an optional string.
pub fn clone_opt_string(s: &Option<String>) -> (r: Option<String>)
    ensures
        r == *s,
{
    match s {
        Some(v) => Some(v.clone()),
        None => None,
    }
}

impl Clone for ScanResult {
    fn clone(&self) -> (r: ScanResult)
        ensures
            r@ == self@,
            r.headers.pairs() == self.headers.pairs(),
    {
        ScanResult {
            url: self.url.clone(),
            path: self.path.clone(),
            status: self.status,
            content_length: self.content_length,
            content_type: clone_opt_string(&self.content_type),
            response_time: self.response_time,
            redirect_location: clone_opt_string(&self.redirect_location),
            is_directory: self.is_directory,
            content_hash: self.content_hash.clone(),
            headers: self.headers.clone(),
            body: self.body.clone(),
        }
    }
}

/// A request as plain values.
pub struct RequestView {
    pub url: Seq<char>,
    pub method: Seq<char>,
    pub headers: Map<Seq<char>, Seq<char>>,
    pub follow_redirects: bool,
}

impl View for RequestContext {
    type V = RequestView;

    open spec fn view(&self) -> RequestView {
        RequestView {
            url: self.url@,
            method: self.method@,
            headers: self.headers@,
            follow_redirects: self.follow_redirects,
        }
    }
}

/// A response as plain values.
pub struct ResponseView {
    pub url: Seq<char>,
    pub status: u16,
    pub headers: Map<Seq<char>, Seq<char>>,
    pub content_length: u64,
    pub body_snippet: Seq<char>,
    pub body: Seq<char>,
}

impl View for ResponseContext {
    type V = ResponseView;

    open spec fn view(&self) -> ResponseView {
        ResponseView {
            url: self.url@,
            status: self.status,
            headers: self.headers@,
            content_length: self.content_length,
            body_snippet: self.body_snippet@,
            body: self.body@,
        }
    }
}

/// A request about to be sent. The method is held by its name.
#[derive(Debug, Clone)]
pub struct RequestContext {
    pub url: String,
    pub method: String,
    pub headers: Headers,
    pub follow_redirects: bool,
}

impl Default for RequestContext {
    fn default() -> (r: RequestContext)
        ensures
            r.url@ == Seq::<char>::empty(),
            r.method@ == seq!['G', 'E', 'T'],
            r.headers@ == Map::<Seq<char>, Seq<char>>::empty(),
            !r.follow_redirects,
    {
        let mut method = String::new();
        crate::text::push_char(&mut method, 'G');
        crate::text::push_char(&mut method, 'E');
        crate::text::push_char(&mut method, 'T');
        RequestContext {
            url: String::new(),
            method,
            headers: Headers::new(),
            follow_redirects: false,
        }
    }
}

/// A response as the scanner sees it.
#[derive(Debug, Clone)]
pub struct ResponseContext {
    pub url: String,
    pub status: u16,
    pub headers: Headers,
    pub content_length: u64,
    pub body_snippet: String,
    pub body: String,
}

/// What the target answers for paths that do not exist.
#[derive(Debug, Clone)]
pub struct Baseline {
    pub typical_status: u16,
    pub typical_length: u64,
    pub typical_hash: String,
    pub samples: Vec<(u16, u64)>,
}

/// How a scan is to be run.
#[derive(Debug, Clone)]
pub struct ScanConfig {
    pub target_url: String,
    pub concurrency: usize,
    pub rate_limit: Option<u32>,
    pub timeout_secs: u64,
    pub custom_headers: Headers,
    pub cookie: Option<String>,
    pub user_agent: Option<String>,
    pub proxy: Option<String>,
    pub status_whitelist: Vec<u16>,
    pub status_blacklist: Vec<u16>,
    pub insecure: bool,
    pub enable_length_filter: bool,
    pub content_regex: Option<String>,
    pub recursive: bool,
    pub max_depth: usize,
    pub no_baseline: bool,
    pub wordlist: WordlistConfig,
}

/// Where the words to try come from.
#[derive(Debug)]
pub enum WordlistConfig {
    Builtin(BuiltinSize),
    External(String),
    Multiple(Vec<WordlistConfig>),
}

/// A single file of words: one of the lists that ship with the scanner, or a
/// file named by its path.
pub enum WordlistLeaf {
    Builtin(BuiltinSize),
    External(Seq<char>),
}

/// The files that `c` names, in the order they are read.
pub open spec fn config_leaves(c: WordlistConfig) -> Seq<WordlistLeaf>
    decreases c,
{
    match c {
        WordlistConfig::Builtin(size) => seq![WordlistLeaf::Builtin(size)],
        WordlistConfig::External(path) => seq![WordlistLeaf::External(path@)],
        WordlistConfig::Multiple(parts) => {
            proof {
                assert(decreases_to!(parts => parts@));
            }
            list_leaves(parts@)
        },
    }
}

/// The files that the configurations `s` name, one after another.
pub open spec fn list_leaves(s: Seq<WordlistConfig>) -> Seq<WordlistLeaf>
    decreases s,
{
    if s.len() == 0 {
        Seq::empty()
    } else {
        list_leaves(s.drop_last()) + config_leaves(s.last())
    }
}

/// A copy of `c`.
pub fn copy_wordlist_config(c: &WordlistConfig) -> (r: WordlistConfig)
    ensures
        config_leaves(r) == config_leaves(*c),
    decreases c,
{
    match c {
        WordlistConfig::Builtin(size) => match size {
            BuiltinSize::Small => WordlistConfig::Builtin(BuiltinSize::Small),
            BuiltinSize::Medium => WordlistConfig::Builtin(BuiltinSize::Medium),
            BuiltinSize::Large => WordlistConfig::Builtin(BuiltinSize::Large),
        },
        WordlistConfig::External(path) => WordlistConfig::External(path.clone()),
        WordlistConfig::Multiple(parts) => {
            let mut copies: Vec<WordlistConfig> = Vec::new();
            let mut i: usize = 0;
            while i < parts.len()
                invariant
                    i <= parts@.len(),
                    *c == WordlistConfig::Multiple(*parts),
                    copies@.len() == i,
                    list_leaves(copies@) == list_leaves(parts@.take(i as int)),
                decreases parts@.len() - i,
            {
                assert(decreases_to!(*c => (*c)->Multiple_0));
                assert(decreases_to!(*parts => parts[i as int]));
                assert(decreases_to!(*c => parts[i as int]));
                let part = copy_wordlist_config(&parts[i]);
                let ghost before = copies@;
                copies.push(part);
                assert(copies@.drop_last() == before);
                assert(parts@.take(i + 1).drop_last() == parts@.take(i as int));
                i = i + 1;
            }
            assert(parts@.take(i as int) == parts@);
            WordlistConfig::Multiple(copies)
        },
    }
}

impl Clone for WordlistConfig {
    fn clone(&self) -> (r: WordlistConfig)
        ensures
            config_leaves(r) == config_leaves(*self),
    {
        copy_wordlist_config(self)
    }
}

/// The sizes of the wordlists that ship with the scanner.
#[derive(Debug, Clone, Copy, PartialEq, Eq, Structural)]
pub enum BuiltinSize {
    Small,
    Medium,
    Large,
}

/// The outcome of a whole scan. Its duration is held in nanoseconds.
#[derive(Debug, Clone)]
pub struct ScanReport {
    pub target: String,
    pub duration_nanos: u64,
    pub total_requests: usize,
    pub results: Vec<ScanResult>,
    pub errors: usize,
    pub baseline: Option<Baseline>,
}

/// Where a scan stands.
#[derive(Debug, Clone, Copy, PartialEq, Eq, Structural)]
pub enum ScanStatus {
    Running,
    Paused,
    Completed,
    Cancelled,
}

/// The statuses that a new configuration reports.
pub open spec fn default_whitelist() -> Seq<u16> {
    seq![200u16, 201, 204, 301, 302, 307, 401, 403, 405, 500]
}

/// The statuses that a new configuration drops.
pub open spec fn default_blacklist() -> Seq<u16> {
    seq![400u16, 404, 408, 410, 429, 502, 503, 504, 500]
}

/// A vector holding `s`.
fn vec_of(s: &[u16]) -> (v: Vec<u16>)
    ensures
        v@ == s@,
{
    let mut v: Vec<u16> = Vec::new();
    let mut i: usize = 0;
    while i < s.len()
        invariant
            i <= s@.len(),
            v@ == s@.take(i as int),
        decreases s@.len() - i,
    {
        v.push(s[i]);
        assert(s@.take(i + 1) == s@.take(i as int).push(s@[i as int]));
        i = i + 1;
    }
    assert(s@.take(i as int) == s@);
    v
}

impl ScanConfig {
    /// The configuration used for `target_url` unless told otherwise.
    pub fn new(target_url: String) -> (c: ScanConfig)
        ensures
            c.target_url == target_url,
            c.concurrency == 32,
            c.rate_limit is None,
            c.timeout_secs == 10,
            c.custom_headers@ == Map::<Seq<char>, Seq<char>>::empty(),
            c.cookie is None,
            c.user_agent is None,
            c.proxy is None,
            c.status_whitelist@ == default_whitelist(),
            c.status_blacklist@ == default_blacklist(),
            !c.insecure,
            c.enable_length_filter,
            c.content_regex is None,
            !c.recursive,
            c.max_depth == 1,
            !c.no_baseline,
            c.wordlist == WordlistConfig::Builtin(BuiltinSize::Medium),
    {
        let white: [u16; 10] = [200, 201, 204, 301, 302, 307, 401, 403, 405, 500];
        let black: [u16; 9] = [400, 404, 408, 410, 429, 502, 503, 504, 500];
        let status_whitelist = vec_of(&white);
        let status_blacklist = vec_of(&black);
        assert(status_whitelist@ == default_whitelist());
        assert(status_blacklist@ == default_blacklist());
        ScanConfig {
            target_url,
            concurrency: 32,
            rate_limit: None,
            timeout_secs: 10,
            custom_headers: Headers::new(),
            cookie: None,
            user_agent: None,
            proxy: None,
            status_whitelist,
            status_blacklist,
            insecure: false,
            enable_length_filter: true,
            content_regex: None,
            recursive: false,
            max_depth: 1,
            no_baseline: false,
            wordlist: WordlistConfig::Builtin(BuiltinSize::Medium),
        }
    }
}

} // verus!
