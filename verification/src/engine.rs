//! The decisions of a scan: which URL each word is requested at, what a
//! response becomes, what is announced as it arrives, and which results the
//! report keeps. Sending the requests is left to the caller.
use crate::digest::{hex_lower, le_bytes_u16, le_bytes_u64, push_le_u16, push_le_u64, sha256, sha256_hex};
use crate::filter::{contains_u16, FilterPipeline, FilterSpec};
use crate::headers::Headers;
use crate::plugin::{chain_result, PluginChain};
use crate::plugins::fingerprint::{fingerprint_effect, FingerprintPlugin};
use crate::plugins::BuiltinPlugin;
use crate::plugins::recursion::{recursion_effect, RecursionPlugin};
use crate::text::{push_str, strip_leading, strip_leading_str, strip_trailing, strip_trailing_str};
use crate::types::{
    Baseline, RequestContext,
    ResponseContext, ResultView, ScanConfig, ScanReport, ScanResult, ScanStatus,
};
use std::time::Duration;
use vstd::hash_set::StringHashSet;
use vstd::prelude::*;
use vstd::string::StrSliceExecFns;

verus! {

/// What a scan announces while it runs.
#[derive(Debug)]
pub enum ScanEvent {
    Progress { completed: usize, total: usize },
    Result(ScanResult),
    Status(ScanStatus),
    Error(String),
}

/// An announcement as plain values.
pub enum EventView {
    Progress { completed: usize, total: usize },
    Result(ResultView),
    Status(ScanStatus),
    Error(Seq<char>),
}

impl View for ScanEvent {
    type V = EventView;

    open spec fn view(&self) -> EventView {
        match self {
            ScanEvent::Progress { completed, total } => EventView::Progress {
                completed: *completed,
                total: *total,
            },
            ScanEvent::Result(r) => EventView::Result(r@),
            ScanEvent::Status(s) => EventView::Status(*s),
            ScanEvent::Error(e) => EventView::Error(e@),
        }
    }
}

/// The views of the events `s`.
pub open spec fn event_views(s: Seq<ScanEvent>) -> Seq<EventView> {
    s.map_values(|e: ScanEvent| e@)
}

/// The URL requested for `entry`: the target without trailing slashes, a
/// slash, then the entry without leading slashes.
pub open spec fn entry_url(target: Seq<char>, entry: Seq<char>) -> Seq<char> {
    strip_trailing(target, '/') + "/"@ + strip_leading(entry, '/')
}

/// The fingerprint of a response: the SHA-256 digest, in hexadecimal, of the
/// URL's UTF-8 bytes, the status as two little-endian bytes and the length as
/// eight.
pub open spec fn result_hash(url: Seq<char>, status: u16, content_length: u64) -> Seq<char> {
    hex_lower(sha256(vstd::utf8::encode_utf8(url) + le_bytes_u16(status) + le_bytes_u64(content_length)))
}

/// A status is announced when it is allowed (or no allow list is given) and
/// not denied.
pub open spec fn announced(whitelist: Seq<u16>, blacklist: Seq<u16>, status: u16) -> bool {
    (whitelist.len() == 0 || whitelist.contains(status)) && !blacklist.contains(status)
}

/// What the plugins of a scan make of a result: first directories are
/// marked, then the server is noted.
pub open spec fn scan_effect(r: ResultView) -> ResultView {
    fingerprint_effect(recursion_effect(r))
}

/// The content hashes of `s`.
pub open spec fn hashes(s: Seq<ResultView>) -> Seq<Seq<char>> {
    s.map_values(|r: ResultView| r.content_hash)
}

/// No two of `s` have the same content hash.
pub open spec fn distinct_hashes(s: Seq<ResultView>) -> bool {
    forall|i: int, j: int| 0 <= i < j < s.len() ==> #[trigger] s[i].content_hash != #[trigger] s[j].content_hash
}

/// Runs a scan. The requests themselves are sent by the caller; this type
/// holds what the scan decides on the way.
pub struct ScanEngine;

impl ScanEngine {
    /// The URL and path requested for `entry` on the target `target_url`.
    pub fn request_target(target_url: &str, entry: &str) -> (r: (String, String))
        ensures
            r.0@ == entry_url(target_url@, entry@),
            r.1@ == strip_leading(entry@, '/'),
    {
        let mut url = strip_trailing_str(target_url, '/');
        let path = strip_leading_str(entry, '/');
        push_str(&mut url, "/");
        push_str(&mut url, path.as_str());
        (url, path)
    }

    /// A GET request for `url` with `headers`, redirects not followed.
    pub fn get_request(url: String, headers: &Headers) -> (r: RequestContext)
        ensures
            r.url == url,
            r.method@ == "GET"@,
            r.headers@ == headers@,
            !r.follow_redirects,
    {
        let mut method = String::new();
        push_str(&mut method, "GET");
        RequestContext { url, method, headers: headers.clone(), follow_redirects: false }
    }

    /// Whether a response with `status` is announced as a result.
    pub fn status_announced(whitelist: &Vec<u16>, blacklist: &Vec<u16>, status: u16) -> (b: bool)
        ensures
            b == announced(whitelist@, blacklist@, status),
    {
        (whitelist.len() == 0 || contains_u16(whitelist, status)) && !contains_u16(blacklist, status)
    }

    /// The fingerprint of the response with `status` and `content_length` to `url`.
    pub fn content_hash(url: &str, status: u16, content_length: u64) -> (h: String)
        ensures
            h@ == result_hash(url@, status, content_length),
            h@.len() == 64,
    {
        let mut bytes = url.as_bytes_vec();
        push_le_u16(&mut bytes, status);
        push_le_u64(&mut bytes, content_length);
        sha256_hex(&bytes)
    }

    /// The result that `resp`, the answer for `url` and `path` that took
    /// `response_time`, makes: its content type and redirect are the
    /// `content-type` and `location` headers, and it keeps the whole body.
    pub fn result_from_response(url: String, path: String, resp: ResponseContext, response_time: Duration) -> (r: ScanResult)
        ensures
            r@ == (ResultView {
                url: url@,
                path: path@,
                status: resp.status,
                content_length: resp.content_length,
                content_type: if resp.headers@.contains_key("content-type"@) {
                    Some(resp.headers@["content-type"@])
                } else {
                    None
                },
                response_time: response_time,
                redirect_location: if resp.headers@.contains_key("location"@) {
                    Some(resp.headers@["location"@])
                } else {
                    None
                },
                is_directory: false,
                content_hash: result_hash(url@, resp.status, resp.content_length),
                headers: resp.headers@,
                body: resp.body@,
            }),
    {
        let hash = Self::content_hash(url.as_str(), resp.status, resp.content_length);
        let content_type = match resp.headers.get("content-type") {
            Some(v) => Some(v.clone()),
            None => None,
        };
        let redirect_location = match resp.headers.get("location") {
            Some(v) => Some(v.clone()),
            None => None,
        };
        ScanResult {
            url,
            path,
            status: resp.status,
            content_length: resp.content_length,
            content_type,
            response_time,
            redirect_location,
            is_directory: false,
            content_hash: hash,
            headers: resp.headers,
            body: resp.body,
        }
    }

    /// What is announced when the response for the word at `index` (of
    /// `total`) arrives: the result, where it is announced, then the progress.
    pub fn response_events(index: usize, total: usize, announce: bool, result: &ScanResult) -> (e: Vec<ScanEvent>)
        requires
            index < usize::MAX,
        ensures
            event_views(e@) == if announce {
                seq![EventView::Result(result@), EventView::Progress { completed: (index + 1) as usize, total }]
            } else {
                seq![EventView::Progress { completed: (index + 1) as usize, total }]
            },
    {
        let mut e: Vec<ScanEvent> = Vec::new();
        if announce {
            e.push(ScanEvent::Result(result.clone()));
        }
        e.push(ScanEvent::Progress { completed: index + 1, total });
        assert(event_views(e@) =~= if announce {
            seq![EventView::Result(result@), EventView::Progress { completed: (index + 1) as usize, total }]
        } else {
            seq![EventView::Progress { completed: (index + 1) as usize, total }]
        });
        e
    }

    /// What is announced when the request for the word at `index` (of
    /// `total`) fails with `message`: the progress, then the error.
    pub fn error_events(index: usize, total: usize, message: String) -> (e: Vec<ScanEvent>)
        requires
            index < usize::MAX,
        ensures
            event_views(e@) == seq![
                EventView::Progress { completed: (index + 1) as usize, total },
                EventView::Error(message@),
            ],
    {
        let mut e: Vec<ScanEvent> = Vec::new();
        e.push(ScanEvent::Progress { completed: index + 1, total });
        e.push(ScanEvent::Error(message));
        assert(event_views(e@) =~= seq![
            EventView::Progress { completed: (index + 1) as usize, total },
            EventView::Error(message@),
        ]);
        e
    }
}

/// Gathers the results of a scan as they come back: runs the plugins on
/// each, keeps those the filter admits, and drops any whose content hash was
/// seen before.
pub struct ScanCollector {
    filter: FilterPipeline,
    plugins: PluginChain<BuiltinPlugin>,
    seen: StringHashSet,
    results: Vec<ScanResult>,
    errors: usize,
    outcomes: usize,
}

/// The views of the results `s`.
pub open spec fn result_views(s: Seq<ScanResult>) -> Seq<ResultView> {
    s.map_values(|r: ScanResult| r@)
}

impl ScanCollector {
    /// The filter results are held to.
    pub closed spec fn filter(&self) -> FilterSpec {
        self.filter@
    }

    /// The results kept so far, in the order they came back.
    pub closed spec fn results(&self) -> Seq<ResultView> {
        result_views(self.results@)
    }

    /// The number of requests that failed so far.
    pub closed spec fn errors(&self) -> usize {
        self.errors
    }

    /// The number of requests whose outcome came back so far, answered or failed.
    pub closed spec fn outcomes(&self) -> usize {
        self.outcomes
    }

    /// The collector is consistent: its plugins are those of a scan, every
    /// result it keeps was admitted by its filter, no two have the same
    /// content hash, and the hashes it has seen are those of its results.
    pub closed spec fn wf(&self) -> bool {
        &&& forall|r: ResultView| #[trigger] chain_result(self.plugins.plugins(), r) == scan_effect(r)
        &&& forall|i: int|
            0 <= i < self.results@.len() ==> self.filter@.admits(
                #[trigger] self.results@[i].status,
                self.results@[i].content_length,
                self.results@[i].body@,
            )
        &&& distinct_hashes(result_views(self.results@))
        &&& self.results@.len() + self.errors <= self.outcomes
        &&& forall|x: Seq<char>| self.seen@.contains(x) <==> hashes(result_views(self.results@)).contains(x)
    }

    /// A collector for a scan under `config`, measured against `baseline`,
    /// with the recursion and fingerprint plugins, in that order.
    pub fn new(config: &ScanConfig, baseline: Option<&Baseline>) -> (c: ScanCollector)
        ensures
            c.wf(),
            c.filter() == crate::filter::filter_for(
                *config,
                match baseline {
                    Some(b) => Some(*b),
                    None => None,
                },
            ),
            c.results() == Seq::<ResultView>::empty(),
            c.errors() == 0,
            c.outcomes() == 0,
    {
        let filter = FilterPipeline::new(config, baseline);
        let mut plugins = PluginChain::new();
        let recursion = BuiltinPlugin::Recursion(RecursionPlugin);
        let fingerprint = BuiltinPlugin::Fingerprint(FingerprintPlugin);
        let ghost p1 = recursion;
        let ghost p2 = fingerprint;
        plugins.register(recursion);
        plugins.register(fingerprint);
        let c = ScanCollector { filter, plugins, seen: StringHashSet::new(), results: Vec::new(), errors: 0, outcomes: 0 };
        assert forall|r: ResultView| #[trigger] chain_result(c.plugins.plugins(), r) == scan_effect(r) by {
            let ps = c.plugins.plugins();
            assert(ps =~= seq![p1, p2]);
            assert(ps.drop_last() =~= seq![p1]);
            assert(ps.drop_last().drop_last() =~= Seq::<BuiltinPlugin>::empty());
            assert(chain_result(ps.drop_last().drop_last(), r) == r);
            assert(chain_result(ps.drop_last(), r) == recursion_effect(r));
            assert(chain_result(ps, r) == fingerprint_effect(recursion_effect(r)));
        }
        assert(result_views(c.results@) =~= Seq::<ResultView>::empty());
        c
    }

    /// Takes in the result of one answered request: the plugins run on it,
    /// and it is kept if the filter admits it and its content hash is new.
    pub fn accept(&mut self, result: ScanResult)
        requires
            old(self).wf(),
            old(self).outcomes() < usize::MAX,
        ensures
            final(self).wf(),
            final(self).filter() == old(self).filter(),
            final(self).errors() == old(self).errors(),
            final(self).outcomes() == old(self).outcomes() + 1,
            ({
                let v = scan_effect(result@);
                final(self).results() == if old(self).filter().admits(v.status, v.content_length, v.body)
                    && !hashes(old(self).results()).contains(v.content_hash) {
                    old(self).results().push(v)
                } else {
                    old(self).results()
                }
            }),
    {
        self.outcomes = self.outcomes + 1;
        let mut r = result;
        self.plugins.run_on_result(&mut r);
        let ghost v = r@;
        assert(v == scan_effect(result@));
        match self.filter.run(r) {
            Some(kept) => {
                let ghost before = result_views(self.results@);
                if self.seen.insert(kept.content_hash.clone()) {
                    self.results.push(kept);
                    proof {
                        let after = result_views(self.results@);
                        assert(after == before.push(v));
                        assert(hashes(after) == hashes(before).push(v.content_hash));
                        assert forall|i: int, j: int| 0 <= i < j < after.len() implies #[trigger] after[i].content_hash
                            != #[trigger] after[j].content_hash by {
                            if j == after.len() - 1 {
                                assert(hashes(before)[i] == after[i].content_hash);
                            } else {
                                assert(before[i] == after[i] && before[j] == after[j]);
                            }
                        }
                        assert forall|x: Seq<char>| self.seen@.contains(x) <==> hashes(after).contains(x) by {
                            if hashes(before).contains(x) {
                                let k = choose|k: int| 0 <= k < hashes(before).len() && hashes(before)[k] == x;
                                assert(hashes(after)[k] == x);
                            }
                            if hashes(after).contains(x) && x != v.content_hash {
                                let k = choose|k: int| 0 <= k < hashes(after).len() && hashes(after)[k] == x;
                                assert(hashes(before)[k] == x);
                            }
                            if x == v.content_hash {
                                assert(hashes(after)[hashes(after).len() - 1] == x);
                            }
                        }
                        assert forall|i: int| 0 <= i < self.results@.len() implies self.filter@.admits(
                            #[trigger] self.results@[i].status,
                            self.results@[i].content_length,
                            self.results@[i].body@,
                        ) by {
                            if i < self.results@.len() - 1 {
                                assert(self.results@[i] == old(self).results@[i]);
                            }
                        }
                    }
                }
            },
            None => {},
        }
    }

    /// Counts one failed request.
    pub fn record_error(&mut self)
        requires
            old(self).wf(),
            old(self).outcomes() < usize::MAX,
        ensures
            final(self).wf(),
            final(self).filter() == old(self).filter(),
            final(self).results() == old(self).results(),
            final(self).errors() == old(self).errors() + 1,
            final(self).outcomes() == old(self).outcomes() + 1,
    {
        self.errors = self.errors + 1;
        self.outcomes = self.outcomes + 1;
    }

    /// Takes in the outcome of one request, in the order the requests were
    /// made: an answer goes to `accept`, a failure is counted as an error.
    pub fn take_outcome(&mut self, outcome: Option<ScanResult>)
        requires
            old(self).wf(),
            old(self).outcomes() < usize::MAX,
        ensures
            final(self).wf(),
            final(self).filter() == old(self).filter(),
            final(self).outcomes() == old(self).outcomes() + 1,
            match outcome {
                Some(result) => {
                    let v = scan_effect(result@);
                    &&& final(self).errors() == old(self).errors()
                    &&& final(self).results() == if old(self).filter().admits(v.status, v.content_length, v.body)
                        && !hashes(old(self).results()).contains(v.content_hash) {
                        old(self).results().push(v)
                    } else {
                        old(self).results()
                    }
                },
                None => {
                    &&& final(self).errors() == old(self).errors() + 1
                    &&& final(self).results() == old(self).results()
                },
            },
    {
        match outcome {
            Some(result) => self.accept(result),
            None => self.record_error(),
        }
    }

    /// The number of outcomes taken in so far.
    pub fn outcome_count(&self) -> (n: usize)
        ensures
            n == self.outcomes(),
    {
        self.outcomes
    }

    /// The number of requests that failed so far.
    pub fn error_count(&self) -> (n: usize)
        ensures
            n == self.errors(),
    {
        self.errors
    }

    /// The report of the scan of `target`, which took `duration_nanos`; the
    /// requests it counts are those whose outcome was taken in, and the
    /// results and errors together are never more than they.
    pub fn finish(self, target: String, duration_nanos: u64, baseline: Option<Baseline>) -> (r: ScanReport)
        requires
            self.wf(),
        ensures
            r.target == target,
            r.duration_nanos == duration_nanos,
            r.total_requests == self.outcomes(),
            r.results@.len() + r.errors <= r.total_requests,
            result_views(r.results@) == self.results(),
            distinct_hashes(result_views(r.results@)),
            forall|i: int|
                0 <= i < r.results@.len() ==> self.filter().admits(
                    #[trigger] r.results@[i].status,
                    r.results@[i].content_length,
                    r.results@[i].body@,
                ),
            r.errors == self.errors(),
            r.baseline == baseline,
    {
        ScanReport {
            target,
            duration_nanos,
            total_requests: self.outcomes,
            results: self.results,
            errors: self.errors,
            baseline,
        }
    }
}

/// The URL of a word joins the target and the word with exactly one slash:
/// the target part does not end with a slash, and the word part does not
/// start with one.
pub proof fn lemma_entry_url_one_slash(target: Seq<char>, entry: Seq<char>)
    ensures
        entry_url(target, entry) == strip_trailing(target, '/') + "/"@ + strip_leading(entry, '/'),
        strip_trailing(target, '/').len() > 0 ==> strip_trailing(target, '/').last() != '/',
        strip_leading(entry, '/').len() > 0 ==> strip_leading(entry, '/')[0] != '/',
{
    crate::text::lemma_strip_trailing_clean(target, '/');
    crate::text::lemma_strip_leading_clean(entry, '/');
}

/// A status on the deny list is never announced, whatever the allow list says.
pub proof fn lemma_denied_not_announced(whitelist: Seq<u16>, blacklist: Seq<u16>, status: u16)
    requires
        blacklist.contains(status),
    ensures
        !announced(whitelist, blacklist, status),
{
}

/// Whether the next request may go out while the scan has `status`.
#[derive(Debug, Clone, Copy, PartialEq, Eq, Structural)]
pub enum Gate {
    /// Send it.
    Send,
    /// Hold it until the scan is resumed.
    Wait,
    /// Send no more requests.
    Stop,
}

/// A running scan sends, a paused one waits, a finished or cancelled one stops.
pub open spec fn gate_for(status: ScanStatus) -> Gate {
    match status {
        ScanStatus::Running => Gate::Send,
        ScanStatus::Paused => Gate::Wait,
        _ => Gate::Stop,
    }
}

/// The headers that every request of a scan carries: the custom headers, and
/// the cookie as a `Cookie` header unless the custom headers already set one.
pub open spec fn request_headers_spec(config: ScanConfig) -> Map<Seq<char>, Seq<char>> {
    match config.cookie {
        Some(c) => if config.custom_headers@.contains_key("Cookie"@) {
            config.custom_headers@
        } else {
            config.custom_headers@.insert("Cookie"@, c@)
        },
        None => config.custom_headers@,
    }
}

/// The URLs of the results `rs` that were marked as directories, in order.
pub open spec fn directory_urls(rs: Seq<ResultView>) -> Seq<Seq<char>>
    decreases rs.len(),
{
    if rs.len() == 0 {
        Seq::empty()
    } else {
        let rest = directory_urls(rs.drop_last());
        if rs.last().is_directory {
            rest.push(rs.last().url)
        } else {
            rest
        }
    }
}

/// The targets a recursive scan goes on to from results found at `depth`:
/// the directories among them, while `depth` is below the maximum.
pub open spec fn recursion_targets_spec(rs: Seq<ResultView>, recursive: bool, depth: nat, max_depth: nat) -> Seq<Seq<char>> {
    if recursive && depth < max_depth {
        directory_urls(rs)
    } else {
        Seq::empty()
    }
}

/// The time between two requests under a cap of `rate` requests a second.
pub open spec fn interval_spec(rate: Option<u32>) -> Option<u64> {
    match rate {
        Some(r) => if r > 0 {
            Some((1_000_000_000int / (r as int)) as u64)
        } else {
            None
        },
        None => None,
    }
}

impl ScanEngine {
    /// Whether the next request may go out while the scan has `status`.
    pub fn gate(status: ScanStatus) -> (g: Gate)
        ensures
            g == gate_for(status),
    {
        match status {
            ScanStatus::Running => Gate::Send,
            ScanStatus::Paused => Gate::Wait,
            _ => Gate::Stop,
        }
    }

    /// The headers that every request of a scan under `config` carries.
    pub fn request_headers(config: &ScanConfig) -> (h: Headers)
        ensures
            h@ == request_headers_spec(*config),
    {
        let mut h = config.custom_headers.clone();
        if let Some(c) = &config.cookie {
            if !h.contains_key("Cookie") {
                let mut name = String::new();
                push_str(&mut name, "Cookie");
                h.insert(name, c.clone());
            }
        }
        h
    }

    /// The targets that a recursive scan goes on to from `results`, found at `depth`.
    pub fn recursion_targets(results: &[ScanResult], recursive: bool, depth: usize, max_depth: usize) -> (t: Vec<String>)
        ensures
            t@.map_values(|s: String| s@) == recursion_targets_spec(
                results@.map_values(|r: ScanResult| r@),
                recursive,
                depth as nat,
                max_depth as nat,
            ),
    {
        let ghost rs = results@.map_values(|r: ScanResult| r@);
        let mut t: Vec<String> = Vec::new();
        if !(recursive && depth < max_depth) {
            assert(t@.map_values(|s: String| s@) =~= Seq::<Seq<char>>::empty());
            return t;
        }
        let mut i: usize = 0;
        while i < results.len()
            invariant
                i <= results@.len(),
                rs == results@.map_values(|r: ScanResult| r@),
                t@.map_values(|s: String| s@) == directory_urls(rs.take(i as int)),
            decreases results@.len() - i,
        {
            assert(rs.take(i + 1).drop_last() == rs.take(i as int));
            if results[i].is_directory {
                let ghost before = t@;
                t.push(results[i].url.clone());
                assert(t@.map_values(|s: String| s@) == before.map_values(|s: String| s@).push(results@[i as int].url@));
            }
            i = i + 1;
        }
        assert(rs.take(i as int) == rs);
        t
    }

    /// The time, in nanoseconds, to leave between two requests under the cap
    /// `rate_limit` (requests a second); none without a cap.
    pub fn request_interval_nanos(rate_limit: Option<u32>) -> (d: Option<u64>)
        ensures
            d == interval_spec(rate_limit),
    {
        match rate_limit {
            Some(r) => if r > 0 {
                Some(1_000_000_000 / (r as u64))
            } else {
                None
            },
            None => None,
        }
    }
}

/// A paused scan sends no request, and only a running one sends.
pub proof fn lemma_paused_sends_nothing(status: ScanStatus)
    ensures
        status == ScanStatus::Paused ==> gate_for(status) == Gate::Wait,
        gate_for(status) == Gate::Send <==> status == ScanStatus::Running,
{
}

/// A status is announced only where it is allowed: with an allow list, only
/// the statuses on it, and never a denied one.
pub proof fn lemma_announced_only_allowed(whitelist: Seq<u16>, blacklist: Seq<u16>, status: u16)
    ensures
        announced(whitelist, blacklist, status) ==> !blacklist.contains(status),
        whitelist.len() > 0 && !whitelist.contains(status) ==> !announced(whitelist, blacklist, status),
        whitelist.len() == 0 && !blacklist.contains(status) ==> announced(whitelist, blacklist, status),
{
}

/// Under a cap of `rate` requests a second, the gap between two requests is
/// the largest whole number of nanoseconds that keeps `rate` of them within a
/// second; without a cap, or with a cap of 0, there is no gap.
pub proof fn lemma_interval_fits_rate(rate: Option<u32>)
    ensures
        forall|r: u32|
            r > 0 && rate == Some(r) ==> #[trigger] interval_spec(Some(r)) is Some && interval_spec(Some(r))->0 * r
                <= 1_000_000_000 && (interval_spec(Some(r))->0 + 1) * r > 1_000_000_000,
        rate is None || rate == Some(0u32) ==> interval_spec(rate) is None,
{
    if let Some(r) = rate {
        if r > 0 {
            let d = 1_000_000_000int / (r as int);
            assert(d * r <= 1_000_000_000 && (d + 1) * r > 1_000_000_000) by (nonlinear_arith)
                requires
                    r > 0,
                    d == 1_000_000_000int / (r as int),
            ;
        }
    }
}

/// The requests of a scan carry every custom header unchanged, and the cookie
/// under `Cookie` unless a custom header already sets it; they carry nothing else.
pub proof fn lemma_request_headers_carry_cookie(config: ScanConfig)
    ensures
        forall|k: Seq<char>| #[trigger] config.custom_headers@.contains_key(k) ==> request_headers_spec(config).contains_key(k)
            && request_headers_spec(config)[k] == config.custom_headers@[k],
        config.cookie is Some && !config.custom_headers@.contains_key("Cookie"@) ==> request_headers_spec(
            config,
        ).contains_key("Cookie"@) && request_headers_spec(config)["Cookie"@] == config.cookie->0@,
        forall|k: Seq<char>| #[trigger] request_headers_spec(config).contains_key(k) ==> config.custom_headers@.contains_key(k)
            || k == "Cookie"@,
        config.cookie is None ==> request_headers_spec(config) == config.custom_headers@,
{
}

/// The scan recurses into the URLs of exactly the results marked as
/// directories, in their order, and only while recursion is on and the depth
/// is below the limit.
pub proof fn lemma_recursion_targets_are_directories(rs: Seq<ResultView>, recursive: bool, depth: nat, max_depth: nat)
    ensures
        !(recursive && depth < max_depth) ==> recursion_targets_spec(rs, recursive, depth, max_depth).len() == 0,
        recursive && depth < max_depth ==> recursion_targets_spec(rs, recursive, depth, max_depth) == rs.filter(
            |r: ResultView| r.is_directory,
        ).map_values(|r: ResultView| r.url),
    decreases rs.len(),
{
    reveal(Seq::filter);
    if rs.len() > 0 && recursive && depth < max_depth {
        lemma_recursion_targets_are_directories(rs.drop_last(), recursive, depth, max_depth);
        let f = rs.drop_last().filter(|r: ResultView| r.is_directory);
        if rs.last().is_directory {
            assert(f.push(rs.last()).map_values(|r: ResultView| r.url) =~= f.map_values(|r: ResultView| r.url).push(
                rs.last().url,
            ));
        }
    }
}

} // verus!
