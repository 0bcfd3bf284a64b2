//! Calibration: what the target answers for paths that cannot exist, so that
//! such "soft 404" pages can be told apart from real findings.
use crate::digest::{hex_lower, le_bytes_u64, push_le_u64, sha256, sha256_hex};
use crate::text::{push_str, strip_trailing, strip_trailing_str};
use crate::engine::{request_headers_spec, ScanEngine};
use crate::error::{copy_error, PathScanError};
use crate::types::{Baseline, RequestContext, ScanConfig};
use vstd::prelude::*;

verus! {

/// The suffixes of the paths probed during calibration.
pub open spec fn probe_suffixes() -> Seq<Seq<char>> {
    seq![
        "8a3f2b1c"@,
        "d7e4f9a0"@,
        "2c6b8f1e"@,
        "5f1a3d9b"@,
        "e8c2b47f"@,
    ]
}

/// The URL probed with `suffix`: the target without trailing slashes, then
/// `/nonexistent_` and the suffix.
pub open spec fn probe_url(target: Seq<char>, suffix: Seq<char>) -> Seq<char> {
    strip_trailing(target, '/') + "/nonexistent_"@ + suffix
}

/// How often `x` occurs in `s`.
pub open spec fn count_of(s: Seq<(u16, u64)>, x: (u16, u64)) -> nat
    decreases s.len(),
{
    if s.len() == 0 {
        0
    } else {
        count_of(s.drop_last(), x) + if s.last() == x {
            1nat
        } else {
            0nat
        }
    }
}

/// The index, among the first `n` samples, of the last one that occurs most
/// often in all of `s` (what `Iterator::max_by_key` picks).
pub open spec fn most_frequent_index(s: Seq<(u16, u64)>, n: nat) -> int
    decreases n,
{
    if n <= 1 {
        0
    } else {
        let best = most_frequent_index(s, (n - 1) as nat);
        if count_of(s, s[n - 1]) >= count_of(s, s[best]) {
            n - 1
        } else {
            best
        }
    }
}

/// The typical sample: the one that occurs most often, the last such on a
/// tie, or `(404, 0)` when there are none.
pub open spec fn typical_sample(s: Seq<(u16, u64)>) -> (u16, u64) {
    if s.len() == 0 {
        (404, 0)
    } else {
        s[most_frequent_index(s, s.len())]
    }
}

/// The baseline that the samples `s` make.
pub open spec fn baseline_spec(s: Seq<(u16, u64)>) -> (u16, u64, Seq<char>) {
    let t = typical_sample(s);
    (t.0, t.1, hex_lower(sha256(le_bytes_u64(t.1))))
}

/// Calibrates a scan against what its target answers for paths that do not exist.
pub struct BaselineCalibrator;

/// How often `x` occurs in `s`.
fn count_in(s: &Vec<(u16, u64)>, x: (u16, u64)) -> (c: usize)
    ensures
        c == count_of(s@, x),
{
    let mut c: usize = 0;
    let mut i: usize = 0;
    while i < s.len()
        invariant
            i <= s@.len(),
            c == count_of(s@.take(i as int), x),
            c <= i,
        decreases s@.len() - i,
    {
        assert(s@.take(i + 1).drop_last() == s@.take(i as int));
        if s[i].0 == x.0 && s[i].1 == x.1 {
            c = c + 1;
        }
        i = i + 1;
    }
    assert(s@.take(i as int) == s@);
    c
}

impl BaselineCalibrator {
    /// The URLs to probe for `target_url`, in order.
    pub fn probe_urls(target_url: &str) -> (urls: Vec<String>)
        ensures
            urls@.len() == probe_suffixes().len(),
            forall|i: int|
                0 <= i < urls@.len() ==> #[trigger] urls@[i]@ == probe_url(
                    target_url@,
                    probe_suffixes()[i],
                ),
    {
        let base = strip_trailing_str(target_url, '/');
        let suffixes: [&str; 5] = ["8a3f2b1c", "d7e4f9a0", "2c6b8f1e", "5f1a3d9b", "e8c2b47f"];
        proof {
            reveal_strlit("8a3f2b1c");
            reveal_strlit("d7e4f9a0");
            reveal_strlit("2c6b8f1e");
            reveal_strlit("5f1a3d9b");
            reveal_strlit("e8c2b47f");
        }
        assert(suffixes@ =~= seq!["8a3f2b1c", "d7e4f9a0", "2c6b8f1e", "5f1a3d9b", "e8c2b47f"]);
        let mut urls: Vec<String> = Vec::new();
        let mut i: usize = 0;
        while i < 5
            invariant
                i <= 5,
                base@ == strip_trailing(target_url@, '/'),
                suffixes@ =~= seq!["8a3f2b1c", "d7e4f9a0", "2c6b8f1e", "5f1a3d9b", "e8c2b47f"],
                urls@.len() == i,
                forall|k: int|
                    0 <= k < i ==> #[trigger] urls@[k]@ == probe_url(
                        target_url@,
                        probe_suffixes()[k],
                    ),
            decreases 5 - i,
        {
            let mut url = base.clone();
            push_str(&mut url, "/nonexistent_");
            push_str(&mut url, suffixes[i]);
            assert(suffixes@[i as int]@ == probe_suffixes()[i as int]);
            urls.push(url);
            i = i + 1;
        }
        urls
    }

    /// The typical sample of `samples`: the most frequent one, the last such
    /// on a tie, or `(404, 0)` when there are none.
    pub fn typical_sample(samples: &Vec<(u16, u64)>) -> (t: (u16, u64))
        ensures
            t == typical_sample(samples@),
    {
        if samples.len() == 0 {
            return (404, 0);
        }
        let mut best: usize = 0;
        let mut best_count = count_in(samples, samples[0]);
        let mut i: usize = 1;
        while i < samples.len()
            invariant
                1 <= i <= samples@.len(),
                best == most_frequent_index(samples@, i as nat),
                best < i,
                best_count == count_of(samples@, samples@[best as int]),
            decreases samples@.len() - i,
        {
            let c = count_in(samples, samples[i]);
            if c >= best_count {
                best = i;
                best_count = c;
            }
            i = i + 1;
        }
        samples[best]
    }

    /// The baseline that the probe answers `samples` (status, length) make:
    /// the typical sample and the SHA-256 digest, in hexadecimal, of its
    /// length as eight little-endian bytes.
    pub fn from_samples(samples: Vec<(u16, u64)>) -> (b: Baseline)
        ensures
            b.typical_status == baseline_spec(samples@).0,
            b.typical_length == baseline_spec(samples@).1,
            b.typical_hash@ == baseline_spec(samples@).2,
            b.typical_hash@.len() == 64,
            b.samples@ == samples@,
    {
        let typical = Self::typical_sample(&samples);
        let mut bytes: Vec<u8> = Vec::new();
        push_le_u64(&mut bytes, typical.1);
        assert(bytes@ == le_bytes_u64(typical.1));
        let hash = sha256_hex(&bytes);
        Baseline {
            typical_status: typical.0,
            typical_length: typical.1,
            typical_hash: hash,
            samples,
        }
    }
}

/// The index chosen among the first `n` samples is one of them, occurs at
/// least as often as each of them, and no later one among them ties it.
pub proof fn lemma_most_frequent_index(s: Seq<(u16, u64)>, n: nat)
    requires
        1 <= n <= s.len(),
    ensures
        0 <= most_frequent_index(s, n) < n,
        forall|j: int| 0 <= j < n ==> count_of(s, #[trigger] s[j]) <= count_of(s, s[most_frequent_index(s, n)]),
        forall|j: int|
            most_frequent_index(s, n) < j < n ==> count_of(s, #[trigger] s[j]) < count_of(
                s,
                s[most_frequent_index(s, n)],
            ),
    decreases n,
{
    if n > 1 {
        lemma_most_frequent_index(s, (n - 1) as nat);
    }
}

/// The typical sample is one of the samples, none occurs more often, and
/// of those that occur as often it is the last; without samples it is `(404, 0)`.
pub proof fn lemma_typical_is_most_frequent(s: Seq<(u16, u64)>)
    ensures
        s.len() == 0 ==> typical_sample(s) == (404u16, 0u64),
        s.len() > 0 ==> s.contains(typical_sample(s)),
        forall|j: int| 0 <= j < s.len() ==> count_of(s, #[trigger] s[j]) <= count_of(s, typical_sample(s)),
        s.len() > 0 ==> exists|k: int|
            0 <= k < s.len() && s[k] == typical_sample(s) && forall|j: int|
                k < j < s.len() ==> count_of(s, #[trigger] s[j]) < count_of(s, typical_sample(s)),
{
    if s.len() > 0 {
        lemma_most_frequent_index(s, s.len());
        let k = most_frequent_index(s, s.len());
        assert(s[k] == typical_sample(s));
    }
}

/// The answer of one probe: its status and length, or the error it failed with.
pub type ProbeAnswer = Result<(u16, u64), PathScanError>;

/// The index of the first probe of `answers` that failed, if one did.
pub open spec fn first_failed(answers: Seq<ProbeAnswer>) -> Option<int>
    decreases answers.len(),
{
    if answers.len() == 0 {
        None
    } else {
        match first_failed(answers.drop_last()) {
            Some(i) => Some(i),
            None => if answers.last() is Err {
                Some(answers.len() - 1)
            } else {
                None
            },
        }
    }
}

/// Every probe of `answers` was answered.
pub open spec fn all_answered(answers: Seq<ProbeAnswer>) -> bool {
    forall|i: int| 0 <= i < answers.len() ==> #[trigger] answers[i] is Ok
}

/// The samples that the answers `answers` give.
pub open spec fn answered_samples(answers: Seq<ProbeAnswer>) -> Seq<(u16, u64)> {
    answers.map_values(|a: ProbeAnswer| a->Ok_0)
}

/// No probe failed exactly when every probe was answered.
pub proof fn lemma_no_failure_all_answered(answers: Seq<ProbeAnswer>)
    ensures
        first_failed(answers) is None <==> all_answered(answers),
    decreases answers.len(),
{
    if answers.len() > 0 {
        lemma_no_failure_all_answered(answers.drop_last());
        if all_answered(answers) {
            assert(all_answered(answers.drop_last()));
            assert(answers[answers.len() - 1] is Ok);
        }
        if first_failed(answers) is None {
            assert forall|i: int| 0 <= i < answers.len() implies #[trigger] answers[i] is Ok by {
                if i < answers.len() - 1 {
                    assert(answers.drop_last()[i] is Ok);
                }
            }
        }
    }
}

/// Where a prefix of the answers has no failure and ends at a failed probe,
/// that probe is the first failure of all of them.
proof fn lemma_first_failed_prefix(answers: Seq<ProbeAnswer>, n: int)
    requires
        0 < n <= answers.len(),
        first_failed(answers.take(n - 1)) is None,
        answers[n - 1] is Err,
    ensures
        first_failed(answers) == Some(n - 1),
    decreases answers.len(),
{
    if answers.len() == n {
        assert(answers.take(n - 1) == answers.drop_last());
    } else {
        assert(answers.drop_last().take(n - 1) == answers.take(n - 1));
        lemma_first_failed_prefix(answers.drop_last(), n);
    }
}

/// `b` is the baseline that the samples `s` make, as `from_samples` builds it.
pub open spec fn is_baseline_of(b: Baseline, s: Seq<(u16, u64)>) -> bool {
    &&& b.typical_status == baseline_spec(s).0
    &&& b.typical_length == baseline_spec(s).1
    &&& b.typical_hash@ == baseline_spec(s).2
    &&& b.typical_hash@.len() == 64
    &&& b.samples@ == s
}

impl BaselineCalibrator {
    /// The probe requests of a scan under `config`, in order: none when the
    /// scan skips calibration, else a GET for each probe URL, with the scan's
    /// request headers.
    pub fn calibration_requests(config: &ScanConfig) -> (reqs: Vec<RequestContext>)
        ensures
            config.no_baseline ==> reqs@.len() == 0,
            !config.no_baseline ==> reqs@.len() == probe_suffixes().len(),
            forall|i: int|
                0 <= i < reqs@.len() ==> {
                    &&& #[trigger] reqs@[i].url@ == probe_url(config.target_url@, probe_suffixes()[i])
                    &&& reqs@[i].method@ == "GET"@
                    &&& reqs@[i].headers@ == request_headers_spec(*config)
                    &&& !reqs@[i].follow_redirects
                },
    {
        let mut reqs: Vec<RequestContext> = Vec::new();
        if config.no_baseline {
            return reqs;
        }
        let headers = ScanEngine::request_headers(config);
        let mut urls = Self::probe_urls(config.target_url.as_str());
        let mut i: usize = 0;
        while i < urls.len()
            invariant
                i <= urls@.len(),
                urls@.len() == probe_suffixes().len(),
                headers@ == request_headers_spec(*config),
                forall|k: int| 0 <= k < urls@.len() ==> #[trigger] urls@[k]@ == probe_url(config.target_url@, probe_suffixes()[k]),
                reqs@.len() == i,
                forall|k: int|
                    0 <= k < i ==> {
                        &&& #[trigger] reqs@[k].url@ == probe_url(config.target_url@, probe_suffixes()[k])
                        &&& reqs@[k].method@ == "GET"@
                        &&& reqs@[k].headers@ == request_headers_spec(*config)
                        &&& !reqs@[k].follow_redirects
                    },
            decreases urls@.len() - i,
        {
            let url = urls[i].clone();
            reqs.push(ScanEngine::get_request(url, &headers));
            i = i + 1;
        }
        reqs
    }

    /// Whether calibration goes on after `answers` out of `total` probes: while
    /// probes are left and every probe so far was answered.
    pub fn keep_calibrating(answers: &Vec<ProbeAnswer>, total: usize) -> (b: bool)
        ensures
            b == (answers@.len() < total && all_answered(answers@)),
    {
        if answers.len() >= total {
            return false;
        }
        let mut i: usize = 0;
        while i < answers.len()
            invariant
                i <= answers@.len(),
                forall|k: int| 0 <= k < i ==> #[trigger] answers@[k] is Ok,
            decreases answers@.len() - i,
        {
            if answers[i].is_err() {
                return false;
            }
            i = i + 1;
        }
        true
    }

    /// The outcome of calibration from the probe answers `answers`, in the
    /// order the probes were sent: the error of the first probe that failed,
    /// else the baseline of the samples.
    pub fn calibration_result(answers: Vec<ProbeAnswer>) -> (r: Result<Baseline, PathScanError>)
        ensures
            match first_failed(answers@) {
                Some(i) => r == Err::<Baseline, PathScanError>(answers@[i]->Err_0),
                None => r is Ok && is_baseline_of(r->Ok_0, answered_samples(answers@)),
            },
    {
        let mut samples: Vec<(u16, u64)> = Vec::new();
        let mut i: usize = 0;
        while i < answers.len()
            invariant
                i <= answers@.len(),
                first_failed(answers@.take(i as int)) is None,
                samples@ == answered_samples(answers@.take(i as int)),
            decreases answers@.len() - i,
        {
            assert(answers@.take(i + 1).drop_last() == answers@.take(i as int));
            match &answers[i] {
                Ok(s) => {
                    samples.push(*s);
                    assert(answered_samples(answers@.take(i + 1)) =~= answered_samples(answers@.take(i as int)).push(*s));
                },
                Err(e) => {
                    proof {
                        lemma_first_failed_prefix(answers@, i as int + 1);
                    }
                    return Err(copy_error(e));
                },
            }
            i = i + 1;
        }
        assert(answers@.take(i as int) == answers@);
        Ok(Self::from_samples(samples))
    }

    /// The baseline that a scan under `config` measures against, from the
    /// probe answers `answers`: none when the scan skips calibration or
    /// calibration failed, else the baseline of the samples.
    pub fn baseline_from_answers(config: &ScanConfig, answers: Vec<ProbeAnswer>) -> (b: Option<Baseline>)
        ensures
            config.no_baseline || first_failed(answers@) is Some ==> b is None,
            !config.no_baseline && first_failed(answers@) is None ==> b is Some && is_baseline_of(
                b->0,
                answered_samples(answers@),
            ),
    {
        if config.no_baseline {
            return None;
        }
        match Self::calibration_result(answers) {
            Ok(b) => Some(b),
            Err(_) => None,
        }
    }
}

} // verus!
