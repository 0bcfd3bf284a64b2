//! Which results a scan keeps.
use crate::pattern::{pattern_compiles, pattern_finds, regex_compiles, regex_finds};
use crate::types::{Baseline, ScanConfig, ScanResult};
use vstd::prelude::*;

verus! {

/// What a filter pipeline decides by.
pub struct FilterSpec {
    pub whitelist: Seq<u16>,
    pub blacklist: Seq<u16>,
    pub length_filter: bool,
    pub baseline_length: Option<u64>,
    pub pattern: Option<Seq<char>>,
}

impl FilterSpec {
    /// The status passes the allow and deny lists: it is not denied, and it is
    /// allowed where an allow list is given.
    pub open spec fn status_passes(self, status: u16) -> bool {
        &&& !self.blacklist.contains(status)
        &&& (self.whitelist.len() == 0 || self.whitelist.contains(status))
    }

    /// The length is not that of the baseline's typical not-found page.
    pub open spec fn length_passes(self, content_length: u64) -> bool {
        !(self.length_filter && self.baseline_length == Some(content_length))
    }

    /// The response content matches the pattern, where there is one.
    pub open spec fn content_passes(self, content: Seq<char>) -> bool {
        match self.pattern {
            Some(p) => regex_finds(p, content),
            None => true,
        }
    }

    /// The filter keeps a result with this status, length and response content.
    pub open spec fn admits(self, status: u16, content_length: u64, content: Seq<char>) -> bool {
        &&& self.status_passes(status)
        &&& self.length_passes(content_length)
        &&& self.content_passes(content)
    }
}

/// The filter that a configuration and an optional baseline make.
pub open spec fn filter_for(config: ScanConfig, baseline: Option<Baseline>) -> FilterSpec {
    FilterSpec {
        whitelist: config.status_whitelist@,
        blacklist: config.status_blacklist@,
        length_filter: config.enable_length_filter,
        baseline_length: if config.enable_length_filter && baseline is Some {
            Some(baseline->0.typical_length)
        } else {
            None
        },
        pattern: match config.content_regex {
            Some(p) => if regex_compiles(p@) {
                Some(p@)
            } else {
                None
            },
            None => None,
        },
    }
}

/// Decides which scan results are reported.
pub struct FilterPipeline {
    status_whitelist: Vec<u16>,
    status_blacklist: Vec<u16>,
    enable_length_filter: bool,
    baseline_length: Option<u64>,
    content_regex: Option<String>,
}

impl View for FilterPipeline {
    type V = FilterSpec;

    closed spec fn view(&self) -> FilterSpec {
        FilterSpec {
            whitelist: self.status_whitelist@,
            blacklist: self.status_blacklist@,
            length_filter: self.enable_length_filter,
            baseline_length: self.baseline_length,
            pattern: match self.content_regex {
                Some(p) => Some(p@),
                None => None,
            },
        }
    }
}

/// Whether `s` holds `x`.
pub fn contains_u16(s: &Vec<u16>, x: u16) -> (b: bool)
    ensures
        b == s@.contains(x),
{
    let mut i: usize = 0;
    while i < s.len()
        invariant
            i <= s@.len(),
            forall|j: int| 0 <= j < i ==> s@[j] != x,
        decreases s@.len() - i,
    {
        if s[i] == x {
            assert(s@[i as int] == x);
            return true;
        }
        i = i + 1;
    }
    false
}

/// A copy of `s`.
pub fn copy_u16s(s: &Vec<u16>) -> (r: Vec<u16>)
    ensures
        r@ == s@,
{
    let mut r: Vec<u16> = Vec::new();
    let mut i: usize = 0;
    while i < s.len()
        invariant
            i <= s@.len(),
            r@ == s@.take(i as int),
        decreases s@.len() - i,
    {
        r.push(s[i]);
        assert(s@.take(i + 1) == s@.take(i as int).push(s@[i as int]));
        i = i + 1;
    }
    assert(s@.take(i as int) == s@);
    r
}

impl FilterPipeline {
    /// The filter for `config`, measured against `baseline` when there is one.
    /// A pattern that does not compile filters nothing.
    pub fn new(config: &ScanConfig, baseline: Option<&Baseline>) -> (f: FilterPipeline)
        ensures
            f@ == filter_for(
                *config,
                match baseline {
                    Some(b) => Some(*b),
                    None => None,
                },
            ),
    {
        let baseline_length = if config.enable_length_filter {
            match baseline {
                Some(b) => Some(b.typical_length),
                None => None,
            }
        } else {
            None
        };
        let content_regex = match &config.content_regex {
            Some(p) => if pattern_compiles(p.as_str()) {
                Some(p.clone())
            } else {
                None
            },
            None => None,
        };
        FilterPipeline {
            status_whitelist: copy_u16s(&config.status_whitelist),
            status_blacklist: copy_u16s(&config.status_blacklist),
            enable_length_filter: config.enable_length_filter,
            baseline_length,
            content_regex,
        }
    }

    /// The pattern of the filter, if it has one, compiles.
    #[verifier::type_invariant]
    closed spec fn wf(&self) -> bool {
        match self.content_regex {
            Some(p) => regex_compiles(p@),
            None => true,
        }
    }

    /// The result, if the filter keeps it. The pattern is matched against the
    /// content of the response, as far as the result keeps it.
    pub fn run(&self, result: ScanResult) -> (r: Option<ScanResult>)
        ensures
            r == if self@.admits(result.status, result.content_length, result.body@) {
                Some(result)
            } else {
                None
            },
    {
        proof {
            use_type_invariant(self);
        }
        if contains_u16(&self.status_blacklist, result.status) {
            return None;
        }
        if self.status_whitelist.len() != 0 && !contains_u16(&self.status_whitelist, result.status) {
            return None;
        }
        if self.enable_length_filter {
            if let Some(bl) = self.baseline_length {
                if result.content_length == bl {
                    return None;
                }
            }
        }
        if let Some(p) = &self.content_regex {
            if !pattern_finds(p.as_str(), result.body.as_str()) {
                return None;
            }
        }
        Some(result)
    }
}

/// A denied status is never admitted, even where it is allowed too.
pub proof fn lemma_denied_never_admitted(f: FilterSpec, status: u16, content_length: u64, content: Seq<char>)
    requires
        f.blacklist.contains(status),
    ensures
        !f.admits(status, content_length, content),
{
}

/// With the length filter off, the length of a result decides nothing.
pub proof fn lemma_length_filter_off(config: ScanConfig, baseline: Option<Baseline>, content_length: u64)
    requires
        !config.enable_length_filter,
    ensures
        filter_for(config, baseline).length_passes(content_length),
{
}

/// With the length filter on, a result as long as the baseline's typical
/// not-found page is never admitted.
pub proof fn lemma_baseline_length_dropped(config: ScanConfig, baseline: Baseline, status: u16, content: Seq<char>)
    requires
        config.enable_length_filter,
    ensures
        !filter_for(config, Some(baseline)).admits(status, baseline.typical_length, content),
{
}

/// Without a pattern, an allow list or a baseline, a result is admitted
/// exactly when its status is not denied.
pub proof fn lemma_only_denied_dropped(config: ScanConfig, status: u16, content_length: u64, content: Seq<char>)
    requires
        config.status_whitelist@.len() == 0,
        config.content_regex is None,
    ensures
        filter_for(config, None).admits(status, content_length, content) <==> !config.status_blacklist@.contains(status),
{
}

/// Only an allowed status passes: where the configuration gives an allow
/// list, a result whose status is not on it is never admitted, whatever its
/// length and content, and a denied status is never admitted either.
pub proof fn lemma_admitted_status_is_allowed(
    config: ScanConfig,
    baseline: Option<Baseline>,
    status: u16,
    content_length: u64,
    content: Seq<char>,
)
    ensures
        filter_for(config, baseline).admits(status, content_length, content) ==> {
            &&& !config.status_blacklist@.contains(status)
            &&& (config.status_whitelist@.len() == 0 || config.status_whitelist@.contains(status))
        },
        config.status_whitelist@.len() > 0 && !config.status_whitelist@.contains(status) ==> !filter_for(
            config,
            baseline,
        ).admits(status, content_length, content),
{
}

} // verus!
