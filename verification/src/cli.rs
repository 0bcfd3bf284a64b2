//! The command line: what its arguments configure, and how results and
//! reports are written for the terminal and for HTML.
use crate::headers::Headers;
use crate::text::{
    chars_of, lemma_split_nonempty, parse_u16, parse_u16_chars, split_on, str_eq, string_of, trim,
    trim_bounds,
};
use crate::types::{default_blacklist, default_whitelist, BuiltinSize, ScanConfig, WordlistConfig};
use vstd::prelude::*;

verus! {

/// The arguments of the command line, as parsed.
#[derive(Debug, Clone)]
pub struct CliArgs {
    pub url: String,
    pub wordlist: Option<String>,
    pub builtin: Option<String>,
    pub concurrency: usize,
    pub rate_limit: Option<u32>,
    pub timeout: u64,
    pub headers: Vec<String>,
    pub cookie: Option<String>,
    pub user_agent: Option<String>,
    pub proxy: Option<String>,
    pub status: Option<String>,
    pub exclude_status: Option<String>,
    pub insecure: bool,
    pub no_length_filter: bool,
    pub content_regex: Option<String>,
    pub recursive: bool,
    pub depth: usize,
    pub output: Option<String>,
    pub json: bool,
    pub html: bool,
    pub no_color: bool,
    pub no_baseline: bool,
    pub tui: bool,
}

/// The status codes of a comma-separated list: each piece trimmed and read
/// as a `u16`, pieces that are not one left out.
pub open spec fn status_codes_of(pieces: Seq<Seq<char>>) -> Seq<u16>
    decreases pieces.len(),
{
    if pieces.len() == 0 {
        Seq::empty()
    } else {
        let rest = status_codes_of(pieces.drop_last());
        match parse_u16(trim(pieces.last())) {
            Some(code) => rest.push(code),
            None => rest,
        }
    }
}

/// The status codes that the list `s` names.
pub open spec fn status_list(s: Seq<char>) -> Seq<u16> {
    status_codes_of(split_on(s, ','))
}

/// `i` is the position of the first `c` in `s`.
pub open spec fn first_at(s: Seq<char>, c: char, i: int) -> bool {
    0 <= i < s.len() && s[i] == c && forall|j: int| 0 <= j < i ==> s[j] != c
}

/// The header that an argument `Name: value` gives: the text before the
/// first colon and the text after it, both trimmed; none without a colon.
pub open spec fn header_arg(h: Seq<char>) -> Option<(Seq<char>, Seq<char>)> {
    if exists|i: int| first_at(h, ':', i) {
        let i = choose|i: int| first_at(h, ':', i);
        Some((trim(h.subrange(0, i)), trim(h.subrange(i + 1, h.len() as int))))
    } else {
        None
    }
}

/// The headers that the arguments `hs` give, a later one replacing an
/// earlier one with the same name.
pub open spec fn header_args(hs: Seq<Seq<char>>) -> Map<Seq<char>, Seq<char>>
    decreases hs.len(),
{
    if hs.len() == 0 {
        Map::empty()
    } else {
        let rest = header_args(hs.drop_last());
        match header_arg(hs.last()) {
            Some((k, v)) => rest.insert(k, v),
            None => rest,
        }
    }
}

/// The built-in wordlist that `--builtin` names; any other name means medium.
pub open spec fn builtin_named(name: Seq<char>) -> BuiltinSize {
    if name == "small"@ {
        BuiltinSize::Small
    } else if name == "large"@ {
        BuiltinSize::Large
    } else {
        BuiltinSize::Medium
    }
}

/// Where the words come from: the wordlist file given, else the built-in list
/// named, else the medium built-in list.
pub open spec fn wordlist_arg(wordlist: Option<String>, builtin: Option<String>) -> WordlistConfig {
    match wordlist {
        Some(p) => WordlistConfig::External(p),
        None => match builtin {
            Some(b) => WordlistConfig::Builtin(builtin_named(b@)),
            None => WordlistConfig::Builtin(BuiltinSize::Medium),
        },
    }
}

/// The views of the strings `s`.
pub open spec fn string_views(s: Seq<String>) -> Seq<Seq<char>> {
    s.map_values(|x: String| x@)
}

/// The status codes that the comma-separated list `s` names, in order.
pub fn parse_status_list(s: &str) -> (codes: Vec<u16>)
    ensures
        codes@ == status_list(s@),
{
    let v = chars_of(s);
    let mut codes: Vec<u16> = Vec::new();
    let mut start: usize = 0;
    let mut i: usize = 0;
    while i < v.len()
        invariant
            start <= i <= v@.len(),
            v@ == s@,
            split_on(v@.take(i as int), ',').len() >= 1,
            split_on(v@.take(i as int), ',').last() == v@.subrange(start as int, i as int),
            codes@ == status_codes_of(split_on(v@.take(i as int), ',').drop_last()),
        decreases v@.len() - i,
    {
        let ghost prev = split_on(v@.take(i as int), ',');
        assert(v@.take(i + 1).drop_last() == v@.take(i as int));
        proof {
            lemma_split_nonempty(v@.take(i + 1), ',');
        }
        if v[i] == ',' {
            let (a, b) = trim_bounds(&v, start, i);
            if let Some(code) = parse_u16_chars(&v, a, b) {
                codes.push(code);
            }
            assert(split_on(v@.take(i + 1), ',').drop_last() == prev);
            assert(prev.drop_last().push(prev.last()) =~= prev);
            start = i + 1;
        } else {
            assert(v@.subrange(start as int, i + 1) == v@.subrange(start as int, i as int).push(v@[i as int]));
            let ghost next = split_on(v@.take(i + 1), ',');
            assert(next.drop_last() =~= prev.drop_last());
        }
        i = i + 1;
    }
    let ghost pieces = split_on(v@, ',');
    assert(v@.take(i as int) == v@);
    let (a, b) = trim_bounds(&v, start, i);
    if let Some(code) = parse_u16_chars(&v, a, b) {
        codes.push(code);
    }
    assert(pieces.drop_last().push(pieces.last()) =~= pieces);
    codes
}

/// The position of the first `c` in `v`, if there is one.
fn find_char(v: &Vec<char>, c: char) -> (r: Option<usize>)
    ensures
        match r {
            Some(i) => first_at(v@, c, i as int),
            None => forall|j: int| 0 <= j < v@.len() ==> v@[j] != c,
        },
{
    let mut i: usize = 0;
    while i < v.len()
        invariant
            i <= v@.len(),
            forall|j: int| 0 <= j < i ==> v@[j] != c,
        decreases v@.len() - i,
    {
        if v[i] == c {
            return Some(i);
        }
        i = i + 1;
    }
    None
}

/// The header that the argument `h` (`Name: value`) gives, if it has a colon.
pub fn parse_header_arg(h: &str) -> (r: Option<(String, String)>)
    ensures
        match r {
            Some((k, v)) => header_arg(h@) == Some((k@, v@)),
            None => header_arg(h@) is None,
        },
{
    let v = chars_of(h);
    match find_char(&v, ':') {
        Some(i) => {
            proof {
                assert(first_at(h@, ':', i as int));
                let j = choose|j: int| first_at(h@, ':', j);
                assert(j == i) by {
                    if j < i {
                        assert(h@[j] != ':');
                    } else if j > i {
                        assert(h@[i as int] != ':');
                    }
                }
            }
            let (a, b) = trim_bounds(&v, 0, i);
            let (c, d) = trim_bounds(&v, i + 1, v.len());
            Some((string_of(&v, a, b), string_of(&v, c, d)))
        },
        None => {
            assert(!exists|i: int| first_at(h@, ':', i));
            None
        },
    }
}

/// The built-in wordlist that `name` names.
pub fn builtin_size_of(name: &str) -> (b: BuiltinSize)
    ensures
        b == builtin_named(name@),
{
    proof {
        reveal_strlit("small");
        reveal_strlit("large");
        reveal_strlit("medium");
    }
    if str_eq(name, "small") {
        BuiltinSize::Small
    } else if str_eq(name, "medium") {
        assert("medium"@[0] == 'm');
        assert("large"@[0] == 'l');
        assert(name@ != "large"@);
        BuiltinSize::Medium
    } else if str_eq(name, "large") {
        BuiltinSize::Large
    } else {
        BuiltinSize::Medium
    }
}

impl ScanConfig {
    /// The configuration that the command line `args` asks for.
    pub fn from_args(args: CliArgs) -> (c: ScanConfig)
        ensures
            c.target_url == args.url,
            c.concurrency == args.concurrency,
            c.rate_limit == args.rate_limit,
            c.timeout_secs == args.timeout,
            c.custom_headers@ == header_args(string_views(args.headers@)),
            c.cookie == args.cookie,
            c.user_agent == args.user_agent,
            c.proxy == args.proxy,
            c.status_whitelist@ == match args.status {
                Some(s) => status_list(s@),
                None => default_whitelist(),
            },
            c.status_blacklist@ == match args.exclude_status {
                Some(s) => status_list(s@),
                None => default_blacklist(),
            },
            c.insecure == args.insecure,
            c.enable_length_filter == !args.no_length_filter,
            c.content_regex == args.content_regex,
            c.recursive == args.recursive,
            c.max_depth == args.depth,
            c.no_baseline == args.no_baseline,
            c.wordlist == wordlist_arg(args.wordlist, args.builtin),
    {
        let mut headers = Headers::new();
        let mut i: usize = 0;
        while i < args.headers.len()
            invariant
                i <= args.headers@.len(),
                headers@ == header_args(string_views(args.headers@.take(i as int))),
            decreases args.headers@.len() - i,
        {
            assert(string_views(args.headers@.take(i + 1)).drop_last() == string_views(
                args.headers@.take(i as int),
            ));
            if let Some((k, v)) = parse_header_arg(args.headers[i].as_str()) {
                headers.insert(k, v);
            }
            i = i + 1;
        }
        assert(args.headers@.take(i as int) == args.headers@);
        let mut config = ScanConfig::new(args.url);
        config.concurrency = args.concurrency;
        config.rate_limit = args.rate_limit;
        config.timeout_secs = args.timeout;
        config.cookie = args.cookie;
        config.user_agent = args.user_agent;
        config.proxy = args.proxy;
        config.recursive = args.recursive;
        config.max_depth = args.depth;
        config.no_baseline = args.no_baseline;
        config.insecure = args.insecure;
        config.enable_length_filter = !args.no_length_filter;
        config.content_regex = args.content_regex;
        config.custom_headers = headers;
        if let Some(status) = &args.status {
            config.status_whitelist = parse_status_list(status.as_str());
        }
        if let Some(exclude) = &args.exclude_status {
            config.status_blacklist = parse_status_list(exclude.as_str());
        }
        config.wordlist = match args.wordlist {
            Some(path) => WordlistConfig::External(path),
            None => match &args.builtin {
                Some(size) => WordlistConfig::Builtin(builtin_size_of(size.as_str())),
                None => WordlistConfig::Builtin(BuiltinSize::Medium),
            },
        };
        config
    }
}

/// Each documented list name selects its own list, and any other name the
/// medium one: `small` and only it gives the small list, `large` and only it
/// the large list.
pub proof fn lemma_builtin_names(name: Seq<char>)
    ensures
        builtin_named(name) == BuiltinSize::Small <==> name == "small"@,
        builtin_named(name) == BuiltinSize::Large <==> name == "large"@,
        builtin_named(name) == BuiltinSize::Medium <==> (name != "small"@ && name != "large"@),
        builtin_named("medium"@) == BuiltinSize::Medium,
{
    reveal_strlit("small");
    reveal_strlit("large");
    reveal_strlit("medium");
    assert("small"@ != "large"@) by {
        assert("small"@[0] != "large"@[0]);
    }
    assert("medium"@ != "small"@) by {
        assert("medium"@[0] != "small"@[0]);
    }
    assert("medium"@ != "large"@) by {
        assert("medium"@[0] != "large"@[0]);
    }
}

} // verus!
