//! What the scanner makes of the HTTP exchanges that it leaves to its client.
use crate::headers::Headers;
use crate::text::{chars_of, push_str, string_of};
use crate::types::{ResponseContext, ScanConfig};
use vstd::prelude::*;

verus! {

/// The most characters of a body that a response keeps.
pub const SNIPPET_CHARS: usize = 200;

/// The first characters of a body, at most `SNIPPET_CHARS` of them.
pub open spec fn snippet_of(body: Seq<char>) -> Seq<char> {
    if body.len() <= SNIPPET_CHARS {
        body
    } else {
        body.take(SNIPPET_CHARS as int)
    }
}

/// The map that inserting the pairs `s` in order into empty headers gives.
pub open spec fn inserted(s: Seq<(String, String)>) -> Map<Seq<char>, Seq<char>>
    decreases s.len(),
{
    if s.len() == 0 {
        Map::empty()
    } else {
        inserted(s.drop_last()).insert(s.last().0@, s.last().1@)
    }
}

/// The user agent that requests carry: the configured one, or `PathScan/0.1.0`.
pub open spec fn user_agent_spec(config: ScanConfig) -> Seq<char> {
    match config.user_agent {
        Some(a) => a@,
        None => "PathScan/0.1.0"@,
    }
}

/// The user agent that requests carry.
pub fn user_agent_for(config: &ScanConfig) -> (a: String)
    ensures
        a@ == user_agent_spec(*config),
{
    match &config.user_agent {
        Some(a) => a.clone(),
        None => {
            let mut s = String::new();
            push_str(&mut s, "PathScan/0.1.0");
            s
        },
    }
}

/// Headers holding the pairs `pairs`, a later pair replacing an earlier one
/// with the same name.
pub fn headers_from_pairs(pairs: Vec<(String, String)>) -> (h: Headers)
    ensures
        h@ == inserted(pairs@),
{
    let mut h = Headers::new();
    let mut i: usize = 0;
    while i < pairs.len()
        invariant
            i <= pairs@.len(),
            h@ == inserted(pairs@.take(i as int)),
        decreases pairs@.len() - i,
    {
        assert(pairs@.take(i + 1).drop_last() == pairs@.take(i as int));
        let name = pairs[i].0.clone();
        let value = pairs[i].1.clone();
        h.insert(name, value);
        i = i + 1;
    }
    assert(pairs@.take(i as int) == pairs@);
    h
}

/// The response to the request for `url`, from its status, its headers (in
/// the order received, those whose value is not text left out) and its body:
/// its length is the body's length in bytes, its snippet the body's first
/// `SNIPPET_CHARS` characters, and the whole body is kept as well.
pub fn response_from_parts(url: String, status: u16, header_pairs: Vec<(String, String)>, body: &str) -> (r: ResponseContext)
    ensures
        r.url == url,
        r.status == status,
        r@.headers == inserted(header_pairs@),
        r.content_length == body.len(),
        r.body_snippet@ == snippet_of(body@),
        r.body@ == body@,
{
    let len = body.len();
    let v = chars_of(body);
    let end = if v.len() <= SNIPPET_CHARS {
        v.len()
    } else {
        SNIPPET_CHARS
    };
    let snippet = string_of(&v, 0, end);
    assert(v@.subrange(0, v@.len() as int) == v@);
    let mut whole = String::new();
    push_str(&mut whole, body);
    ResponseContext {
        url,
        status,
        headers: headers_from_pairs(header_pairs),
        content_length: len as u64,
        body_snippet: snippet,
        body: whole,
    }
}

} // verus!
