//! Marks results that look like directories.
use crate::plugin::Plugin;
use crate::text::chars_of;
use crate::types::{RequestContext, RequestView, ResponseContext, ResponseView, ResultView, ScanResult};
use vstd::prelude::*;

verus! {

/// The result redirects to a location that ends with `/`.
pub open spec fn redirects_to_dir(r: ResultView) -> bool {
    (r.status == 301 || r.status == 302) && match r.redirect_location {
        Some(l) => l.len() > 0 && l.last() == '/',
        None => false,
    }
}

/// A result is a directory when it answered 200, or redirected to a
/// location ending with `/`; a result already marked stays marked.
pub open spec fn recursion_effect(r: ResultView) -> ResultView {
    if r.status == 200 || redirects_to_dir(r) {
        ResultView { is_directory: true, ..r }
    } else {
        r
    }
}

/// Marks the results that look like directories, for a recursive scan.
pub struct RecursionPlugin;

/// Whether `s` ends with `c`.
pub fn ends_with_char(s: &str, c: char) -> (b: bool)
    ensures
        b == (s@.len() > 0 && s@.last() == c),
{
    let v = chars_of(s);
    v.len() > 0 && v[v.len() - 1] == c
}

impl Plugin for RecursionPlugin {
    open spec fn plugin_name(&self) -> Seq<char> {
        "recursion"@
    }

    open spec fn plugin_version(&self) -> Seq<char> {
        "0.1.0"@
    }

    open spec fn request_effect(&self, req: RequestView) -> RequestView {
        req
    }

    open spec fn response_effect(&self, resp: ResponseView) -> ResponseView {
        resp
    }

    open spec fn result_effect(&self, result: ResultView) -> ResultView {
        recursion_effect(result)
    }

    fn name(&self) -> (r: &str) {
        "recursion"
    }

    fn version(&self) -> (r: &str) {
        "0.1.0"
    }

    fn on_request(&self, req: RequestContext) -> (r: RequestContext) {
        req
    }

    fn on_response(&self, resp: ResponseContext) -> (r: ResponseContext) {
        resp
    }

    fn on_result(&self, result: &mut ScanResult) {
        let redirects = (result.status == 301 || result.status == 302) && match &result.redirect_location {
            Some(loc) => ends_with_char(loc.as_str(), '/'),
            None => false,
        };
        if result.status == 200 || redirects {
            result.is_directory = true;
        }
    }
}

/// Marking directories twice marks nothing more than marking them once.
pub proof fn lemma_recursion_idempotent(r: ResultView)
    ensures
        recursion_effect(recursion_effect(r)) == recursion_effect(r),
{
}

/// A result that answered 200 is always marked as a directory.
pub proof fn lemma_ok_is_directory(r: ResultView)
    requires
        r.status == 200,
    ensures
        recursion_effect(r).is_directory,
{
}

/// A result comes out marked as a directory exactly when it was marked
/// already, answered 200, or was a 301 or 302 redirect to a location ending
/// with `/`; nothing else about it changes.
pub proof fn lemma_directory_marking(r: ResultView)
    ensures
        recursion_effect(r).is_directory <==> (r.is_directory || r.status == 200 || ((r.status == 301
            || r.status == 302) && r.redirect_location is Some && r.redirect_location->0.len() > 0
            && r.redirect_location->0.last() == '/')),
        recursion_effect(r) == (ResultView { is_directory: recursion_effect(r).is_directory, ..r }),
{
}

} // verus!
