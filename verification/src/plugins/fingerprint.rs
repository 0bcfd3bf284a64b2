//! Notes the server software, where the target names it, beside the content type.
use crate::plugin::Plugin;
use crate::text::push_str;
use crate::types::{RequestContext, RequestView, ResponseContext, ResponseView, ResultView, ScanResult};
use vstd::prelude::*;

verus! {

/// The content type with the server noted: `<type> (server: <server>)`, the
/// type being `unknown` where there is none.
pub open spec fn noted_content_type(content_type: Option<Seq<char>>, server: Seq<char>) -> Seq<char> {
    let current = match content_type {
        Some(t) => t,
        None => "unknown"@,
    };
    current + " (server: "@ + server + ")"@
}

/// Where the result has a `server` header, its content type notes the server.
pub open spec fn fingerprint_effect(r: ResultView) -> ResultView {
    if r.headers.contains_key("server"@) {
        ResultView {
            content_type: Some(noted_content_type(r.content_type, r.headers["server"@])),
            ..r
        }
    } else {
        r
    }
}

/// Notes the `server` header of each result in its content type.
pub struct FingerprintPlugin;

impl Plugin for FingerprintPlugin {
    open spec fn plugin_name(&self) -> Seq<char> {
        "fingerprint"@
    }

    open spec fn plugin_version(&self) -> Seq<char> {
        "0.1.0"@
    }

    open spec fn request_effect(&self, req: RequestView) -> RequestView {
        req
    }

    open spec fn response_effect(&self, resp: ResponseView) -> ResponseView {
        resp
    }

    open spec fn result_effect(&self, result: ResultView) -> ResultView {
        fingerprint_effect(result)
    }

    fn name(&self) -> (r: &str) {
        "fingerprint"
    }

    fn version(&self) -> (r: &str) {
        "0.1.0"
    }

    fn on_request(&self, req: RequestContext) -> (r: RequestContext) {
        req
    }

    fn on_response(&self, resp: ResponseContext) -> (r: ResponseContext) {
        resp
    }

    fn on_result(&self, result: &mut ScanResult) {
        let noted = match result.headers.get("server") {
            Some(server) => {
                let mut s = String::new();
                match &result.content_type {
                    Some(t) => push_str(&mut s, t.as_str()),
                    None => push_str(&mut s, "unknown"),
                }
                push_str(&mut s, " (server: ");
                push_str(&mut s, server.as_str());
                push_str(&mut s, ")");
                Some(s)
            },
            None => None,
        };
        if let Some(s) = noted {
            result.content_type = Some(s);
        }
    }
}

/// Only a `server` header changes a result, and then only its content type,
/// which keeps what it was (or `unknown`) and names the server after it.
pub proof fn lemma_fingerprint_notes_server(r: ResultView)
    ensures
        !r.headers.contains_key("server"@) ==> fingerprint_effect(r) == r,
        r.headers.contains_key("server"@) ==> fingerprint_effect(r) == (ResultView {
            content_type: fingerprint_effect(r).content_type,
            ..r
        }),
        r.headers.contains_key("server"@) ==> fingerprint_effect(r).content_type == Some(
            match r.content_type {
                Some(t) => t,
                None => "unknown"@,
            } + " (server: "@ + r.headers["server"@] + ")"@,
        ),
{
}

} // verus!
