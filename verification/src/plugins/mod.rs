//! The plugins that ship with the scanner.
pub mod fingerprint;
pub mod rate_limit;
pub mod recursion;
pub mod screenshot;

use crate::plugin::Plugin;
use crate::types::{RequestContext, RequestView, ResponseContext, ResponseView, ResultView, ScanResult};
use fingerprint::FingerprintPlugin;
use rate_limit::RateLimitPlugin;
use recursion::RecursionPlugin;
use screenshot::ScreenshotPlugin;
use vstd::prelude::*;

verus! {

/// Any of the plugins that ship with the scanner, so that a chain can hold
/// several kinds.
pub enum BuiltinPlugin {
    Recursion(RecursionPlugin),
    Fingerprint(FingerprintPlugin),
    RateLimit(RateLimitPlugin),
    Screenshot(ScreenshotPlugin),
}

impl Plugin for BuiltinPlugin {
    open spec fn plugin_name(&self) -> Seq<char> {
        match self {
            BuiltinPlugin::Recursion(p) => p.plugin_name(),
            BuiltinPlugin::Fingerprint(p) => p.plugin_name(),
            BuiltinPlugin::RateLimit(p) => p.plugin_name(),
            BuiltinPlugin::Screenshot(p) => p.plugin_name(),
        }
    }

    open spec fn plugin_version(&self) -> Seq<char> {
        match self {
            BuiltinPlugin::Recursion(p) => p.plugin_version(),
            BuiltinPlugin::Fingerprint(p) => p.plugin_version(),
            BuiltinPlugin::RateLimit(p) => p.plugin_version(),
            BuiltinPlugin::Screenshot(p) => p.plugin_version(),
        }
    }

    open spec fn request_effect(&self, req: RequestView) -> RequestView {
        match self {
            BuiltinPlugin::Recursion(p) => p.request_effect(req),
            BuiltinPlugin::Fingerprint(p) => p.request_effect(req),
            BuiltinPlugin::RateLimit(p) => p.request_effect(req),
            BuiltinPlugin::Screenshot(p) => p.request_effect(req),
        }
    }

    open spec fn response_effect(&self, resp: ResponseView) -> ResponseView {
        match self {
            BuiltinPlugin::Recursion(p) => p.response_effect(resp),
            BuiltinPlugin::Fingerprint(p) => p.response_effect(resp),
            BuiltinPlugin::RateLimit(p) => p.response_effect(resp),
            BuiltinPlugin::Screenshot(p) => p.response_effect(resp),
        }
    }

    open spec fn result_effect(&self, result: ResultView) -> ResultView {
        match self {
            BuiltinPlugin::Recursion(p) => p.result_effect(result),
            BuiltinPlugin::Fingerprint(p) => p.result_effect(result),
            BuiltinPlugin::RateLimit(p) => p.result_effect(result),
            BuiltinPlugin::Screenshot(p) => p.result_effect(result),
        }
    }

    fn name(&self) -> (r: &str) {
        match self {
            BuiltinPlugin::Recursion(p) => p.name(),
            BuiltinPlugin::Fingerprint(p) => p.name(),
            BuiltinPlugin::RateLimit(p) => p.name(),
            BuiltinPlugin::Screenshot(p) => p.name(),
        }
    }

    fn version(&self) -> (r: &str) {
        match self {
            BuiltinPlugin::Recursion(p) => p.version(),
            BuiltinPlugin::Fingerprint(p) => p.version(),
            BuiltinPlugin::RateLimit(p) => p.version(),
            BuiltinPlugin::Screenshot(p) => p.version(),
        }
    }

    fn on_request(&self, req: RequestContext) -> (r: RequestContext) {
        match self {
            BuiltinPlugin::Recursion(p) => p.on_request(req),
            BuiltinPlugin::Fingerprint(p) => p.on_request(req),
            BuiltinPlugin::RateLimit(p) => p.on_request(req),
            BuiltinPlugin::Screenshot(p) => p.on_request(req),
        }
    }

    fn on_response(&self, resp: ResponseContext) -> (r: ResponseContext) {
        match self {
            BuiltinPlugin::Recursion(p) => p.on_response(resp),
            BuiltinPlugin::Fingerprint(p) => p.on_response(resp),
            BuiltinPlugin::RateLimit(p) => p.on_response(resp),
            BuiltinPlugin::Screenshot(p) => p.on_response(resp),
        }
    }

    fn on_result(&self, result: &mut ScanResult) {
        match self {
            BuiltinPlugin::Recursion(p) => p.on_result(result),
            BuiltinPlugin::Fingerprint(p) => p.on_result(result),
            BuiltinPlugin::RateLimit(p) => p.on_result(result),
            BuiltinPlugin::Screenshot(p) => p.on_result(result),
        }
    }
}

} // verus!
