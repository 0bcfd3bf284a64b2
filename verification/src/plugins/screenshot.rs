//! A placeholder for taking screenshots of found pages; it changes nothing.
use crate::plugin::Plugin;
use crate::types::{RequestContext, RequestView, ResponseContext, ResponseView, ResultView, ScanResult};
use vstd::prelude::*;

verus! {

/// Would take screenshots of pages that answered 200; it needs a headless
/// browser, so it leaves every result as it is.
pub struct ScreenshotPlugin {
    pub enabled: bool,
}

impl ScreenshotPlugin {
    /// A plugin that is switched off.
    pub fn new_disabled() -> (p: ScreenshotPlugin)
        ensures
            !p.enabled,
    {
        ScreenshotPlugin { enabled: false }
    }
}

impl Plugin for ScreenshotPlugin {
    open spec fn plugin_name(&self) -> Seq<char> {
        "screenshot"@
    }

    open spec fn plugin_version(&self) -> Seq<char> {
        "0.1.0"@
    }

    open spec fn request_effect(&self, req: RequestView) -> RequestView {
        req
    }

    open spec fn response_effect(&self, resp: ResponseView) -> ResponseView {
        resp
    }

    open spec fn result_effect(&self, result: ResultView) -> ResultView {
        result
    }

    fn name(&self) -> (r: &str) {
        "screenshot"
    }

    fn version(&self) -> (r: &str) {
        "0.1.0"
    }

    fn on_request(&self, req: RequestContext) -> (r: RequestContext) {
        req
    }

    fn on_response(&self, resp: ResponseContext) -> (r: ResponseContext) {
        resp
    }

    fn on_result(&self, result: &mut ScanResult) {
    }
}

} // verus!
