//! Plugins that look at requests, responses and results as a scan goes, and
//! the chain that runs them in the order they were registered.
use crate::types::{RequestContext, RequestView, ResponseContext, ResponseView, ResultView, ScanResult};
use vstd::prelude::*;

verus! {

/// A step that a scan runs on each request, response and result.
pub trait Plugin: Send + Sync {
    /// The plugin's name.
    spec fn plugin_name(&self) -> Seq<char>;

    /// The plugin's version.
    spec fn plugin_version(&self) -> Seq<char>;

    /// What the plugin makes of a request.
    spec fn request_effect(&self, req: RequestView) -> RequestView;

    /// What the plugin makes of a response.
    spec fn response_effect(&self, resp: ResponseView) -> ResponseView;

    /// What the plugin makes of a result.
    spec fn result_effect(&self, result: ResultView) -> ResultView;

    fn name(&self) -> (r: &str)
        ensures
            r@ == self.plugin_name(),
    ;

    fn version(&self) -> (r: &str)
        ensures
            r@ == self.plugin_version(),
    ;

    fn on_request(&self, req: RequestContext) -> (r: RequestContext)
        ensures
            r@ == self.request_effect(req@),
    ;

    fn on_response(&self, resp: ResponseContext) -> (r: ResponseContext)
        ensures
            r@ == self.response_effect(resp@),
    ;

    fn on_result(&self, result: &mut ScanResult)
        ensures
            final(result)@ == self.result_effect(old(result)@),
    ;
}

/// What the plugins `ps` make of a request, the first one first.
pub open spec fn chain_request<P: Plugin>(ps: Seq<P>, req: RequestView) -> RequestView
    decreases ps.len(),
{
    if ps.len() == 0 {
        req
    } else {
        ps.last().request_effect(chain_request(ps.drop_last(), req))
    }
}

/// What the plugins `ps` make of a response, the first one first.
pub open spec fn chain_response<P: Plugin>(ps: Seq<P>, resp: ResponseView) -> ResponseView
    decreases ps.len(),
{
    if ps.len() == 0 {
        resp
    } else {
        ps.last().response_effect(chain_response(ps.drop_last(), resp))
    }
}

/// What the plugins `ps` make of a result, the first one first.
pub open spec fn chain_result<P: Plugin>(ps: Seq<P>, result: ResultView) -> ResultView
    decreases ps.len(),
{
    if ps.len() == 0 {
        result
    } else {
        ps.last().result_effect(chain_result(ps.drop_last(), result))
    }
}

/// The plugins of a scan, in the order they were registered.
pub struct PluginChain<P: Plugin> {
    plugins: Vec<P>,
}

impl<P: Plugin> PluginChain<P> {
    /// The registered plugins, in order.
    pub closed spec fn plugins(&self) -> Seq<P> {
        self.plugins@
    }

    /// A chain with no plugins.
    pub fn new() -> (c: PluginChain<P>)
        ensures
            c.plugins() == Seq::<P>::empty(),
    {
        PluginChain { plugins: Vec::new() }
    }

    /// Adds `plugin` at the end of the chain.
    pub fn register(&mut self, plugin: P)
        ensures
            final(self).plugins() == old(self).plugins().push(plugin),
    {
        self.plugins.push(plugin);
    }

    /// The request as every plugin, in order, makes it.
    pub fn run_on_request(&self, req: RequestContext) -> (r: RequestContext)
        ensures
            r@ == chain_request(self.plugins(), req@),
    {
        let mut cur = req;
        let mut i: usize = 0;
        while i < self.plugins.len()
            invariant
                i <= self.plugins@.len(),
                cur@ == chain_request(self.plugins@.take(i as int), req@),
            decreases self.plugins@.len() - i,
        {
            assert(self.plugins@.take(i + 1).drop_last() == self.plugins@.take(i as int));
            cur = self.plugins[i].on_request(cur);
            i = i + 1;
        }
        assert(self.plugins@.take(i as int) == self.plugins@);
        cur
    }

    /// The response as every plugin, in order, makes it.
    pub fn run_on_response(&self, resp: ResponseContext) -> (r: ResponseContext)
        ensures
            r@ == chain_response(self.plugins(), resp@),
    {
        let mut cur = resp;
        let mut i: usize = 0;
        while i < self.plugins.len()
            invariant
                i <= self.plugins@.len(),
                cur@ == chain_response(self.plugins@.take(i as int), resp@),
            decreases self.plugins@.len() - i,
        {
            assert(self.plugins@.take(i + 1).drop_last() == self.plugins@.take(i as int));
            cur = self.plugins[i].on_response(cur);
            i = i + 1;
        }
        assert(self.plugins@.take(i as int) == self.plugins@);
        cur
    }

    /// Runs every plugin, in order, on `result`.
    pub fn run_on_result(&self, result: &mut ScanResult)
        ensures
            final(result)@ == chain_result(self.plugins(), old(result)@),
    {
        let ghost start = result@;
        let mut i: usize = 0;
        while i < self.plugins.len()
            invariant
                i <= self.plugins@.len(),
                result@ == chain_result(self.plugins@.take(i as int), start),
            decreases self.plugins@.len() - i,
        {
            assert(self.plugins@.take(i + 1).drop_last() == self.plugins@.take(i as int));
            self.plugins[i].on_result(result);
            i = i + 1;
        }
        assert(self.plugins@.take(i as int) == self.plugins@);
    }
}


} // verus!
