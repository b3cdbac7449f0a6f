//! The front controller without a dictionary of its own: it routes and
//! dispatches each request against an empty dictionary and keeps nothing of
//! the answer.
use vstd::prelude::*;

use crate::frameworks_and_drivers::message::dispatcher::Dispatcher;
use crate::frameworks_and_drivers::message::http_request::HttpRequest;
use crate::frameworks_and_drivers::message::route::RouteView;
use crate::frameworks_and_drivers::message::router::Router;
use crate::interface_adapters::storage::word_unit::WordUnit;

verus! {

pub struct FrontController {
    dispatcher: Box<Dispatcher>,
    router: Box<Router>,
}

impl FrontController {
    pub closed spec fn routes(&self) -> Seq<RouteView> {
        self.router@
    }

    pub fn new(dispatcher: Box<Dispatcher>, router: Box<Router>) -> (r: Self)
        ensures
            r.routes() == router@,
    {
        Self { dispatcher, router }
    }

    /// Hands `request` to the dispatcher; nothing is kept of the answer.
    pub fn delegate(&self, request: Box<HttpRequest>) {
        let mut unit = WordUnit::new();
        let _ = self.dispatcher.dispatch(&self.router, request, &mut unit);
    }
}

} // verus!
