//! Sends a request to the controller of the route it fits.
use vstd::prelude::*;

use crate::enterprise_business_rules::word::WordView;
use crate::frameworks_and_drivers::factory::{controller_named, Factory};
use crate::frameworks_and_drivers::message::http_request::{HttpRequest, RequestView};
use crate::frameworks_and_drivers::message::http_response::{response_text, HttpResponse};
use crate::frameworks_and_drivers::message::http_status::HttpStatus;
use crate::frameworks_and_drivers::message::route::RouteView;
use crate::frameworks_and_drivers::message::router::{
    match_index, path_matches, route_parameter, Router,
};
use crate::interface_adapters::controllers::handled;
use crate::interface_adapters::storage::word_unit::WordUnit;

verus! {

/// What answers a request (status and content) and what it leaves of the
/// dictionary: a request that fits no route is not found; one whose route
/// names no controller is a server error; any other goes to its controller
/// with what stands in place of the route's `*`.
pub open spec fn dispatched(routes: Seq<RouteView>, req: RequestView, words: Seq<WordView>) -> (
    HttpStatus,
    Seq<char>,
    Seq<WordView>,
) {
    let i = match_index(routes, req.method, req.path);
    if i >= routes.len() {
        (HttpStatus::NotFound, "Not Found"@, words)
    } else {
        match controller_named(routes[i].action) {
            None => (HttpStatus::InternalServerError, "Internal Server Error"@, words),
            Some(c) => handled(c, route_parameter(routes[i].path, req.path), req.data, words),
        }
    }
}

/// What stands in `path` in place of the `*` of `pattern`.
pub fn route_parameter_of(pattern: &str, path: &str) -> (r: String)
    requires
        path_matches(pattern@, path@),
    ensures
        r@ == route_parameter(pattern@, path@),
{
    let pl = pattern.unicode_len();
    if pl > 0 && pattern.get_char(pl - 1) == '*' {
        let n = path.unicode_len();
        path.substring_char(pl - 1, n).to_owned()
    } else {
        String::new()
    }
}

pub struct Dispatcher {
    factory: Box<Factory>,
}

impl Dispatcher {
    pub fn new(factory: Box<Factory>) -> (r: Dispatcher) {
        Dispatcher { factory }
    }

    /// Answers `request` with the routes of `router`, running its use case on
    /// `word_unit`.
    pub fn dispatch(&self, router: &Router, request: Box<HttpRequest>, word_unit: &mut WordUnit) -> (r:
        Box<HttpResponse>)
        requires
            old(word_unit).wf(),
        ensures
            final(word_unit).wf(),
            r@.status == dispatched(router@, request@, old(word_unit)@).0,
            r@.content == dispatched(router@, request@, old(word_unit)@).1,
            final(word_unit)@ == dispatched(router@, request@, old(word_unit)@).2,
            r@.response == response_text(r@.status, r@.content),
            final(word_unit).stored() == old(word_unit).stored(),
    {
        let path = request.get_path();
        match router.find_route(request.get_method(), path) {
            None => Box::new(
                HttpResponse::answer(HttpStatus::NotFound, HttpStatus::NotFound.get_description()),
            ),
            Some(route) => {
                proof {
                    let i = match_index(router@, request@.method, request@.path);
                    assert(route@ == router@[i]);
                    assert(router@[i].method == request@.method && path_matches(router@[i].path, request@.path)) by {
                        crate::frameworks_and_drivers::message::router::lemma_match_index_fits(router@, request@.method, request@.path);
                    }
                }
                match self.factory.create_controller(route.get_action()) {
                    None => Box::new(
                        HttpResponse::answer(
                            HttpStatus::InternalServerError,
                            HttpStatus::InternalServerError.get_description(),
                        ),
                    ),
                    Some(controller) => {
                        let parameter = route_parameter_of(route.get_path(), path);
                        Box::new(controller.handle(parameter.as_str(), request.get_data(), word_unit))
                    },
                }
            },
        }
    }
}

} // verus!
