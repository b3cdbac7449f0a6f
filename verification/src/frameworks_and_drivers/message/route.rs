use vstd::prelude::*;

use crate::frameworks_and_drivers::message::http_method::HttpMethod;

verus! {

/// A route: requests with this method whose path fits this pattern go to the
/// controller named by the action. A pattern that ends in `*` takes any last
/// path segment in its place.
pub struct Route {
    method: HttpMethod,
    path: String,
    action: String,
}

pub struct RouteView {
    pub method: HttpMethod,
    pub path: Seq<char>,
    pub action: Seq<char>,
}

impl View for Route {
    type V = RouteView;

    closed spec fn view(&self) -> RouteView {
        RouteView { method: self.method, path: self.path@, action: self.action@ }
    }
}

impl Route {
    pub fn new(method: HttpMethod, path: &str, action: &str) -> (r: Route)
        ensures
            r@ == (RouteView { method, path: path@, action: action@ }),
    {
        Route { method, path: path.to_owned(), action: action.to_owned() }
    }

    pub fn get_method(&self) -> (r: HttpMethod)
        ensures
            r == self@.method,
    {
        self.method
    }

    pub fn get_path(&self) -> (r: &str)
        ensures
            r@ == self@.path,
    {
        self.path.as_str()
    }

    pub fn get_action(&self) -> (r: &str)
        ensures
            r@ == self@.action,
    {
        self.action.as_str()
    }
}

} // verus!
