//! The entry point of every request: it hands the request to the dispatcher
//! with the routes and the dictionary, and commits the dictionary's changes.
use vstd::prelude::*;

use crate::enterprise_business_rules::word::{unique_words, view_words, Word, WordView};
use crate::frameworks_and_drivers::message::dispatcher::{dispatched, Dispatcher};
use crate::frameworks_and_drivers::message::http_method::HttpMethod;
use crate::frameworks_and_drivers::message::http_request::{HttpRequest, RequestView};
use crate::frameworks_and_drivers::message::http_response::{health_text, response_text, HttpResponse};
use crate::frameworks_and_drivers::message::http_status::HttpStatus;
use crate::text::str_eq;
use crate::frameworks_and_drivers::message::route::RouteView;
use crate::frameworks_and_drivers::message::router::Router;
use crate::interface_adapters::storage::word_unit::WordUnit;

verus! {

/// A request for the page that reports the environment the server runs in.
pub open spec fn is_health_request(r: RequestView) -> bool {
    r.method == HttpMethod::Get && r.path == "/health"@
}

pub struct FrontController {
    dispatcher: Box<Dispatcher>,
    router: Box<Router>,
    word_unit: Box<WordUnit>,
}

impl FrontController {
    /// The routes requests are matched against.
    pub closed spec fn routes(&self) -> Seq<RouteView> {
        self.router@
    }

    /// The entries as requests see them.
    pub closed spec fn words(&self) -> Seq<WordView> {
        self.word_unit@
    }

    /// The entries as last committed.
    pub closed spec fn stored(&self) -> Seq<WordView> {
        self.word_unit.stored()
    }

    pub closed spec fn wf(&self) -> bool {
        self.word_unit.wf()
    }

    /// A well-formed controller holds at most one entry per word, in what
    /// requests see and in what is stored.
    pub proof fn lemma_wf_unique(&self)
        requires
            self.wf(),
        ensures
            unique_words(self.words()),
            unique_words(self.stored()),
    {
        self.word_unit.lemma_wf_unique();
    }

    pub fn new(dispatcher: Box<Dispatcher>, router: Box<Router>, word_unit: Box<WordUnit>) -> (r: Self)
        requires
            word_unit.wf(),
        ensures
            r.wf(),
            r.routes() == router@,
            r.words() == word_unit@,
            r.stored() == word_unit.stored(),
    {
        Self { dispatcher, router, word_unit }
    }

    /// Answers `request`; the dictionary takes the change the request makes.
    pub fn delegate(&mut self, request: Box<HttpRequest>) -> (r: Box<HttpResponse>)
        requires
            old(self).wf(),
        ensures
            final(self).wf(),
            r@.status == dispatched(old(self).routes(), request@, old(self).words()).0,
            r@.content == dispatched(old(self).routes(), request@, old(self).words()).1,
            r@.response == response_text(r@.status, r@.content),
            final(self).words() == dispatched(old(self).routes(), request@, old(self).words()).2,
            final(self).routes() == old(self).routes(),
            final(self).stored() == old(self).stored(),
    {
        self.dispatcher.dispatch(&self.router, request, &mut self.word_unit)
    }

    /// Answers `request` as the server does: a `GET /health` with the page
    /// that reports `rust_env`, the environment the server runs in, leaving the
    /// dictionary alone; any other request as [`Self::delegate`] does.
    pub fn serve(&mut self, request: Box<HttpRequest>, rust_env: &str) -> (r: Box<HttpResponse>)
        requires
            old(self).wf(),
        ensures
            final(self).wf(),
            is_health_request(request@) ==> {
                &&& r@.status == HttpStatus::Success
                &&& r@.content == health_text(rust_env@)
                &&& final(self).words() == old(self).words()
            },
            !is_health_request(request@) ==> {
                &&& r@.status == dispatched(old(self).routes(), request@, old(self).words()).0
                &&& r@.content == dispatched(old(self).routes(), request@, old(self).words()).1
                &&& final(self).words() == dispatched(old(self).routes(), request@, old(self).words()).2
            },
            r@.response == response_text(r@.status, r@.content),
            final(self).routes() == old(self).routes(),
            final(self).stored() == old(self).stored(),
    {
        if request.get_method() == HttpMethod::Get && str_eq(request.get_path(), "/health") {
            Box::new(HttpResponse::health(rust_env))
        } else {
            self.delegate(request)
        }
    }

    /// Makes the current entries the committed ones.
    pub fn commit_changes(&mut self)
        requires
            old(self).wf(),
        ensures
            final(self).wf(),
            final(self).words() == old(self).words(),
            final(self).stored() == old(self).words(),
            final(self).routes() == old(self).routes(),
    {
        self.word_unit.commit();
    }

    /// The committed entries, for writing them to storage.
    pub fn stored_words(&self) -> (r: Vec<Word>)
        ensures
            view_words(r@) == self.stored(),
    {
        self.word_unit.stored_words()
    }
}

} // verus!
