//! The controllers: each takes what a request carries, runs its use case on
//! the dictionary and answers with what came of it.
use vstd::prelude::*;

use crate::application_business_rules::word_interactor::{
    add_outcome, add_word, delete_outcome, delete_word, find_outcome, find_word, update_outcome,
    update_word, view_all, OutcomeView,
};
use crate::enterprise_business_rules::word::{with_added, with_deleted, with_updated, Word, WordView};
use crate::frameworks_and_drivers::application_request::{
    view_request_data, ApplicationRequest, WordData,
};
use crate::frameworks_and_drivers::message::http_response::{response_text, HttpResponse};
use crate::frameworks_and_drivers::message::http_status::HttpStatus;
use crate::interface_adapters::presenters::word_presenter::{present, presented};
use crate::interface_adapters::storage::word_unit::WordUnit;

verus! {

#[derive(Debug, Clone, Copy, PartialEq, Eq, Structural)]
pub enum Controller {
    FindWord,
    ViewAll,
    AddWord,
    UpdateWord,
    DeleteWord,
}

/// The entry that the data of a request carries.
pub open spec fn data_entry(d: WordData) -> WordView {
    WordView { word: d.0, frequency: d.1, translation: d.2 }
}

/// What a controller answers (status and content) and what it leaves of the
/// dictionary, given the path parameter, the request's data and the entries.
pub open spec fn handled(
    c: Controller,
    parameter: Seq<char>,
    data: Option<WordData>,
    words: Seq<WordView>,
) -> (HttpStatus, Seq<char>, Seq<WordView>) {
    match c {
        Controller::FindWord => {
            let p = presented(find_outcome(words, parameter));
            (p.0, p.1, words)
        },
        Controller::ViewAll => {
            let p = presented(OutcomeView::Listed(words));
            (p.0, p.1, words)
        },
        Controller::AddWord => match data {
            None => (HttpStatus::BadRequest, "Bad Request"@, words),
            Some(d) => {
                let p = presented(add_outcome(words, data_entry(d)));
                (p.0, p.1, with_added(words, data_entry(d)))
            },
        },
        Controller::UpdateWord => match data {
            None => (HttpStatus::BadRequest, "Bad Request"@, words),
            Some(d) => {
                let p = presented(update_outcome(words, data_entry(d)));
                (p.0, p.1, with_updated(words, data_entry(d)))
            },
        },
        Controller::DeleteWord => {
            let p = presented(delete_outcome(words, parameter));
            (p.0, p.1, with_deleted(words, parameter))
        },
    }
}

fn entry_of(data: &ApplicationRequest) -> (r: Word)
    ensures
        Some(r@) == match view_request_data(Some(*data)) {
            Some(d) => Some(data_entry(d)),
            None => None,
        },
{
    match data {
        ApplicationRequest::Word((w, f, t)) => Word::new(w.as_str(), *f, t.as_str()),
    }
}

impl Controller {
    /// Runs the controller's use case on `unit` and answers with what came of it.
    pub fn handle(&self, parameter: &str, data: &Option<ApplicationRequest>, unit: &mut WordUnit) -> (r:
        HttpResponse)
        requires
            old(unit).wf(),
        ensures
            final(unit).wf(),
            r@.status == handled(*self, parameter@, view_request_data(*data), old(unit)@).0,
            r@.content == handled(*self, parameter@, view_request_data(*data), old(unit)@).1,
            final(unit)@ == handled(*self, parameter@, view_request_data(*data), old(unit)@).2,
            r@.response == response_text(r@.status, r@.content),
            final(unit).stored() == old(unit).stored(),
    {
        match self {
            Controller::FindWord => present(&find_word(unit, parameter)),
            Controller::ViewAll => present(&view_all(unit)),
            Controller::AddWord => match data {
                Some(d) => present(&add_word(unit, entry_of(d))),
                None => HttpResponse::answer(HttpStatus::BadRequest, HttpStatus::BadRequest.get_description()),
            },
            Controller::UpdateWord => match data {
                Some(d) => present(&update_word(unit, entry_of(d))),
                None => HttpResponse::answer(HttpStatus::BadRequest, HttpStatus::BadRequest.get_description()),
            },
            Controller::DeleteWord => present(&delete_word(unit, parameter)),
        }
    }
}

} // verus!
