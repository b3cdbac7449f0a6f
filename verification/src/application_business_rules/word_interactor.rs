//! The use cases of the dictionary: find a word, list all words, add, update
//! and delete an entry. Each says what came of it.
use vstd::prelude::*;

use crate::enterprise_business_rules::word::{
    contains_word, lookup, view_words, with_added, with_deleted, with_updated,
    Word, WordView,
};
use crate::interface_adapters::storage::word_unit::WordUnit;

verus! {

/// What came of a use case.
pub enum Outcome {
    Found(Word),
    NotFound(String),
    Listed(Vec<Word>),
    Added(String),
    AlreadyExists(String),
    Changed,
}

pub enum OutcomeView {
    Found(WordView),
    NotFound(Seq<char>),
    Listed(Seq<WordView>),
    Added(Seq<char>),
    AlreadyExists(Seq<char>),
    Changed,
}

pub open spec fn view_outcome(o: Outcome) -> OutcomeView {
    match o {
        Outcome::Found(w) => OutcomeView::Found(w@),
        Outcome::NotFound(w) => OutcomeView::NotFound(w@),
        Outcome::Listed(ws) => OutcomeView::Listed(view_words(ws@)),
        Outcome::Added(w) => OutcomeView::Added(w@),
        Outcome::AlreadyExists(w) => OutcomeView::AlreadyExists(w@),
        Outcome::Changed => OutcomeView::Changed,
    }
}

pub open spec fn find_outcome(words: Seq<WordView>, w: Seq<char>) -> OutcomeView {
    match lookup(words, w) {
        Some(e) => OutcomeView::Found(e),
        None => OutcomeView::NotFound(w),
    }
}

pub open spec fn add_outcome(words: Seq<WordView>, e: WordView) -> OutcomeView {
    if contains_word(words, e.word) {
        OutcomeView::AlreadyExists(e.word)
    } else {
        OutcomeView::Added(e.word)
    }
}

pub open spec fn update_outcome(words: Seq<WordView>, e: WordView) -> OutcomeView {
    if contains_word(words, e.word) {
        OutcomeView::Changed
    } else {
        OutcomeView::NotFound(e.word)
    }
}

pub open spec fn delete_outcome(words: Seq<WordView>, w: Seq<char>) -> OutcomeView {
    if contains_word(words, w) {
        OutcomeView::Changed
    } else {
        OutcomeView::NotFound(w)
    }
}

pub fn find_word(unit: &WordUnit, word: &str) -> (r: Outcome)
    requires
        unit.wf(),
    ensures
        view_outcome(r) == find_outcome(unit@, word@),
{
    match unit.find(word) {
        Some(w) => Outcome::Found(w),
        None => Outcome::NotFound(word.to_owned()),
    }
}

pub fn view_all(unit: &WordUnit) -> (r: Outcome)
    ensures
        view_outcome(r) == OutcomeView::Listed(unit@),
{
    Outcome::Listed(unit.all_words())
}

pub fn add_word(unit: &mut WordUnit, word: Word) -> (r: Outcome)
    requires
        old(unit).wf(),
    ensures
        final(unit).wf(),
        view_outcome(r) == add_outcome(old(unit)@, word@),
        final(unit)@ == with_added(old(unit)@, word@),
        final(unit).stored() == old(unit).stored(),
{
    let name = word.word.clone();
    if unit.add(word) {
        Outcome::Added(name)
    } else {
        Outcome::AlreadyExists(name)
    }
}

pub fn update_word(unit: &mut WordUnit, word: Word) -> (r: Outcome)
    requires
        old(unit).wf(),
    ensures
        final(unit).wf(),
        view_outcome(r) == update_outcome(old(unit)@, word@),
        final(unit)@ == with_updated(old(unit)@, word@),
        final(unit).stored() == old(unit).stored(),
{
    let name = word.word.clone();
    if unit.update(word) {
        Outcome::Changed
    } else {
        Outcome::NotFound(name)
    }
}

pub fn delete_word(unit: &mut WordUnit, word: &str) -> (r: Outcome)
    requires
        old(unit).wf(),
    ensures
        final(unit).wf(),
        view_outcome(r) == delete_outcome(old(unit)@, word@),
        final(unit)@ == with_deleted(old(unit)@, word@),
        final(unit).stored() == old(unit).stored(),
{
    if unit.delete(word) {
        Outcome::Changed
    } else {
        Outcome::NotFound(word.to_owned())
    }
}

} // verus!
