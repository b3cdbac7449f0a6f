//! How what came of a use case is answered: a status and a text.
use vstd::prelude::*;

use crate::application_business_rules::word_interactor::{view_outcome, Outcome, OutcomeView};
use crate::enterprise_business_rules::word::{view_words, Word, WordView};
use crate::frameworks_and_drivers::message::http_response::{response_text, HttpResponse};
use crate::frameworks_and_drivers::message::http_status::HttpStatus;
use crate::text::{append_decimal, decimal};

verus! {

/// An entry as three lines: word, frequency, translation.
pub open spec fn entry_text(e: WordView) -> Seq<char> {
    e.word + "\n"@ + decimal(e.frequency as nat) + "\n"@ + e.translation
}

/// The words of the entries, each on a line of its own.
pub open spec fn list_text(ws: Seq<WordView>) -> Seq<char>
    decreases ws.len(),
{
    if ws.len() == 0 {
        Seq::empty()
    } else {
        list_text(ws.drop_last()) + ws.last().word + "\n"@
    }
}

pub open spec fn not_found_text(w: Seq<char>) -> Seq<char> {
    "Word \""@ + w + "\" is not found \u{1F622}"@
}

pub open spec fn added_text(w: Seq<char>) -> Seq<char> {
    "Word \""@ + w + "\" is added \u{1F60E}"@
}

pub open spec fn already_exists_text(w: Seq<char>) -> Seq<char> {
    "Word \""@ + w + "\" is already exist \u{1F60E}"@
}

/// The status and the content that answer an outcome.
pub open spec fn presented(o: OutcomeView) -> (HttpStatus, Seq<char>) {
    match o {
        OutcomeView::Found(e) => (HttpStatus::Success, entry_text(e)),
        OutcomeView::NotFound(w) => (HttpStatus::NotFound, not_found_text(w)),
        OutcomeView::Listed(ws) => (HttpStatus::Success, list_text(ws)),
        OutcomeView::Added(w) => (HttpStatus::Created, added_text(w)),
        OutcomeView::AlreadyExists(w) => (HttpStatus::Conflict, already_exists_text(w)),
        OutcomeView::Changed => (HttpStatus::NoContent, Seq::empty()),
    }
}

fn word_message(before: &str, w: &str, after: &str) -> (r: String)
    ensures
        r@ == before@ + w@ + after@,
{
    let mut s = String::from_str(before);
    s.append(w);
    s.append(after);
    s
}

fn entry_content(e: &Word) -> (r: String)
    ensures
        r@ == entry_text(e@),
{
    let mut s = String::from_str(e.word.as_str());
    s.append("\n");
    append_decimal(&mut s, e.frequency as u64);
    s.append("\n");
    s.append(e.translation.as_str());
    s
}

fn list_content(ws: &Vec<Word>) -> (r: String)
    ensures
        r@ == list_text(view_words(ws@)),
{
    let mut s = String::new();
    let mut i: usize = 0;
    while i < ws.len()
        invariant
            i <= ws.len(),
            s@ == list_text(view_words(ws@).take(i as int)),
        decreases ws.len() - i,
    {
        s.append(ws[i].word.as_str());
        s.append("\n");
        proof {
            let t = view_words(ws@).take(i + 1);
            assert(t.drop_last() =~= view_words(ws@).take(i as int));
            assert(t.last() == ws@[i as int]@);
        }
        i = i + 1;
    }
    assert(view_words(ws@).take(i as int) =~= view_words(ws@));
    s
}

/// The response that answers `o`.
pub fn present(o: &Outcome) -> (r: HttpResponse)
    ensures
        r@.status == presented(view_outcome(*o)).0,
        r@.content == presented(view_outcome(*o)).1,
        r@.response == response_text(r@.status, r@.content),
{
    match o {
        Outcome::Found(e) => {
            let c = entry_content(e);
            HttpResponse::answer(HttpStatus::Success, c.as_str())
        },
        Outcome::NotFound(w) => {
            let c = word_message("Word \"", w.as_str(), "\" is not found \u{1F622}");
            HttpResponse::answer(HttpStatus::NotFound, c.as_str())
        },
        Outcome::Listed(ws) => {
            let c = list_content(ws);
            HttpResponse::answer(HttpStatus::Success, c.as_str())
        },
        Outcome::Added(w) => {
            let c = word_message("Word \"", w.as_str(), "\" is added \u{1F60E}");
            HttpResponse::answer(HttpStatus::Created, c.as_str())
        },
        Outcome::AlreadyExists(w) => {
            let c = word_message("Word \"", w.as_str(), "\" is already exist \u{1F60E}");
            HttpResponse::answer(HttpStatus::Conflict, c.as_str())
        },
        Outcome::Changed => {
            let c = String::new();
            HttpResponse::answer(HttpStatus::NoContent, c.as_str())
        },
    }
}

/// A found entry is answered as three lines: the word, the frequency in
/// decimal and the whole translation, unaltered; the answer ends with the
/// translation.
pub proof fn law_entry_text_is_three_lines(e: WordView)
    ensures
        entry_text(e) == e.word + seq!['\n'] + decimal(e.frequency as nat) + seq!['\n'] + e.translation,
        entry_text(e).take(e.word.len() as int) == e.word,
        entry_text(e).skip(entry_text(e).len() - e.translation.len()) == e.translation,
{
    reveal_strlit("\n");
    assert("\n"@ =~= seq!['\n']);
    let t = e.word + seq!['\n'] + decimal(e.frequency as nat) + seq!['\n'] + e.translation;
    assert(t.take(e.word.len() as int) =~= e.word);
    assert(t.skip(t.len() - e.translation.len()) =~= e.translation);
}

/// The list of all words has one line per entry, in order: no entries give no
/// text, and one more entry adds one more line holding its word.
pub proof fn law_list_text_one_line_per_entry(ws: Seq<WordView>, e: WordView)
    ensures
        list_text(Seq::<WordView>::empty()) == Seq::<char>::empty(),
        list_text(ws.push(e)) == list_text(ws) + e.word + seq!['\n'],
{
    reveal_strlit("\n");
    assert("\n"@ =~= seq!['\n']);
    assert(ws.push(e).drop_last() =~= ws);
    assert(ws.push(e).last() == e);
}

} // verus!
