//! What the dictionary's routes promise across requests: what a request that
//! writes leaves is what a later read gives back.
use vstd::prelude::*;

use crate::enterprise_business_rules::word::{
    contains_word, law_add_then_delete, law_add_then_lookup, law_delete_then_lookup,
    law_update_then_lookup, lemma_added_unique, lemma_updated_unique, lookup, unique_words, with_added,
    WordView,
};
use crate::frameworks_and_drivers::application_request::WordData;
use crate::frameworks_and_drivers::factory::controller_named;
use crate::frameworks_and_drivers::front_controller::FrontController;
use crate::frameworks_and_drivers::message::dispatcher::dispatched;
use crate::frameworks_and_drivers::message::http_method::HttpMethod;
use crate::frameworks_and_drivers::message::http_request::{
    parse_request, parse_word_data, request_body, RequestView,
};
use crate::interface_adapters::storage::word_mapper::storable;
use crate::text::{decimal, find_char, lemma_find_char_bounds, lemma_trim_lacks};
use crate::frameworks_and_drivers::message::http_status::HttpStatus;
use crate::frameworks_and_drivers::message::router::{
    dictionary_routes, is_wildcard, lemma_match_index, lemma_match_index_fits, match_index,
    path_matches, route_matches, route_parameter,
};
use crate::interface_adapters::controllers::{data_entry, Controller};
use crate::interface_adapters::presenters::word_presenter::{
    law_entry_text_is_three_lines,
    added_text, already_exists_text, entry_text, not_found_text,
};

verus! {

/// The path that names the entry of `w`.
pub open spec fn word_path(w: Seq<char>) -> Seq<char> {
    "/words/"@ + w
}

/// A word that a path can name: not empty, and without `/`.
pub open spec fn nameable(w: Seq<char>) -> bool {
    w.len() > 0 && !w.contains('/')
}

pub open spec fn request(method: HttpMethod, path: Seq<char>, data: Option<WordData>) -> RequestView {
    RequestView { method, path, data }
}

proof fn lemma_literals()
    ensures
        "/words"@ == seq!['/', 'w', 'o', 'r', 'd', 's'],
        "/words/"@ == seq!['/', 'w', 'o', 'r', 'd', 's', '/'],
        "/words/*"@ == seq!['/', 'w', 'o', 'r', 'd', 's', '/', '*'],
        controller_named("find_word"@) == Some(Controller::FindWord),
        controller_named("view_all"@) == Some(Controller::ViewAll),
        controller_named("add_word"@) == Some(Controller::AddWord),
        controller_named("update_word"@) == Some(Controller::UpdateWord),
        controller_named("delete_word"@) == Some(Controller::DeleteWord),
{
    reveal_strlit("/words");
    reveal_strlit("/words/");
    reveal_strlit("/words/*");
    reveal_strlit("find_word");
    reveal_strlit("view_all");
    reveal_strlit("add_word");
    reveal_strlit("update_word");
    reveal_strlit("delete_word");
    assert("/words"@ =~= seq!['/', 'w', 'o', 'r', 'd', 's']);
    assert("/words/"@ =~= seq!['/', 'w', 'o', 'r', 'd', 's', '/']);
    assert("/words/*"@ =~= seq!['/', 'w', 'o', 'r', 'd', 's', '/', '*']);
    assert("view_all"@ != "find_word"@) by {
        assert("view_all"@[0] != "find_word"@[0]);
    }
    assert("add_word"@ != "find_word"@) by {
        assert("add_word"@[0] != "find_word"@[0]);
    }
    assert("add_word"@ != "view_all"@) by {
        assert("add_word"@[0] != "view_all"@[0]);
    }
    assert("update_word"@ != "find_word"@) by {
        assert("update_word"@[0] != "find_word"@[0]);
    }
    assert("update_word"@ != "view_all"@) by {
        assert("update_word"@.len() != "view_all"@.len());
    }
    assert("update_word"@ != "add_word"@) by {
        assert("update_word"@.len() != "add_word"@.len());
    }
    assert("delete_word"@ != "find_word"@) by {
        assert("delete_word"@[0] != "find_word"@[0]);
    }
    assert("delete_word"@ != "view_all"@) by {
        assert("delete_word"@.len() != "view_all"@.len());
    }
    assert("delete_word"@ != "add_word"@) by {
        assert("delete_word"@.len() != "add_word"@.len());
    }
    assert("delete_word"@ != "update_word"@) by {
        assert("delete_word"@[0] != "update_word"@[0]);
    }
}

/// How the path of a nameable word fits the two patterns of the dictionary.
proof fn lemma_word_path(w: Seq<char>)
    requires
        nameable(w),
    ensures
        path_matches("/words/*"@, word_path(w)),
        route_parameter("/words/*"@, word_path(w)) == w,
        !path_matches("/words"@, word_path(w)),
{
    lemma_literals();
    let p = word_path(w);
    assert(is_wildcard("/words/*"@));
    assert("/words/*"@.drop_last() =~= "/words/"@);
    assert(p.take(7) =~= "/words/"@);
    assert(p.skip(7) =~= w);
    assert(p.len() != "/words"@.len());
}

/// Where `PUT /words` and `POST /words` land among the dictionary's routes.
proof fn lemma_dictionary_matches_collection()
    ensures
        match_index(dictionary_routes(), HttpMethod::Put, "/words"@) == 1,
        match_index(dictionary_routes(), HttpMethod::Post, "/words"@) == 2,
{
    lemma_literals();
    let r = dictionary_routes();
    assert(!is_wildcard("/words"@));
    assert(!route_matches(r[0], HttpMethod::Put, "/words"@));
    lemma_match_index(r, HttpMethod::Put, "/words"@, 1);
    assert(!route_matches(r[0], HttpMethod::Post, "/words"@));
    assert(!route_matches(r[1], HttpMethod::Post, "/words"@));
    lemma_match_index(r, HttpMethod::Post, "/words"@, 2);
}

/// Where `DELETE` and `GET` of a word's path land among the dictionary's routes.
proof fn lemma_dictionary_matches(w: Seq<char>)
    requires
        nameable(w),
    ensures
        match_index(dictionary_routes(), HttpMethod::Delete, word_path(w)) == 0,
        match_index(dictionary_routes(), HttpMethod::Put, "/words"@) == 1,
        match_index(dictionary_routes(), HttpMethod::Post, "/words"@) == 2,
        match_index(dictionary_routes(), HttpMethod::Get, word_path(w)) == 4,
{
    lemma_literals();
    lemma_word_path(w);
    lemma_dictionary_matches_collection();
    let r = dictionary_routes();
    assert(!is_wildcard("/words"@));
    lemma_match_index(r, HttpMethod::Delete, word_path(w), 0);
    assert(!route_matches(r[3], HttpMethod::Get, word_path(w)));
    assert(forall|j: int| 0 <= j < 4 ==> !route_matches(#[trigger] r[j], HttpMethod::Get, word_path(w)));
    lemma_match_index(r, HttpMethod::Get, word_path(w), 4);
}

/// A new entry added by `POST /words` is answered as added, and a `GET` of
/// its word's path then answers with the entry.
pub proof fn law_added_word_is_found(words: Seq<WordView>, d: WordData, get_data: Option<WordData>)
    requires
        unique_words(words),
        nameable(d.0),
        !contains_word(words, d.0),
    ensures
        ({
            let post = dispatched(dictionary_routes(), request(HttpMethod::Post, "/words"@, Some(d)), words);
            &&& post.0 == HttpStatus::Created
            &&& post.1 == added_text(d.0)
            &&& post.2 == with_added(words, data_entry(d))
            &&& dispatched(dictionary_routes(), request(HttpMethod::Get, word_path(d.0), get_data), post.2)
                == (HttpStatus::Success, entry_text(data_entry(d)), post.2)
        }),
{
    lemma_literals();
    lemma_dictionary_matches(d.0);
    lemma_word_path(d.0);
    law_add_then_lookup(words, data_entry(d));
}

/// Where the word already has an entry, `POST /words` is refused as a
/// conflict and changes nothing.
pub proof fn law_existing_word_is_not_added(words: Seq<WordView>, d: WordData)
    requires
        contains_word(words, d.0),
    ensures
        dispatched(dictionary_routes(), request(HttpMethod::Post, "/words"@, Some(d)), words) == (
            HttpStatus::Conflict,
            already_exists_text(d.0),
            words,
        ),
{
    lemma_literals();
    lemma_dictionary_matches_collection();
}

/// An entry replaced by `PUT /words` is answered with no content, and a
/// `GET` of its word's path then answers with the new entry.
pub proof fn law_updated_word_is_found(words: Seq<WordView>, d: WordData, get_data: Option<WordData>)
    requires
        unique_words(words),
        nameable(d.0),
        contains_word(words, d.0),
    ensures
        ({
            let put = dispatched(dictionary_routes(), request(HttpMethod::Put, "/words"@, Some(d)), words);
            &&& put.0 == HttpStatus::NoContent
            &&& put.1 == Seq::<char>::empty()
            &&& dispatched(dictionary_routes(), request(HttpMethod::Get, word_path(d.0), get_data), put.2)
                == (HttpStatus::Success, entry_text(data_entry(d)), put.2)
        }),
{
    lemma_literals();
    lemma_dictionary_matches(d.0);
    lemma_word_path(d.0);
    law_update_then_lookup(words, data_entry(d));
    crate::enterprise_business_rules::word::lemma_updated_unique(words, data_entry(d));
}

/// After `DELETE` of a word's path, a `GET` of it answers that the word is
/// not found.
pub proof fn law_deleted_word_is_not_found(
    words: Seq<WordView>,
    w: Seq<char>,
    delete_data: Option<WordData>,
    get_data: Option<WordData>,
)
    requires
        unique_words(words),
        nameable(w),
    ensures
        ({
            let del = dispatched(dictionary_routes(), request(HttpMethod::Delete, word_path(w), delete_data), words);
            &&& contains_word(words, w) ==> del.0 == HttpStatus::NoContent && del.1 == Seq::<char>::empty()
            &&& !contains_word(words, w) ==> del.0 == HttpStatus::NotFound && del.1 == not_found_text(w)
            &&& dispatched(dictionary_routes(), request(HttpMethod::Get, word_path(w), get_data), del.2)
                == (HttpStatus::NotFound, not_found_text(w), del.2)
        }),
{
    lemma_literals();
    lemma_dictionary_matches(w);
    lemma_word_path(w);
    law_delete_then_lookup(words, w);
}

/// Deleting a word just added by `POST /words` leaves the dictionary as it was.
pub proof fn law_add_then_delete_restores(words: Seq<WordView>, d: WordData, delete_data: Option<WordData>)
    requires
        unique_words(words),
        nameable(d.0),
        !contains_word(words, d.0),
    ensures
        ({
            let post = dispatched(dictionary_routes(), request(HttpMethod::Post, "/words"@, Some(d)), words);
            dispatched(dictionary_routes(), request(HttpMethod::Delete, word_path(d.0), delete_data), post.2).2
                == words
        }),
{
    lemma_literals();
    lemma_dictionary_matches(d.0);
    lemma_word_path(d.0);
    law_add_then_delete(words, data_entry(d));
}

/// A `GET` never changes the dictionary.
pub proof fn law_reads_change_nothing(words: Seq<WordView>, path: Seq<char>, data: Option<WordData>)
    ensures
        dispatched(dictionary_routes(), request(HttpMethod::Get, path, data), words).2 == words,
{
    lemma_literals();
    let r = dictionary_routes();
    lemma_match_index_fits(r, HttpMethod::Get, path);
}

/// On a controller with the dictionary's routes, where a word a path can name
/// has no entry: `POST /words` of its entry is answered as added; `DELETE` of
/// its path then answers with no content and leaves the entries as they were
/// before the `POST`; and a `GET` of the path answers as it did before the
/// `POST`, that the word is not found.
pub proof fn law_delete_undoes_add(
    fc: &FrontController,
    d: WordData,
    delete_data: Option<WordData>,
    get_data: Option<WordData>,
)
    requires
        fc.wf(),
        fc.routes() == dictionary_routes(),
        nameable(d.0),
        !contains_word(fc.words(), d.0),
    ensures
        ({
            let words = fc.words();
            let post = dispatched(dictionary_routes(), request(HttpMethod::Post, "/words"@, Some(d)), words);
            let del = dispatched(dictionary_routes(), request(HttpMethod::Delete, word_path(d.0), delete_data), post.2);
            let get = request(HttpMethod::Get, word_path(d.0), get_data);
            &&& post.0 == HttpStatus::Created
            &&& post.1 == added_text(d.0)
            &&& del.0 == HttpStatus::NoContent
            &&& del.1 == Seq::<char>::empty()
            &&& del.2 == words
            &&& dispatched(dictionary_routes(), get, del.2) == dispatched(dictionary_routes(), get, words)
            &&& dispatched(dictionary_routes(), get, words) == (HttpStatus::NotFound, not_found_text(d.0), words)
        }),
{
    fc.lemma_wf_unique();
    let words = fc.words();
    law_added_word_is_found(words, d, get_data);
    law_add_then_delete_restores(words, d, delete_data);
    lemma_added_unique(words, data_entry(d));
    law_add_then_lookup(words, data_entry(d));
    law_deleted_word_is_not_found(with_added(words, data_entry(d)), d.0, delete_data, get_data);
    lemma_literals();
    lemma_dictionary_matches(d.0);
    lemma_word_path(d.0);
}

proof fn lemma_prefix_lacks(s: Seq<char>, c: char)
    ensures
        !s.take(find_char(s, c)).contains(c),
{
    lemma_find_char_bounds(s, c);
    let t = s.take(find_char(s, c));
    assert forall|j: int| 0 <= j < t.len() implies t[j] != c by {
        assert(t[j] == s[j]);
    }
}

/// Every entry read from a request body has a word that a path can name, and
/// is an entry that storage gives back.
pub proof fn law_read_entries_can_be_named_and_stored(b: Seq<char>)
    ensures
        parse_word_data(b) matches Some(d) ==> nameable(d.0) && storable(data_entry(d)),
{
    if let Some(d) = parse_word_data(b) {
        let n1 = find_char(b, '\n');
        let r1 = b.skip(n1 + 1);
        let n2 = find_char(r1, '\n');
        let r2 = r1.skip(n2 + 1);
        lemma_prefix_lacks(b, '\n');
        lemma_trim_lacks(b.take(n1), '\n');
        lemma_prefix_lacks(r2, '\n');
        lemma_trim_lacks(r2.take(find_char(r2, '\n')), '\n');
    }
}

/// Every entry that a request text carries has a word that a path can name,
/// and is an entry that storage gives back.
pub proof fn law_requests_carry_storable_entries(s: Seq<char>)
    ensures
        parse_request(s) matches Some(r) ==> (r.data matches Some(d) ==> nameable(d.0) && storable(
            data_entry(d),
        )),
{
    law_read_entries_can_be_named_and_stored(request_body(s));
}

/// `POST /words` of the data `(w, f, t)` for a word without an entry stores
/// exactly that entry: the word `w` then looks up to `(w, f, t)`; and where a
/// path can name `w`, a `GET` of its path answers 200 with the three lines
/// `w`, `f` in decimal and `t`, whole.
pub proof fn law_posted_entry_reads_back(words: Seq<WordView>, d: WordData, get_data: Option<WordData>)
    requires
        unique_words(words),
        !contains_word(words, d.0),
    ensures
        ({
            let post = dispatched(dictionary_routes(), request(HttpMethod::Post, "/words"@, Some(d)), words);
            &&& post.0 == HttpStatus::Created
            &&& lookup(post.2, d.0) == Some(WordView { word: d.0, frequency: d.1, translation: d.2 })
            &&& nameable(d.0) ==> dispatched(
                dictionary_routes(),
                request(HttpMethod::Get, word_path(d.0), get_data),
                post.2,
            ) == (
                HttpStatus::Success,
                d.0 + seq!['\n'] + decimal(d.1 as nat) + seq!['\n'] + d.2,
                post.2,
            )
        }),
{
    lemma_literals();
    lemma_dictionary_matches_collection();
    law_add_then_lookup(words, data_entry(d));
    law_entry_text_is_three_lines(data_entry(d));
    if nameable(d.0) {
        law_added_word_is_found(words, d, get_data);
    }
}

/// `PUT /words` of the data `(w, f, t)` for a word with an entry replaces it by
/// exactly that entry: `w` then looks up to `(w, f, t)`; and where a path can
/// name `w`, a `GET` of its path answers 200 with the three lines `w`, `f` in
/// decimal and `t`, whole.
pub proof fn law_put_entry_reads_back(words: Seq<WordView>, d: WordData, get_data: Option<WordData>)
    requires
        unique_words(words),
        contains_word(words, d.0),
    ensures
        ({
            let put = dispatched(dictionary_routes(), request(HttpMethod::Put, "/words"@, Some(d)), words);
            &&& put.0 == HttpStatus::NoContent
            &&& lookup(put.2, d.0) == Some(WordView { word: d.0, frequency: d.1, translation: d.2 })
            &&& nameable(d.0) ==> dispatched(
                dictionary_routes(),
                request(HttpMethod::Get, word_path(d.0), get_data),
                put.2,
            ) == (
                HttpStatus::Success,
                d.0 + seq!['\n'] + decimal(d.1 as nat) + seq!['\n'] + d.2,
                put.2,
            )
        }),
{
    lemma_literals();
    lemma_dictionary_matches_collection();
    law_update_then_lookup(words, data_entry(d));
    law_entry_text_is_three_lines(data_entry(d));
    if nameable(d.0) {
        law_updated_word_is_found(words, d, get_data);
    }
}

} // verus!
