//! The dictionary entry and the rules of a collection of entries in which each
//! word occurs at most once.
use vstd::prelude::*;

verus! {

/// A dictionary entry: an English word, how common it is, and its translation.
#[derive(Debug)]
pub struct Word {
    pub word: String,
    pub frequency: u32,
    pub translation: String,
}

/// The value of a [`Word`]: its three parts as plain values.
pub struct WordView {
    pub word: Seq<char>,
    pub frequency: u32,
    pub translation: Seq<char>,
}

impl View for Word {
    type V = WordView;

    open spec fn view(&self) -> WordView {
        WordView { word: self.word@, frequency: self.frequency, translation: self.translation@ }
    }
}

impl Word {
    pub fn new(word: &str, frequency: u32, translation: &str) -> (r: Word)
        ensures
            r@ == (WordView { word: word@, frequency, translation: translation@ }),
    {
        Word { word: word.to_owned(), frequency, translation: translation.to_owned() }
    }

    /// A second entry with the same value.
    pub fn copied(&self) -> (r: Word)
        ensures
            r@ == self@,
    {
        Word {
            word: self.word.clone(),
            frequency: self.frequency,
            translation: self.translation.clone(),
        }
    }
}

/// The values of a sequence of entries.
pub open spec fn view_words(v: Seq<Word>) -> Seq<WordView> {
    v.map_values(|x: Word| x@)
}

/// The value of an entry that may be absent.
pub open spec fn view_option(o: Option<Word>) -> Option<WordView> {
    match o {
        Some(w) => Some(w@),
        None => None,
    }
}

pub open spec fn contains_word(s: Seq<WordView>, w: Seq<char>) -> bool {
    exists|i: int| 0 <= i < s.len() && (#[trigger] s[i]).word == w
}

/// No word has two entries.
pub open spec fn unique_words(s: Seq<WordView>) -> bool {
    forall|i: int, j: int|
        0 <= i < s.len() && 0 <= j < s.len() && i != j ==> (#[trigger] s[i]).word != (#[trigger] s[j]).word
}

/// Where the entry of `w` stands in `s` (meaningful where `contains_word(s, w)`).
pub open spec fn position_of(s: Seq<WordView>, w: Seq<char>) -> int {
    choose|i: int| 0 <= i < s.len() && (#[trigger] s[i]).word == w
}

/// The entry of `w` in `s`, if there is one.
pub open spec fn lookup(s: Seq<WordView>, w: Seq<char>) -> Option<WordView> {
    if contains_word(s, w) {
        Some(s[position_of(s, w)])
    } else {
        None
    }
}

/// `s` with `e` appended, unless its word already has an entry.
pub open spec fn with_added(s: Seq<WordView>, e: WordView) -> Seq<WordView> {
    if contains_word(s, e.word) {
        s
    } else {
        s.push(e)
    }
}

/// `s` with the entry of `e.word` replaced by `e`, if there is one.
pub open spec fn with_updated(s: Seq<WordView>, e: WordView) -> Seq<WordView> {
    if contains_word(s, e.word) {
        s.update(position_of(s, e.word), e)
    } else {
        s
    }
}

/// `s` without the entry of `w`.
pub open spec fn with_deleted(s: Seq<WordView>, w: Seq<char>) -> Seq<WordView> {
    if contains_word(s, w) {
        s.remove(position_of(s, w))
    } else {
        s
    }
}

/// The collection that adding the entries of `s` one by one, in order, gives:
/// an entry whose word already has one is skipped.
pub open spec fn words_loaded(s: Seq<WordView>) -> Seq<WordView>
    decreases s.len(),
{
    if s.len() == 0 {
        Seq::empty()
    } else {
        with_added(words_loaded(s.drop_last()), s.last())
    }
}

pub proof fn lemma_position_of(s: Seq<WordView>, i: int)
    requires
        unique_words(s),
        0 <= i < s.len(),
    ensures
        contains_word(s, s[i].word),
        position_of(s, s[i].word) == i,
        lookup(s, s[i].word) == Some(s[i]),
{
    assert(contains_word(s, s[i].word));
    let p = position_of(s, s[i].word);
    assert(0 <= p < s.len() && s[p].word == s[i].word);
}

pub proof fn lemma_added_unique(s: Seq<WordView>, e: WordView)
    requires
        unique_words(s),
    ensures
        unique_words(with_added(s, e)),
{
    if !contains_word(s, e.word) {
        let t = s.push(e);
        assert forall|i: int, j: int|
            0 <= i < t.len() && 0 <= j < t.len() && i != j implies (#[trigger] t[i]).word != (#[trigger] t[j]).word by {
            if i == s.len() {
                assert(t[j] == s[j]);
            } else if j == s.len() {
                assert(t[i] == s[i]);
            } else {
                assert(t[i] == s[i] && t[j] == s[j]);
            }
        }
    }
}

pub proof fn lemma_updated_unique(s: Seq<WordView>, e: WordView)
    requires
        unique_words(s),
    ensures
        unique_words(with_updated(s, e)),
{
    if contains_word(s, e.word) {
        let p = position_of(s, e.word);
        let t = s.update(p, e);
        assert forall|i: int, j: int|
            0 <= i < t.len() && 0 <= j < t.len() && i != j implies (#[trigger] t[i]).word != (#[trigger] t[j]).word by {
            if i == p {
                assert(t[j] == s[j]);
                assert(s[p].word == e.word);
            } else if j == p {
                assert(t[i] == s[i]);
                assert(s[p].word == e.word);
            } else {
                assert(t[i] == s[i] && t[j] == s[j]);
            }
        }
    }
}

pub proof fn lemma_deleted_unique(s: Seq<WordView>, w: Seq<char>)
    requires
        unique_words(s),
    ensures
        unique_words(with_deleted(s, w)),
{
    if contains_word(s, w) {
        let p = position_of(s, w);
        let t = s.remove(p);
        assert forall|i: int, j: int|
            0 <= i < t.len() && 0 <= j < t.len() && i != j implies (#[trigger] t[i]).word != (#[trigger] t[j]).word by {
            let i2 = if i < p { i } else { i + 1 };
            let j2 = if j < p { j } else { j + 1 };
            assert(t[i] == s[i2] && t[j] == s[j2]);
        }
    }
}

pub proof fn lemma_loaded_unique(s: Seq<WordView>)
    ensures
        unique_words(words_loaded(s)),
    decreases s.len(),
{
    if s.len() > 0 {
        lemma_loaded_unique(s.drop_last());
        lemma_added_unique(words_loaded(s.drop_last()), s.last());
    }
}

/// After an entry is added whose word had none, looking the word up gives
/// that entry; where the word already had one, adding changes nothing.
pub proof fn law_add_then_lookup(s: Seq<WordView>, e: WordView)
    requires
        unique_words(s),
    ensures
        !contains_word(s, e.word) ==> lookup(with_added(s, e), e.word) == Some(e),
        contains_word(s, e.word) ==> with_added(s, e) == s,
{
    if !contains_word(s, e.word) {
        lemma_added_unique(s, e);
        lemma_position_of(s.push(e), s.len() as int);
    }
}

/// After the entry of a word is updated, looking the word up gives the new entry.
pub proof fn law_update_then_lookup(s: Seq<WordView>, e: WordView)
    requires
        unique_words(s),
        contains_word(s, e.word),
    ensures
        lookup(with_updated(s, e), e.word) == Some(e),
{
    lemma_updated_unique(s, e);
    let p = position_of(s, e.word);
    let t = s.update(p, e);
    lemma_position_of(t, p);
}

/// After the entry of a word is deleted, the word is not found.
pub proof fn law_delete_then_lookup(s: Seq<WordView>, w: Seq<char>)
    requires
        unique_words(s),
    ensures
        lookup(with_deleted(s, w), w) == None::<WordView>,
{
    if contains_word(s, w) {
        let p = position_of(s, w);
        let t = s.remove(p);
        if contains_word(t, w) {
            let k = choose|k: int| 0 <= k < t.len() && (#[trigger] t[k]).word == w;
            let k2 = if k < p { k } else { k + 1 };
            assert(t[k] == s[k2]);
        }
    }
}

/// Adding, updating or deleting the entry of one word leaves what every other
/// word looks up to unchanged.
pub proof fn law_other_words_unchanged(s: Seq<WordView>, e: WordView, w: Seq<char>)
    requires
        unique_words(s),
        w != e.word,
    ensures
        lookup(with_added(s, e), w) == lookup(s, w),
        lookup(with_updated(s, e), w) == lookup(s, w),
        lookup(with_deleted(s, e.word), w) == lookup(s, w),
{
    lemma_added_unique(s, e);
    lemma_updated_unique(s, e);
    lemma_deleted_unique(s, e.word);
    if contains_word(s, w) {
        let i = position_of(s, w);
        lemma_position_of(s, i);
        if !contains_word(s, e.word) {
            lemma_position_of(s.push(e), i);
        } else {
            let p = position_of(s, e.word);
            assert(p != i);
            let t = s.update(p, e);
            lemma_position_of(t, i);
            let r = s.remove(p);
            let i2 = if i < p { i } else { i - 1 };
            assert(r[i2] == s[i]);
            lemma_position_of(r, i2);
        }
    } else {
        let a = with_added(s, e);
        if contains_word(a, w) {
            let k = choose|k: int| 0 <= k < a.len() && (#[trigger] a[k]).word == w;
            assert(k < s.len() ==> a[k] == s[k]);
        }
        if contains_word(s, e.word) {
            let p = position_of(s, e.word);
            let t = s.update(p, e);
            if contains_word(t, w) {
                let k = choose|k: int| 0 <= k < t.len() && (#[trigger] t[k]).word == w;
                assert(k != p ==> t[k] == s[k]);
            }
            let r = s.remove(p);
            if contains_word(r, w) {
                let k = choose|k: int| 0 <= k < r.len() && (#[trigger] r[k]).word == w;
                let k2 = if k < p { k } else { k + 1 };
                assert(r[k] == s[k2]);
            }
        }
    }
}

/// Deleting a word just added undoes the addition.
pub proof fn law_add_then_delete(s: Seq<WordView>, e: WordView)
    requires
        unique_words(s),
        !contains_word(s, e.word),
    ensures
        with_deleted(with_added(s, e), e.word) == s,
{
    lemma_added_unique(s, e);
    let t = s.push(e);
    lemma_position_of(t, s.len() as int);
    assert(t.remove(s.len() as int) =~= s);
}

} // verus!
