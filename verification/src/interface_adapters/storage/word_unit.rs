//! The unit of work over the dictionary: it holds the entries as they were
//! last stored and the entries as the requests since then have left them, and
//! makes the second the first on commit.
use vstd::prelude::*;

use crate::enterprise_business_rules::word::{
    contains_word, lemma_added_unique, lemma_deleted_unique, lemma_position_of, lemma_updated_unique,
    lookup, position_of, unique_words, view_option, view_words, with_added, with_deleted,
    with_updated, words_loaded, Word, WordView,
};
use crate::text::str_eq;

verus! {

pub struct WordUnit {
    stored: Vec<Word>,
    current: Vec<Word>,
}

impl View for WordUnit {
    type V = Seq<WordView>;

    /// The entries as requests see them, in the order they were added.
    closed spec fn view(&self) -> Seq<WordView> {
        view_words(self.current@)
    }
}

/// The position of the entry of `word` in `words`, if there is one.
fn position(words: &Vec<Word>, word: &str) -> (r: Option<usize>)
    requires
        unique_words(view_words(words@)),
    ensures
        match r {
            Some(i) => i < words.len() && contains_word(view_words(words@), word@)
                && position_of(view_words(words@), word@) == i,
            None => !contains_word(view_words(words@), word@),
        },
{
    let ghost s = view_words(words@);
    let mut i: usize = 0;
    while i < words.len()
        invariant
            i <= words.len(),
            s == view_words(words@),
            unique_words(s),
            forall|j: int| 0 <= j < i ==> (#[trigger] s[j]).word != word@,
        decreases words.len() - i,
    {
        if str_eq(words[i].word.as_str(), word) {
            proof {
                lemma_position_of(s, i as int);
            }
            return Some(i);
        }
        i = i + 1;
    }
    None
}

fn copy_all(words: &Vec<Word>) -> (r: Vec<Word>)
    ensures
        view_words(r@) == view_words(words@),
{
    let mut r: Vec<Word> = Vec::new();
    let mut i: usize = 0;
    while i < words.len()
        invariant
            i <= words.len(),
            r.len() == i,
            forall|k: int| 0 <= k < i ==> (#[trigger] r@[k])@ == words@[k]@,
        decreases words.len() - i,
    {
        r.push(words[i].copied());
        i = i + 1;
    }
    assert(view_words(r@) =~= view_words(words@));
    r
}

impl WordUnit {
    /// The entries as they were last stored.
    pub closed spec fn stored(&self) -> Seq<WordView> {
        view_words(self.stored@)
    }

    /// No word has two entries, in what is stored and in what is current.
    pub closed spec fn wf(&self) -> bool {
        &&& unique_words(view_words(self.current@))
        &&& unique_words(view_words(self.stored@))
    }

    /// A well-formed unit holds at most one entry per word, in what requests
    /// see and in what is stored.
    pub proof fn lemma_wf_unique(&self)
        requires
            self.wf(),
        ensures
            unique_words(self@),
            unique_words(self.stored()),
    {
    }

    /// An empty dictionary.
    pub fn new() -> (r: WordUnit)
        ensures
            r.wf(),
            r@ == Seq::<WordView>::empty(),
            r.stored() == Seq::<WordView>::empty(),
    {
        let r = WordUnit { stored: Vec::new(), current: Vec::new() };
        assert(view_words(r.current@) =~= Seq::<WordView>::empty());
        r
    }

    /// The dictionary that storage holds: the entries are taken in order, and
    /// one whose word came before is skipped.
    pub fn from_words(words: Vec<Word>) -> (r: WordUnit)
        ensures
            r.wf(),
            r@ == words_loaded(view_words(words@)),
            r.stored() == r@,
    {
        let mut unit = WordUnit::new();
        let mut i: usize = 0;
        while i < words.len()
            invariant
                i <= words.len(),
                unit.wf(),
                unit@ == words_loaded(view_words(words@).take(i as int)),
            decreases words.len() - i,
        {
            unit.add(words[i].copied());
            proof {
                let t = view_words(words@).take(i + 1);
                assert(t.drop_last() =~= view_words(words@).take(i as int));
                assert(t.last() == words@[i as int]@);
            }
            i = i + 1;
        }
        assert(view_words(words@).take(i as int) =~= view_words(words@));
        unit.commit();
        unit
    }

    /// The entry of `word`, if there is one.
    pub fn find(&self, word: &str) -> (r: Option<Word>)
        requires
            self.wf(),
        ensures
            view_option(r) == lookup(self@, word@),
    {
        match position(&self.current, word) {
            Some(i) => Some(self.current[i].copied()),
            None => None,
        }
    }

    /// All entries, in the order they were added.
    pub fn all_words(&self) -> (r: Vec<Word>)
        ensures
            view_words(r@) == self@,
    {
        copy_all(&self.current)
    }

    /// The entries as they were last stored, for writing them out.
    pub fn stored_words(&self) -> (r: Vec<Word>)
        ensures
            view_words(r@) == self.stored(),
    {
        copy_all(&self.stored)
    }

    /// Adds `word` unless its word already has an entry; says whether it did.
    pub fn add(&mut self, word: Word) -> (r: bool)
        requires
            old(self).wf(),
        ensures
            final(self).wf(),
            r == !contains_word(old(self)@, word@.word),
            final(self)@ == with_added(old(self)@, word@),
            final(self).stored() == old(self).stored(),
    {
        proof {
            lemma_added_unique(self@, word@);
        }
        match position(&self.current, word.word.as_str()) {
            Some(_) => false,
            None => {
                let ghost w = word@;
                self.current.push(word);
                assert(view_words(self.current@) =~= view_words(old(self).current@).push(w));
                true
            },
        }
    }

    /// Replaces the entry of `word.word` by `word`, if there is one; says
    /// whether there was.
    pub fn update(&mut self, word: Word) -> (r: bool)
        requires
            old(self).wf(),
        ensures
            final(self).wf(),
            r == contains_word(old(self)@, word@.word),
            final(self)@ == with_updated(old(self)@, word@),
            final(self).stored() == old(self).stored(),
    {
        proof {
            lemma_updated_unique(self@, word@);
        }
        match position(&self.current, word.word.as_str()) {
            Some(i) => {
                let ghost w = word@;
                self.current.set(i, word);
                assert(view_words(self.current@) =~= view_words(old(self).current@).update(i as int, w));
                true
            },
            None => false,
        }
    }

    /// Removes the entry of `word`, if there is one; says whether there was.
    pub fn delete(&mut self, word: &str) -> (r: bool)
        requires
            old(self).wf(),
        ensures
            final(self).wf(),
            r == contains_word(old(self)@, word@),
            final(self)@ == with_deleted(old(self)@, word@),
            final(self).stored() == old(self).stored(),
    {
        proof {
            lemma_deleted_unique(self@, word@);
        }
        match position(&self.current, word) {
            Some(i) => {
                self.current.remove(i);
                assert(view_words(self.current@) =~= view_words(old(self).current@).remove(i as int));
                true
            },
            None => false,
        }
    }

    /// Makes the current entries the stored ones.
    pub fn commit(&mut self)
        requires
            old(self).wf(),
        ensures
            final(self).wf(),
            final(self)@ == old(self)@,
            final(self).stored() == old(self)@,
    {
        self.stored = copy_all(&self.current);
    }
}

} // verus!
