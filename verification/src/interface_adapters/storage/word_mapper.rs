//! The text the dictionary is stored as: one entry per line, its word,
//! frequency and translation separated by tabs.
use vstd::prelude::*;

use crate::enterprise_business_rules::word::{view_option, view_words, Word, WordView};
use crate::text::{
    append_decimal, chars_of, decimal, find_char, find_char_in, is_digit,
    lemma_decimal_round_trip, lemma_find_char, parse_u32, parse_u32_in,
};

verus! {

/// The line that stores an entry.
pub open spec fn encode_entry(e: WordView) -> Seq<char> {
    e.word + seq!['\t'] + decimal(e.frequency as nat) + seq!['\t'] + e.translation + seq!['\n']
}

/// The text that stores the entries, in order.
pub open spec fn encode_all(ws: Seq<WordView>) -> Seq<char>
    decreases ws.len(),
{
    if ws.len() == 0 {
        Seq::empty()
    } else {
        encode_entry(ws[0]) + encode_all(ws.drop_first())
    }
}

/// The entry a line stores: a non-empty word up to the first tab, the
/// frequency in decimal up to the second, and the translation after it. A line
/// of another shape stores nothing.
pub open spec fn decode_line(line: Seq<char>) -> Option<WordView> {
    let t1 = find_char(line, '\t');
    let rest = line.skip(t1 + 1);
    let t2 = find_char(rest, '\t');
    if t1 >= line.len() || t2 >= rest.len() || t1 == 0 {
        None
    } else {
        match parse_u32(rest.take(t2)) {
            Some(f) => Some(WordView { word: line.take(t1), frequency: f, translation: rest.skip(t2 + 1) }),
            None => None,
        }
    }
}

/// The entries a text stores, line by line; lines that store nothing are skipped.
pub open spec fn decode_text(s: Seq<char>) -> Seq<WordView>
    decreases s.len(),
{
    let n = find_char(s, '\n');
    let here = match decode_line(s.take(n)) {
        Some(e) => seq![e],
        None => Seq::empty(),
    };
    if 0 <= n < s.len() {
        here + decode_text(s.skip(n + 1))
    } else {
        here
    }
}

/// An entry that a line can store and give back: its word is not empty and
/// holds no tab or line break, and its translation holds no line break.
pub open spec fn storable(e: WordView) -> bool {
    &&& e.word.len() > 0
    &&& !e.word.contains('\t')
    &&& !e.word.contains('\n')
    &&& !e.translation.contains('\n')
}

proof fn lemma_encode_all_push(ws: Seq<WordView>, e: WordView)
    ensures
        encode_all(ws.push(e)) == encode_all(ws) + encode_entry(e),
    decreases ws.len(),
{
    if ws.len() == 0 {
        assert(ws.push(e).drop_first() =~= Seq::<WordView>::empty());
        assert(ws.push(e)[0] == e);
        assert(encode_all(Seq::<WordView>::empty()) == Seq::<char>::empty());
        assert(encode_all(ws) == Seq::<char>::empty());
        assert(encode_all(ws.push(e)) =~= encode_entry(e) + Seq::<char>::empty());
    } else {
        assert(ws.push(e).drop_first() =~= ws.drop_first().push(e));
        lemma_encode_all_push(ws.drop_first(), e);
        assert(encode_all(ws.push(e)) =~= encode_all(ws) + encode_entry(e));
    }
}

proof fn lemma_decode_entry(e: WordView, r: Seq<char>)
    requires
        storable(e),
    ensures
        decode_text(encode_entry(e) + r) == seq![e] + decode_text(r),
{
    let d = decimal(e.frequency as nat);
    lemma_decimal_round_trip(e.frequency as nat);
    let s = encode_entry(e) + r;
    let line = e.word + seq!['\t'] + d + seq!['\t'] + e.translation;
    let k = line.len() as int;
    assert(s =~= line + seq!['\n'] + r);
    assert forall|j: int| 0 <= j < k implies s[j] != '\n' by {
        assert(s[j] == line[j]);
        if j < e.word.len() {
            assert(line[j] == e.word[j]);
        } else if j == e.word.len() {
        } else if j < e.word.len() + 1 + d.len() {
            assert(line[j] == d[j - e.word.len() - 1]);
            assert(is_digit(d[j - e.word.len() - 1]));
        } else if j == e.word.len() + 1 + d.len() {
        } else {
            assert(line[j] == e.translation[j - e.word.len() - 2 - d.len()]);
        }
    }
    lemma_find_char(s, '\n', k);
    assert(s.take(k) =~= line);
    assert(s.skip(k + 1) =~= r);
    // the line gives back the entry
    let w = e.word.len() as int;
    assert forall|j: int| 0 <= j < w implies line[j] != '\t' by {
        assert(line[j] == e.word[j]);
    }
    lemma_find_char(line, '\t', w);
    let rest = line.skip(w + 1);
    assert(rest =~= d + seq!['\t'] + e.translation);
    assert forall|j: int| 0 <= j < d.len() implies rest[j] != '\t' by {
        assert(rest[j] == d[j]);
        assert(is_digit(d[j]));
    }
    lemma_find_char(rest, '\t', d.len() as int);
    assert(rest.take(d.len() as int) =~= d);
    assert(rest.skip(d.len() as int + 1) =~= e.translation);
    assert(line.take(w) =~= e.word);
    assert(decode_line(line) == Some(e));
}

/// Reading back the text that stores entries gives the entries, where each
/// is storable.
pub proof fn law_decode_encode(ws: Seq<WordView>)
    requires
        forall|i: int| 0 <= i < ws.len() ==> storable(#[trigger] ws[i]),
    ensures
        decode_text(encode_all(ws)) == ws,
    decreases ws.len(),
{
    if ws.len() == 0 {
        assert(decode_line(Seq::<char>::empty()) is None);
        assert(Seq::<char>::empty().take(0) =~= Seq::<char>::empty());
        assert(decode_text(Seq::<char>::empty()) =~= Seq::<WordView>::empty());
    } else {
        let t = ws.drop_first();
        assert forall|i: int| 0 <= i < t.len() implies storable(#[trigger] t[i]) by {
            assert(t[i] == ws[i + 1]);
        }
        law_decode_encode(t);
        assert(storable(ws[0]));
        lemma_decode_entry(ws[0], encode_all(t));
        assert(seq![ws[0]] + t =~= ws);
    }
}

/// The entry that the line `v[lo..hi]` of `text` stores.
fn decode_line_in(text: &str, v: &Vec<char>, lo: usize, hi: usize) -> (r: Option<Word>)
    requires
        v@ == text@,
        lo <= hi <= v.len(),
    ensures
        view_option(r) == decode_line(v@.subrange(lo as int, hi as int)),
{
    let ghost line = v@.subrange(lo as int, hi as int);
    let t1 = find_char_in(v, lo, hi, '\t');
    if t1 == hi || t1 == lo {
        return None;
    }
    let ghost rest = line.skip(t1 - lo + 1);
    assert(rest =~= v@.subrange(t1 + 1, hi as int));
    let t2 = find_char_in(v, t1 + 1, hi, '\t');
    if t2 == hi {
        return None;
    }
    assert(rest.take(t2 - t1 - 1) =~= v@.subrange(t1 + 1, t2 as int));
    assert(line.take(t1 - lo) =~= v@.subrange(lo as int, t1 as int));
    assert(rest.skip(t2 - t1) =~= v@.subrange(t2 + 1, hi as int));
    match parse_u32_in(v, t1 + 1, t2) {
        Some(f) => {
            let word = text.substring_char(lo, t1).to_owned();
            let translation = text.substring_char(t2 + 1, hi).to_owned();
            Some(Word { word, frequency: f, translation })
        },
        None => None,
    }
}

/// The entries that a stored text holds.
pub fn decode(text: &str) -> (r: Vec<Word>)
    ensures
        view_words(r@) == decode_text(text@),
{
    let v = chars_of(text);
    let n = v.len();
    let mut out: Vec<Word> = Vec::new();
    let mut start: usize = 0;
    assert(v@.subrange(0, n as int) =~= v@);
    assert(view_words(out@) =~= Seq::<WordView>::empty());
    loop
        invariant
            n == v.len(),
            v@ == text@,
            start <= n,
            view_words(out@) + decode_text(v@.subrange(start as int, n as int)) == decode_text(v@),
        decreases n - start,
    {
        let ghost s = v@.subrange(start as int, n as int);
        let ghost before = view_words(out@);
        let end = find_char_in(&v, start, n, '\n');
        assert(s.take(end - start) =~= v@.subrange(start as int, end as int));
        let entry = decode_line_in(text, &v, start, end);
        match entry {
            Some(e) => {
                out.push(e);
                assert(view_words(out@) =~= before + seq![e@]);
            },
            None => {
                assert(view_words(out@) =~= before);
            },
        }
        if end == n {
            assert(view_words(out@) =~= before + decode_text(s));
            return out;
        }
        assert(s.skip(end - start + 1) =~= v@.subrange(end + 1, n as int));
        assert(view_words(out@) + decode_text(v@.subrange(end + 1, n as int)) =~= before + decode_text(s));
        start = end + 1;
    }
}

/// The text that stores `words`.
pub fn encode(words: &Vec<Word>) -> (r: String)
    ensures
        r@ == encode_all(view_words(words@)),
{
    let mut s = String::new();
    let mut i: usize = 0;
    assert(view_words(words@).take(0) =~= Seq::<WordView>::empty());
    while i < words.len()
        invariant
            i <= words.len(),
            s@ == encode_all(view_words(words@).take(i as int)),
        decreases words.len() - i,
    {
        let w = &words[i];
        s.append(w.word.as_str());
        s.append("\t");
        append_decimal(&mut s, w.frequency as u64);
        s.append("\t");
        s.append(w.translation.as_str());
        s.append("\n");
        proof {
            reveal_strlit("\t");
            reveal_strlit("\n");
            let ws = view_words(words@);
            assert(ws.take(i + 1) =~= ws.take(i as int).push(ws[i as int]));
            lemma_encode_all_push(ws.take(i as int), ws[i as int]);
            assert(s@ =~= encode_all(ws.take(i as int)) + encode_entry(ws[i as int]));
        }
        i = i + 1;
    }
    assert(view_words(words@).take(i as int) =~= view_words(words@));
    s
}

} // verus!
