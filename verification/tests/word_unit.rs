use dictionary::enterprise_business_rules::word::Word;
use dictionary::interface_adapters::storage::word_mapper::{decode, encode};
use dictionary::interface_adapters::storage::word_unit::WordUnit;

fn names(words: &[Word]) -> Vec<String> {
    words.iter().map(|w| w.word.clone()).collect()
}

#[test]
fn word_unit_starts_empty() {
    let unit = WordUnit::new();
    assert!(unit.all_words().is_empty());
    assert!(unit.stored_words().is_empty());
    assert!(unit.find("ability").is_none());
}

#[test]
fn word_unit_add_then_find() {
    let mut unit = WordUnit::new();
    assert!(unit.add(Word::new("ability", 1000, "способность")));
    let found = unit.find("ability").unwrap();
    assert_eq!(found.word, "ability");
    assert_eq!(found.frequency, 1000);
    assert_eq!(found.translation, "способность");
}

#[test]
fn word_unit_refuses_a_second_entry_for_a_word() {
    let mut unit = WordUnit::new();
    assert!(unit.add(Word::new("able", 1200, "способный")));
    assert!(!unit.add(Word::new("able", 1, "другое")));
    let found = unit.find("able").unwrap();
    assert_eq!(found.frequency, 1200);
    assert_eq!(found.translation, "способный");
    assert_eq!(unit.all_words().len(), 1);
}

#[test]
fn word_unit_update_then_find() {
    let mut unit = WordUnit::from_words(vec![Word::new("newword", 5000, "новое слово")]);
    assert!(unit.update(Word::new("newword", 7000, "новоеслово")));
    let found = unit.find("newword").unwrap();
    assert_eq!(found.frequency, 7000);
    assert_eq!(found.translation, "новоеслово");
    assert!(!unit.update(Word::new("missing", 1, "нет")));
    assert!(unit.find("missing").is_none());
}

#[test]
fn word_unit_delete_then_find() {
    let mut unit = WordUnit::from_words(vec![
        Word::new("a", 25000, "неопределённый артикль"),
        Word::new("ability", 1000, "способность"),
    ]);
    assert!(unit.delete("a"));
    assert!(unit.find("a").is_none());
    assert!(!unit.delete("a"));
    assert_eq!(names(&unit.all_words()), vec!["ability".to_owned()]);
}

#[test]
fn word_unit_add_then_delete_restores() {
    let mut unit = WordUnit::from_words(vec![
        Word::new("a", 25000, "неопределённый артикль"),
        Word::new("able", 1200, "способный"),
    ]);
    let before = names(&unit.all_words());
    assert!(unit.add(Word::new("ability", 1000, "способность")));
    assert!(unit.delete("ability"));
    assert_eq!(names(&unit.all_words()), before);
}

#[test]
fn word_unit_leaves_other_words_alone() {
    let mut unit = WordUnit::from_words(vec![
        Word::new("a", 25000, "неопределённый артикль"),
        Word::new("able", 1200, "способный"),
    ]);
    unit.add(Word::new("ability", 1000, "способность"));
    unit.update(Word::new("able", 1300, "умелый"));
    unit.delete("a");
    let found = unit.find("ability").unwrap();
    assert_eq!(found.frequency, 1000);
    assert_eq!(found.translation, "способность");
}

#[test]
fn word_unit_from_words_skips_repeated_words() {
    let unit = WordUnit::from_words(vec![
        Word::new("a", 1, "первое"),
        Word::new("b", 2, "второе"),
        Word::new("a", 3, "третье"),
    ]);
    assert_eq!(names(&unit.all_words()), vec!["a".to_owned(), "b".to_owned()]);
    assert_eq!(unit.find("a").unwrap().frequency, 1);
    assert_eq!(names(&unit.stored_words()), vec!["a".to_owned(), "b".to_owned()]);
}

#[test]
fn word_unit_commit_stores_current_entries() {
    let mut unit = WordUnit::from_words(vec![Word::new("a", 1, "первое")]);
    unit.add(Word::new("b", 2, "второе"));
    assert_eq!(names(&unit.stored_words()), vec!["a".to_owned()]);
    unit.commit();
    assert_eq!(names(&unit.stored_words()), vec!["a".to_owned(), "b".to_owned()]);
    assert_eq!(names(&unit.all_words()), vec!["a".to_owned(), "b".to_owned()]);
}

#[test]
fn word_mapper_encodes_one_line_per_entry() {
    let words = vec![
        Word::new("ability", 1000, "способность"),
        Word::new("a", 0, "неопределённый артикль"),
    ];
    assert_eq!(
        encode(&words),
        "ability\t1000\tспособность\na\t0\tнеопределённый артикль\n"
    );
    assert_eq!(encode(&Vec::new()), "");
}

#[test]
fn word_mapper_reads_back_what_it_wrote() {
    let words = vec![
        Word::new("ability", 1000, "способность"),
        Word::new("able", 4294967295, "способный\tумелый"),
        Word::new("a", 0, ""),
    ];
    let back = decode(&encode(&words));
    assert_eq!(back.len(), 3);
    for (w, b) in words.iter().zip(back.iter()) {
        assert_eq!(w.word, b.word);
        assert_eq!(w.frequency, b.frequency);
        assert_eq!(w.translation, b.translation);
    }
}

#[test]
fn word_mapper_skips_lines_of_another_shape() {
    let text = "ability\t1000\tспособность\n\tno word\t1\nbad\tfrequency\tx\nshort\t5\n\nable\t7\tспособный";
    let words = decode(text);
    assert_eq!(names(&words), vec!["ability".to_owned(), "able".to_owned()]);
    assert_eq!(words[1].frequency, 7);
    assert_eq!(words[1].translation, "способный");
    assert!(decode("").is_empty());
    assert!(decode("big\t4294967296\tслишком\n").is_empty());
}
