use std::collections::HashMap;

use bookdata::authors::viaf_author_lang_table;
use bookdata::language::{Language, LanguageBag};
use bookdata::names::{NameEntry, NameFmt};

#[test]
fn language_parse_english_forms() {
    assert_eq!(Language::parse("English"), Language::English);
    assert_eq!(Language::parse("  eng "), Language::English);
    assert_eq!(Language::parse("Anglais"), Language::English);
    assert_eq!(Language::parse("Ingles"), Language::English);
}

#[test]
fn language_parse_unknown_forms() {
    assert_eq!(Language::parse("xxx"), Language::Unknown);
    assert_eq!(Language::parse("Female"), Language::Unknown);
    assert_eq!(Language::parse("male"), Language::Unknown);
    assert_eq!(Language::parse("  XXX\n"), Language::Unknown);
}

#[test]
fn language_parse_other() {
    assert_eq!(Language::parse("French"), Language::Other);
    assert_eq!(Language::parse("xxxx"), Language::Other);
    assert_eq!("fre".parse::<Language>().unwrap(), Language::Other);
}

#[test]
fn language_from_folded_is_case_sensitive() {
    assert_eq!(Language::from_folded("ENG"), Language::Other);
    assert_eq!(Language::from_folded("eng"), Language::English);
}

#[test]
fn language_merge_rules() {
    let open = Language::Open("fr".to_owned());
    assert_eq!(Language::Unknown.merge(&Language::English), Language::English);
    assert_eq!(Language::English.merge(&Language::Unknown), Language::English);
    assert_eq!(Language::English.merge(&Language::English), Language::English);
    assert_eq!(Language::English.merge(&Language::Other), Language::Unknown);
    assert_eq!(open.merge(&Language::Open("fr".to_owned())), open);
    assert_eq!(open.merge(&Language::Open("de".to_owned())), Language::Unknown);
}

#[test]
fn language_names() {
    assert_eq!(Language::Unknown.to_string(), "unknown");
    assert_eq!(Language::English.to_string(), "english");
    assert_eq!(Language::Other.to_string(), "other");
    assert_eq!(Language::Open("fr".to_owned()).to_string(), "fr");
    assert_eq!(Language::default(), Language::Unknown);
}

#[test]
fn bag_add_and_resolve() {
    let mut bag = LanguageBag::default();
    assert!(bag.is_empty());
    assert!(bag.maybe_language().is_none());
    assert_eq!(bag.to_language(), &Language::Unknown);
    bag.add(Language::English);
    bag.add(Language::Unknown);
    assert_eq!(bag.len(), 2);
    assert_eq!(bag.maybe_language(), Some(&Language::English));
    bag.add(Language::Other);
    assert_eq!(bag.to_language(), &Language::Unknown);
    assert_eq!(bag.len(), 3);
}

#[test]
fn bag_merge_from() {
    let mut a = LanguageBag::default();
    a.add(Language::English);
    let mut b = LanguageBag::default();
    b.add(Language::English);
    b.add(Language::English);
    a.merge_from(&b);
    assert_eq!(a.len(), 3);
    assert_eq!(a.to_language(), &Language::English);
    let empty = LanguageBag::default();
    a.merge_from(&empty);
    assert_eq!(a.len(), 3);
    assert_eq!(a.to_language(), &Language::English);
}

#[test]
fn name_entry_from_parts() {
    let e = NameEntry::from((NameFmt::Single("Plato".to_owned()), "428".to_owned()));
    assert!(matches!(e.name, NameFmt::Single(ref s) if s == "Plato"));
    assert_eq!(e.year, Some("428".to_owned()));
    let e: NameEntry = NameFmt::TwoPart("Austen".to_owned(), "Jane".to_owned()).into();
    assert!(matches!(e.name, NameFmt::TwoPart(_, _)));
    assert_eq!(e.year, None);
    let e = NameEntry::from(NameFmt::Empty);
    assert!(matches!(e.name, NameFmt::Empty));
}

#[test]
fn author_languages_combined_by_name() {
    let rec_names = vec![
        (1u32, vec!["Austen, Jane".to_owned(), "Jane Austen".to_owned()]),
        (2u32, vec!["Austen, Jane".to_owned()]),
        (3u32, vec!["Hugo, Victor".to_owned()]),
    ];
    let mut langs = HashMap::new();
    let mut b1 = LanguageBag::default();
    b1.add(Language::English);
    langs.insert(1u32, b1);
    let mut b2 = LanguageBag::default();
    b2.add(Language::English);
    b2.add(Language::Unknown);
    langs.insert(2u32, b2);
    let table = viaf_author_lang_table(&rec_names, &langs);
    assert_eq!(table.len(), 3);
    let austen = table.iter().find(|(n, _)| n == "Austen, Jane").unwrap();
    assert_eq!(austen.1.n_author_recs, 2);
    assert_eq!(austen.1.languages.len(), 3);
    assert_eq!(austen.1.languages.to_language(), &Language::English);
    let hugo = table.iter().find(|(n, _)| n == "Hugo, Victor").unwrap();
    assert_eq!(hugo.1.n_author_recs, 1);
    assert!(hugo.1.languages.is_empty());
    let other = table.iter().find(|(n, _)| n == "Jane Austen").unwrap();
    assert_eq!(other.1.n_author_recs, 1);
    assert_eq!(other.1.languages.len(), 1);
}

#[test]
fn language_from_conversions() {
    let l: Language = "ENGLISH ".into();
    assert_eq!(l, Language::English);
    assert_eq!(Language::from("Deutsch".to_owned()), Language::Other);
}
