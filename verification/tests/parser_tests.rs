use conjugator::lang::pt::{
    person_to_person, process_document, process_tense, ConjugationRow, ParseError,
    PtPersonalPronoun, PtVerbSuffix, PtVocabularyVerb,
};

fn vocab(pt: &str, en: &str) -> PtVocabularyVerb {
    PtVocabularyVerb {
        pt: String::from(pt),
        en: String::from(en),
        comments: None,
    }
}

fn row(person: &str, root: Option<&str>, regular: Option<&str>, irregular: Option<&str>) -> ConjugationRow {
    ConjugationRow {
        person: String::from(person),
        root: root.map(String::from),
        regular: regular.map(String::from),
        irregular: irregular.map(String::from),
    }
}

#[test]
fn test_person_to_person_labels() {
    assert_eq!(person_to_person("eu"), Some(PtPersonalPronoun::S1));
    assert_eq!(person_to_person("tu"), Some(PtPersonalPronoun::S2));
    assert_eq!(person_to_person("ele/ela/você"), Some(PtPersonalPronoun::S3));
    assert_eq!(person_to_person("nós"), Some(PtPersonalPronoun::P1));
    assert_eq!(person_to_person("vós"), Some(PtPersonalPronoun::P2));
    assert_eq!(person_to_person("eles/elas/vocês"), Some(PtPersonalPronoun::P3));
    assert_eq!(person_to_person("they"), None);
    assert_eq!(person_to_person(""), None);
}

#[test]
fn test_ambiguous_row_rejected() {
    let rows = vec![row("eu", Some("fal"), Some("o"), Some("o"))];
    let r = process_tense(&vocab("falar", "to speak"), &rows);
    assert_eq!(r.err(), Some(ParseError::AmbiguousConjugation));
}

#[test]
fn test_unmarked_row_rejected() {
    let rows = vec![row("eu", Some("fal"), None, None)];
    let r = process_tense(&vocab("falar", "to speak"), &rows);
    assert_eq!(r.err(), Some(ParseError::MissingConjugation));
}

#[test]
fn test_unknown_person_rejected() {
    let rows = vec![row("yo", Some("fal"), Some("o"), None)];
    let r = process_tense(&vocab("falar", "to speak"), &rows);
    assert_eq!(r.err(), Some(ParseError::InvalidPerson));
}

#[test]
fn test_duplicate_person_rejected() {
    let rows = vec![
        row("eu", Some("fal"), Some("o"), None),
        row("eu", Some("fal"), Some("o"), None),
    ];
    let r = process_tense(&vocab("falar", "to speak"), &rows);
    assert_eq!(r.err(), Some(ParseError::DuplicatePerson));
}

#[test]
fn test_partial_table_accepted() {
    let rows = vec![
        row("eu", Some("fal"), Some("o"), None),
        row("tu", Some("fal"), Some("as"), None),
        row("nós", Some("fal"), Some("amos"), None),
        row("vós", Some("fal"), Some("ais"), None),
    ];
    let table = process_tense(&vocab("falar", "to speak"), &rows).unwrap();
    assert_eq!(table.conjugations.len(), 4);
    assert!(table.contains_person(PtPersonalPronoun::S1));
    assert!(table.contains_person(PtPersonalPronoun::S2));
    assert!(table.contains_person(PtPersonalPronoun::P1));
    assert!(table.contains_person(PtPersonalPronoun::P2));
    assert!(!table.contains_person(PtPersonalPronoun::S3));
    assert!(!table.contains_person(PtPersonalPronoun::P3));
}

#[test]
fn test_row_contents_preserved() {
    let rows = vec![
        row("eu", Some("fal"), Some("o"), None),
        row("tu", None, None, Some("és")),
    ];
    let table = process_tense(&vocab("falar", "to speak"), &rows).unwrap();
    assert_eq!(table.vocabulary.pt, "falar");
    assert_eq!(table.vocabulary.en, "to speak");

    let (p0, c0) = &table.conjugations[0];
    assert_eq!(*p0, PtPersonalPronoun::S1);
    assert_eq!(c0.root.as_deref(), Some("fal"));
    match &c0.suffix {
        PtVerbSuffix::Regular(s) => assert_eq!(s, "o"),
        PtVerbSuffix::Irregular(_) => panic!("expected a regular suffix"),
    }

    let (p1, c1) = &table.conjugations[1];
    assert_eq!(*p1, PtPersonalPronoun::S2);
    assert_eq!(c1.root, None);
    match &c1.suffix {
        PtVerbSuffix::Regular(_) => panic!("expected an irregular suffix"),
        PtVerbSuffix::Irregular(s) => assert_eq!(s, "és"),
    }
}

fn document(blocks: &str) -> String {
    format!(
        "<html><body><div class=\"result-block-api\"><div class=\"word-wrap-row\">\
         <div class=\"wrap-three-col\">{}</div></div></div></body></html>",
        blocks
    )
}

fn block(tense: &str, items: &str) -> String {
    format!(
        "<div class=\"blue-box-wrap\"><p>{}</p><ul>{}</ul></div>",
        tense, items
    )
}

fn regular_item(person: &str, root: &str, suffix: &str) -> String {
    format!(
        "<li><i>{}</i><i><i class=\"verbtxt\">{}</i><i class=\"verbtxt-term\">{}</i></i></li>",
        person, root, suffix
    )
}

fn irregular_item(person: &str, suffix: &str) -> String {
    format!(
        "<li><i>{}</i><i><i class=\"verbtxt-term-irr\">{}</i></i></li>",
        person, suffix
    )
}

#[test]
fn test_present_tense_selected() {
    let present = block(
        "Presente",
        &format!("{}{}", regular_item("eu", "fal", "o"), regular_item("tu", "fal", "as")),
    );
    let past = block("Pretérito Perfeito", &regular_item("eu", "fal", "ei"));
    let html = document(&format!("{}{}", past, present));

    let table = process_document(&vocab("falar", "to speak"), &html).unwrap();
    assert_eq!(table.conjugations.len(), 2);
    let (p, c) = &table.conjugations[0];
    assert_eq!(*p, PtPersonalPronoun::S1);
    match &c.suffix {
        PtVerbSuffix::Regular(s) => assert_eq!(s, "o"),
        PtVerbSuffix::Irregular(_) => panic!("expected a regular suffix"),
    }
}

#[test]
fn test_missing_present_tense_rejected() {
    let past = block("Pretérito Perfeito", &regular_item("eu", "fal", "ei"));
    let html = document(&past);
    let r = process_document(&vocab("falar", "to speak"), &html);
    assert_eq!(r.err(), Some(ParseError::TenseNotFound));
}

#[test]
fn test_ambiguous_markup_rejected() {
    let item = "<li><i>eu</i><i><i class=\"verbtxt-term\">o</i>\
                <i class=\"verbtxt-term-irr\">ou</i></i></li>";
    let html = document(&block("Presente", item));
    let r = process_document(&vocab("falar", "to speak"), &html);
    assert_eq!(r.err(), Some(ParseError::AmbiguousConjugation));
}

#[test]
fn test_process_document_full_paradigm() {
    let items = format!(
        "{}{}{}{}{}{}",
        irregular_item("eu", "sou"),
        irregular_item("tu", "és"),
        irregular_item("ele/ela/você", "é"),
        irregular_item("nós", "somos"),
        irregular_item("vós", "sois"),
        irregular_item("eles/elas/vocês", "são"),
    );
    let html = document(&block("Presente", &items));

    let table = process_document(&vocab("ser", "to be"), &html).unwrap();
    assert_eq!(table.conjugations.len(), 6);
    assert!(table.contains_person(PtPersonalPronoun::S1));
    assert!(table.contains_person(PtPersonalPronoun::S2));
    assert!(table.contains_person(PtPersonalPronoun::S3));
    assert!(table.contains_person(PtPersonalPronoun::P1));
    assert!(table.contains_person(PtPersonalPronoun::P2));
    assert!(table.contains_person(PtPersonalPronoun::P3));
}

#[test]
fn test_concrete_scenario_parse_and_sync() {
    let items = format!(
        "{}{}{}{}{}{}",
        irregular_item("eu", "sou"),
        irregular_item("tu", "és"),
        irregular_item("ele/ela/você", "é"),
        irregular_item("nós", "somos"),
        irregular_item("vós", "sois"),
        irregular_item("eles/elas/vocês", "são"),
    );
    let html = document(&block("Presente", &items));
    let table = process_document(&vocab("ser", "to be"), &html).unwrap();
    assert_eq!(table.conjugations.len(), 6);

    let mut handler = conjugator::anki::AnkiHandler::from_collection(
        conjugator::anki::Collection::new(),
    );
    handler.add_verb(&table).unwrap();
    let found = handler.collection.search_notes_unordered("ser");
    assert_eq!(found.len(), 1);
    let note = handler.collection.get_note(found[0]).unwrap();
    assert_eq!(note.deck, "Portuguese");
    assert_eq!(note.notetype, "Conjugator");
    assert_eq!(note.fields[0], "ser");
    assert_eq!(note.fields[1], "to be");
}
