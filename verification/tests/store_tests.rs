use conjugator::anki::pt::SyncError;
use conjugator::anki::{create_notetype, AnkiHandler, Collection};
use conjugator::lang::pt::{PtVerbConjugations, PtVocabularyVerb};

fn verb(pt: &str, en: &str) -> PtVerbConjugations {
    PtVerbConjugations {
        vocabulary: PtVocabularyVerb {
            pt: String::from(pt),
            en: String::from(en),
            comments: None,
        },
        conjugations: Vec::new(),
    }
}

#[test]
fn test_notetype_creation() {
    let mut collection = Collection::new();
    let notetype = create_notetype(&mut collection);

    assert_eq!(notetype.fields.len(), 5);
    assert_eq!(notetype.fields[0].name, "Source");
    assert_eq!(notetype.fields[1].name, "Target");
    assert_eq!(notetype.fields[2].name, "Comment");
    assert_eq!(notetype.fields[3].name, "AudioA");
    assert_eq!(notetype.fields[4].name, "AudioB");
}

#[test]
fn test_add_verb_idempotence() {
    let collection = Collection::new();
    let mut anki_handler = AnkiHandler::from_collection(collection);

    let verb_a = verb("x", "a");
    let verb_b = verb("x", "b");

    anki_handler.add_verb(&verb_a).unwrap();
    let verb_a_search = anki_handler.collection.search_notes_unordered("x");
    assert_eq!(verb_a_search.len(), 1);
    let note_id = verb_a_search[0];

    let verb_a_note = anki_handler.collection.get_note(note_id).unwrap();
    assert_eq!(verb_a_note.fields[0], "x");
    assert_eq!(verb_a_note.fields[1], "a");

    anki_handler.add_verb(&verb_b).unwrap();
    let verb_a_note = anki_handler.collection.get_note(note_id).unwrap();
    assert_eq!(verb_a_note.fields[0], "x");
    assert_eq!(verb_a_note.fields[1], "b");
}

#[test]
fn test_sync_twice_stores_one_record() {
    let mut handler = AnkiHandler::from_collection(Collection::new());
    let v = verb("ser", "to be");

    handler.add_verb(&v).unwrap();
    handler.add_verb(&v).unwrap();

    let found = handler.collection.search_notes_unordered("ser");
    assert_eq!(found.len(), 1);
    let note = handler.collection.get_note(found[0]).unwrap();
    assert_eq!(note.deck, "Portuguese");
    assert_eq!(note.notetype, "Conjugator");
    assert_eq!(note.fields.len(), 5);
    assert_eq!(note.fields[0], "ser");
    assert_eq!(note.fields[1], "to be");
    assert_eq!(note.fields[2], "");
    assert_eq!(note.fields[3], "");
    assert_eq!(note.fields[4], "");
}

#[test]
fn test_update_keeps_identity_and_audio() {
    let mut handler = AnkiHandler::from_collection(Collection::new());
    let id = handler.collection.add_note(
        vec![
            String::from("x"),
            String::from("a"),
            String::from("old comment"),
            String::from("[sound:a.ogg]"),
            String::from("[sound:b.ogg]"),
        ],
        "Portuguese",
        "Conjugator",
    );

    handler.add_verb(&verb("x", "b")).unwrap();

    let found = handler.collection.search_notes_unordered("x");
    assert_eq!(found.len(), 1);
    assert_eq!(found[0], id);
    let note = handler.collection.get_note(id).unwrap();
    assert_eq!(note.fields[0], "x");
    assert_eq!(note.fields[1], "b");
    assert_eq!(note.fields[3], "[sound:a.ogg]");
    assert_eq!(note.fields[4], "[sound:b.ogg]");
    assert_eq!(note.deck, "Portuguese");
    assert_eq!(note.notetype, "Conjugator");
}

#[test]
fn test_uniqueness_guard() {
    let mut handler = AnkiHandler::from_collection(Collection::new());
    let fields = |en: &str| {
        vec![
            String::from("x"),
            String::from(en),
            String::new(),
            String::new(),
            String::new(),
        ]
    };
    handler.collection.add_note(fields("a"), "Portuguese", "Conjugator");
    handler.collection.add_note(fields("b"), "Portuguese", "Conjugator");

    let vocab = PtVocabularyVerb {
        pt: String::from("x"),
        en: String::from("c"),
        comments: None,
    };
    assert_eq!(handler.has_verb(&vocab), Err(SyncError::UniquenessViolation));
    assert_eq!(handler.add_verb(&verb("x", "c")), Err(SyncError::UniquenessViolation));

    let found = handler.collection.search_notes_unordered("x");
    assert_eq!(found.len(), 2);
    let first = handler.collection.get_note(found[0]).unwrap();
    assert_eq!(first.fields[1], "a");
}

#[test]
fn test_has_verb_absent_then_present() {
    let mut handler = AnkiHandler::from_collection(Collection::new());
    let vocab = PtVocabularyVerb {
        pt: String::from("falar"),
        en: String::from("to speak"),
        comments: None,
    };
    assert_eq!(handler.has_verb(&vocab), Ok(false));
    handler.add_verb(&verb("falar", "to speak")).unwrap();
    assert_eq!(handler.has_verb(&vocab), Ok(true));
}

#[test]
fn test_comment_propagated_to_record() {
    let mut handler = AnkiHandler::from_collection(Collection::new());
    let v = PtVerbConjugations {
        vocabulary: PtVocabularyVerb {
            pt: String::from("ir"),
            en: String::from("to go"),
            comments: Some(String::from("irregular")),
        },
        conjugations: Vec::new(),
    };
    handler.add_verb(&v).unwrap();
    let found = handler.collection.search_notes_unordered("ir");
    assert_eq!(found.len(), 1);
    let note = handler.collection.get_note(found[0]).unwrap();
    assert_eq!(note.fields[2], "irregular");
}

#[test]
fn test_prepare_installs_notetype() {
    let mut handler = AnkiHandler { collection: Collection::new() };
    assert!(handler.collection.get_notetype_by_name("Conjugator").is_none());
    handler.prepare();
    let nt = handler.collection.get_notetype_by_name("Conjugator").unwrap();
    assert_eq!(nt.name, "Conjugator");
    assert_eq!(nt.templates.len(), 1);
    assert_eq!(nt.templates[0].name, "Standard Card");
}
