use conjugator::cache::Cache;
use conjugator::csv::pt::process_verb;
use conjugator::csv::{read_csv_line, trim_str};
use conjugator::lang::pt::{
    conjugation_url, ConjugationRow, PtPersonalPronoun, PtVerbConjugations, PtVocabularyVerb,
};
use conjugator::text::str_eq;
use conjugator::tts::pt::assemble_text;

#[test]
fn test_cache() {
    let cache = Cache::new(String::from("/tmp"));
    assert_eq!(cache.root_dir, "/tmp");
}

#[test]
fn test_trim_str() {
    assert_eq!(trim_str("  ser \t"), "ser");
    assert_eq!(trim_str("ser"), "ser");
    assert_eq!(trim_str(" \t\r\n "), "");
    assert_eq!(trim_str(""), "");
}

#[test]
fn test_read_csv_line_comment() {
    assert_eq!(read_csv_line("# a comment"), None);
    assert_eq!(read_csv_line("   # padded comment"), None);
}

#[test]
fn test_read_csv_line_fields() {
    let fields = read_csv_line(" ser , to be , irregular ").unwrap();
    assert_eq!(fields, vec!["ser", "to be", "irregular"]);

    let two = read_csv_line("falar,to speak").unwrap();
    assert_eq!(two, vec!["falar", "to speak"]);
}

#[test]
fn test_read_csv_line_drops_empty_fields() {
    let fields = read_csv_line("ser,, to be ,").unwrap();
    assert_eq!(fields, vec!["ser", "to be"]);

    let empty = read_csv_line("   ").unwrap();
    assert_eq!(empty, Vec::<String>::new());
}

#[test]
fn test_process_verb_two_fields() {
    let v = process_verb(vec!["ser", "to be"]);
    assert_eq!(v.pt, "ser");
    assert_eq!(v.en, "to be");
    assert_eq!(v.comments, None);
}

#[test]
fn test_process_verb_with_comment() {
    let v = process_verb(vec!["ser", "to be", "irregular"]);
    assert_eq!(v.pt, "ser");
    assert_eq!(v.en, "to be");
    assert_eq!(v.comments.as_deref(), Some("irregular"));
}

#[test]
fn test_str_eq() {
    assert!(str_eq("", ""));
    assert!(str_eq("nós", "nós"));
    assert!(!str_eq("nós", "vós"));
    assert!(!str_eq("eu", "eus"));
}

#[test]
fn test_assemble_text() {
    let table = PtVerbConjugations {
        vocabulary: PtVocabularyVerb {
            pt: String::from("falar"),
            en: String::from("to speak"),
            comments: None,
        },
        conjugations: vec![
            (
                PtPersonalPronoun::S1,
                conjugator::lang::pt::PtVerbConjugation {
                    root: Some(String::from("fal")),
                    suffix: conjugator::lang::pt::PtVerbSuffix::Regular(String::from("o")),
                },
            ),
            (
                PtPersonalPronoun::P1,
                conjugator::lang::pt::PtVerbConjugation {
                    root: Some(String::from("fal")),
                    suffix: conjugator::lang::pt::PtVerbSuffix::Regular(String::from("amos")),
                },
            ),
        ],
    };
    let text = assemble_text(table);
    assert_eq!(text, "falar.Eu falo.\nNós falamos.\n");
}

#[test]
fn test_conjugation_text() {
    let with_root = conjugator::lang::pt::PtVerbConjugation {
        root: Some(String::from("fal")),
        suffix: conjugator::lang::pt::PtVerbSuffix::Regular(String::from("o")),
    };
    assert_eq!(with_root.text(), "falo");

    let rootless = conjugator::lang::pt::PtVerbConjugation {
        root: None,
        suffix: conjugator::lang::pt::PtVerbSuffix::Irregular(String::from("sou")),
    };
    assert_eq!(rootless.text(), "sou");
}

#[test]
fn test_pronoun_labels() {
    assert_eq!(PtPersonalPronoun::S1.label(), "Eu");
    assert_eq!(PtPersonalPronoun::S2.label(), "Tu");
    assert_eq!(PtPersonalPronoun::S3.label(), "Ele/Ela/Você");
    assert_eq!(PtPersonalPronoun::P1.label(), "Nós");
    assert_eq!(PtPersonalPronoun::P2.label(), "Vós");
    assert_eq!(PtPersonalPronoun::P3.label(), "Eles/Elas/Vocês");
}

#[test]
fn test_row_construction() {
    let r = ConjugationRow {
        person: String::from("eu"),
        root: None,
        regular: Some(String::from("o")),
        irregular: None,
    };
    assert_eq!(r.person, "eu");
    assert_eq!(r.regular.as_deref(), Some("o"));
}

#[test]
fn test_conjugation_url() {
    let v = PtVocabularyVerb {
        pt: String::from("ser"),
        en: String::from("to be"),
        comments: None,
    };
    assert_eq!(
        conjugation_url(&v),
        "https://conjugator.reverso.net/conjugation-portuguese-verb-ser.html"
    );
}
