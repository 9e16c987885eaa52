use vstd::prelude::*;

pub mod pt;

verus! {

/// A verb vocabulary entry as it arrives from an input row: the
/// source-language text, its translation, and a free-form comment.
pub struct VocabularyVerb {
    pub source_lang: String,
    pub target_lang: String,
    pub comments: String,
}

/// A noun vocabulary entry as it arrives from an input row.
pub struct VocabularyNoun {
    pub src_language: String,
    pub target_language: String,
    pub comments: String,
}

/// A language-specific processor of vocabulary entries; implemented by
/// users of this library for each supported language.
pub trait LangProcessor {
    fn process_verb(&self, verb: VocabularyVerb);

    fn process_noun(&self, noun: VocabularyNoun);
}

/// A full conjugation paradigm: one form for each of the six grammatical
/// persons.
pub struct Verb<C> {
    pub s_1: ConjugatedVerb<C>,
    pub s_2: ConjugatedVerb<C>,
    pub s_3: ConjugatedVerb<C>,
    pub p_1: ConjugatedVerb<C>,
    pub p_2: ConjugatedVerb<C>,
    pub p_3: ConjugatedVerb<C>,
}

/// A conjugated form, tagged by whether the inflection follows the
/// language's regular pattern.
pub enum ConjugatedVerb<V> {
    REGULAR(V),
    IRREGULAR(V),
}

} // verus!
