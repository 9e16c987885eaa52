use vstd::prelude::*;

use crate::text::str_eq;

verus! {

broadcast use vstd::string::group_string_axioms;

// ============================================================================
// Vocabulary
// ============================================================================

/// A Portuguese verb vocabulary entry. `pt` is the natural key under which
/// the verb is stored and deduplicated.
#[derive(Debug)]
pub struct PtVocabularyVerb {
    pub en: String,
    pub pt: String,
    pub comments: Option<String>,
}

impl Clone for PtVocabularyVerb {
    fn clone(&self) -> (r: Self)
        ensures
            r == *self,
    {
        PtVocabularyVerb {
            en: self.en.clone(),
            pt: self.pt.clone(),
            comments: match &self.comments {
                Some(c) => Some(c.clone()),
                None => None,
            },
        }
    }
}

// ============================================================================
// Conjugations
// ============================================================================

/// The inflected ending of a conjugated form, tagged by whether the
/// inflection follows the regular pattern of the language.
#[derive(Debug)]
pub enum PtVerbSuffix {
    Regular(String),
    Irregular(String),
}

/// One conjugated form: an optional invariant root plus a tagged suffix.
#[derive(Debug)]
pub struct PtVerbConjugation {
    pub root: Option<String>,
    pub suffix: PtVerbSuffix,
}

/// The six grammatical persons a Portuguese conjugation is indexed by.
#[derive(Clone, Copy, Debug, PartialEq, Eq, Structural, Hash)]
pub enum PtPersonalPronoun {
    S1,
    S2,
    S3,
    P1,
    P2,
    P3,
}

/// The conjugation table of one verb: the vocabulary entry it belongs to
/// and at most one form per grammatical person.
#[derive(Debug)]
pub struct PtVerbConjugations {
    pub vocabulary: PtVocabularyVerb,
    pub conjugations: Vec<(PtPersonalPronoun, PtVerbConjugation)>,
}

// ============================================================================
// Spec-level models
// ============================================================================

/// Spec model of one conjugated form.
#[verifier::ext_equal]
pub ghost struct ConjV {
    pub root: Option<Seq<char>>,
    pub regular: bool,
    pub suffix: Seq<char>,
}

/// Spec model of one raw table row as read off a document: the rendered
/// person label, an optional root fragment, and the suffix fragment under
/// its regular and irregular markings.
#[verifier::ext_equal]
pub ghost struct RowV {
    pub person: Seq<char>,
    pub root: Option<Seq<char>>,
    pub regular: Option<Seq<char>>,
    pub irregular: Option<Seq<char>>,
}

pub open spec fn suffix_text_v(s: PtVerbSuffix) -> Seq<char> {
    match s {
        PtVerbSuffix::Regular(t) => t@,
        PtVerbSuffix::Irregular(t) => t@,
    }
}

pub open spec fn conj_v(c: PtVerbConjugation) -> ConjV {
    ConjV { root: c.root.deep_view(), regular: c.suffix is Regular, suffix: suffix_text_v(c.suffix) }
}

/// The spec view of a table's entry list.
pub open spec fn entries_v(s: Seq<(PtPersonalPronoun, PtVerbConjugation)>) -> Seq<
    (PtPersonalPronoun, ConjV),
> {
    s.map_values(|pr: (PtPersonalPronoun, PtVerbConjugation)| (pr.0, conj_v(pr.1)))
}

pub open spec fn spec_has_person(s: Seq<(PtPersonalPronoun, ConjV)>, p: PtPersonalPronoun) -> bool {
    exists|i: int| 0 <= i < s.len() && s[i].0 == p
}

/// Each grammatical person appears at most once.
pub open spec fn spec_persons_distinct(s: Seq<(PtPersonalPronoun, ConjV)>) -> bool {
    forall|i: int, j: int| 0 <= i < j < s.len() ==> s[i].0 != s[j].0
}

// ============================================================================
// Raw rows and blocks (the plain-value form of a conjugation document)
// ============================================================================

/// One row of a tense block, as rendered text fragments: the person label,
/// an optional root, and the suffix under its regular or irregular marking
/// (both may be present or absent in a malformed document).
#[derive(Debug)]
pub struct ConjugationRow {
    pub person: String,
    pub root: Option<String>,
    pub regular: Option<String>,
    pub irregular: Option<String>,
}

impl DeepView for ConjugationRow {
    type V = RowV;

    open spec fn deep_view(&self) -> RowV {
        RowV {
            person: self.person@,
            root: self.root.deep_view(),
            regular: self.regular.deep_view(),
            irregular: self.irregular.deep_view(),
        }
    }
}

/// Spec model of a tense block.
#[verifier::ext_equal]
pub ghost struct BlockV {
    pub name: Seq<char>,
    pub rows: Seq<RowV>,
}

/// One tense block of a conjugation document: the tense's rendered label
/// and its person rows.
#[derive(Debug)]
pub struct TenseBlock {
    pub name: String,
    pub rows: Vec<ConjugationRow>,
}

impl DeepView for TenseBlock {
    type V = BlockV;

    open spec fn deep_view(&self) -> BlockV {
        BlockV { name: self.name@, rows: self.rows.deep_view() }
    }
}

// ============================================================================
// Errors
// ============================================================================

/// The structural defects of a conjugation document that abort parsing.
#[derive(Clone, Copy, Debug, PartialEq, Eq, Structural)]
pub enum ParseError {
    /// No block of the document is labeled with the target tense.
    TenseNotFound,
    /// A row's person label is not one of the six known pronouns.
    InvalidPerson,
    /// A row carries both the regular and the irregular suffix marking.
    AmbiguousConjugation,
    /// A row carries neither suffix marking.
    MissingConjugation,
    /// Two rows of one block resolve to the same grammatical person.
    DuplicatePerson,
}

// ============================================================================
// Person lookup
// ============================================================================

pub open spec fn spec_person_of(s: Seq<char>) -> Option<PtPersonalPronoun> {
    if s == "eu"@ {
        Some(PtPersonalPronoun::S1)
    } else if s == "tu"@ {
        Some(PtPersonalPronoun::S2)
    } else if s == "ele/ela/você"@ {
        Some(PtPersonalPronoun::S3)
    } else if s == "nós"@ {
        Some(PtPersonalPronoun::P1)
    } else if s == "vós"@ {
        Some(PtPersonalPronoun::P2)
    } else if s == "eles/elas/vocês"@ {
        Some(PtPersonalPronoun::P3)
    } else {
        None
    }
}

/// Resolves a rendered person label to its grammatical person; `None` for
/// an unrecognized label.
pub fn person_to_person(person: &str) -> (r: Option<PtPersonalPronoun>)
    ensures
        r == spec_person_of(person@),
{
    if str_eq(person, "eu") {
        Some(PtPersonalPronoun::S1)
    } else if str_eq(person, "tu") {
        Some(PtPersonalPronoun::S2)
    } else if str_eq(person, "ele/ela/você") {
        Some(PtPersonalPronoun::S3)
    } else if str_eq(person, "nós") {
        Some(PtPersonalPronoun::P1)
    } else if str_eq(person, "vós") {
        Some(PtPersonalPronoun::P2)
    } else if str_eq(person, "eles/elas/vocês") {
        Some(PtPersonalPronoun::P3)
    } else {
        None
    }
}

/// The canonical display label of a grammatical person.
pub open spec fn spec_person_label(p: PtPersonalPronoun) -> Seq<char> {
    match p {
        PtPersonalPronoun::S1 => "Eu"@,
        PtPersonalPronoun::S2 => "Tu"@,
        PtPersonalPronoun::S3 => "Ele/Ela/Você"@,
        PtPersonalPronoun::P1 => "Nós"@,
        PtPersonalPronoun::P2 => "Vós"@,
        PtPersonalPronoun::P3 => "Eles/Elas/Vocês"@,
    }
}

impl PtPersonalPronoun {
    /// The canonical display label of this grammatical person.
    pub fn label(&self) -> (r: &'static str)
        ensures
            r@ == spec_person_label(*self),
    {
        match self {
            PtPersonalPronoun::S1 => "Eu",
            PtPersonalPronoun::S2 => "Tu",
            PtPersonalPronoun::S3 => "Ele/Ela/Você",
            PtPersonalPronoun::P1 => "Nós",
            PtPersonalPronoun::P2 => "Vós",
            PtPersonalPronoun::P3 => "Eles/Elas/Vocês",
        }
    }
}

// ============================================================================
// Row parsing
// ============================================================================

/// What one raw row parses to: its grammatical person and form, or the
/// defect that makes it unusable.
pub open spec fn spec_parse_row(row: RowV) -> Result<(PtPersonalPronoun, ConjV), ParseError> {
    match spec_person_of(row.person) {
        None => Err(ParseError::InvalidPerson),
        Some(p) => match (row.regular, row.irregular) {
            (Some(_), Some(_)) => Err(ParseError::AmbiguousConjugation),
            (Some(s), None) => Ok((p, ConjV { root: row.root, regular: true, suffix: s })),
            (None, Some(s)) => Ok((p, ConjV { root: row.root, regular: false, suffix: s })),
            (None, None) => Err(ParseError::MissingConjugation),
        },
    }
}

/// Parses rows in order onto the entries already accumulated, failing at
/// the first defective row or at the first person seen twice.
pub open spec fn spec_parse_rows(rows: Seq<RowV>, acc: Seq<(PtPersonalPronoun, ConjV)>) -> Result<
    Seq<(PtPersonalPronoun, ConjV)>,
    ParseError,
>
    decreases rows.len(),
{
    if rows.len() <= 0 {
        Ok(acc)
    } else {
        match spec_parse_row(rows[0]) {
            Err(e) => Err(e),
            Ok(pc) => if spec_has_person(acc, pc.0) {
                Err(ParseError::DuplicatePerson)
            } else {
                spec_parse_rows(rows.skip(1), acc.push(pc))
            },
        }
    }
}

/// A parse that succeeds yields distinct persons, provided the entries it
/// started from were distinct.
pub proof fn lemma_parse_rows_distinct(
    rows: Seq<RowV>,
    acc: Seq<(PtPersonalPronoun, ConjV)>,
    res: Seq<(PtPersonalPronoun, ConjV)>,
)
    requires
        spec_persons_distinct(acc),
        spec_parse_rows(rows, acc) == Ok::<_, ParseError>(res),
    ensures
        spec_persons_distinct(res),
    decreases rows.len(),
{
    if rows.len() > 0 {
        match spec_parse_row(rows[0]) {
            Err(_) => (),
            Ok(pc) => {
                if !spec_has_person(acc, pc.0) {
                    assert(spec_persons_distinct(acc.push(pc)));
                    lemma_parse_rows_distinct(rows.skip(1), acc.push(pc), res);
                }
            },
        }
    }
}

// ============================================================================
// Table construction
// ============================================================================

impl PtVerbConjugations {
    /// An empty conjugation table for the given vocabulary entry.
    pub fn new(vocabulary: PtVocabularyVerb) -> (t: Self)
        ensures
            t.vocabulary == vocabulary,
            t.conjugations@ =~= Seq::<(PtPersonalPronoun, PtVerbConjugation)>::empty(),
    {
        Self { vocabulary, conjugations: Vec::new() }
    }

    /// Whether the table already holds a form for the given person.
    pub fn contains_person(&self, person: PtPersonalPronoun) -> (r: bool)
        ensures
            r == spec_has_person(entries_v(self.conjugations@), person),
    {
        let mut j: usize = 0;
        while j < self.conjugations.len()
            invariant
                j <= self.conjugations@.len(),
                forall|k: int| 0 <= k < j ==> entries_v(self.conjugations@)[k].0 != person,
            decreases self.conjugations@.len() - j,
        {
            if self.conjugations[j].0 == person {
                proof {
                    assert(entries_v(self.conjugations@)[j as int].0 == person);
                }
                return true;
            }
            j += 1;
        }
        false
    }

    /// The number of persons the table holds a form for.
    pub fn len(&self) -> (n: usize)
        ensures
            n == self.conjugations@.len(),
    {
        self.conjugations.len()
    }
}

/// Builds the conjugation table of one tense from its raw rows. Returns
/// exactly what `spec_parse_rows` says of the rows: the parsed entries in
/// row order, or the first structural defect encountered.
pub fn process_tense(vocabulary_verb: &PtVocabularyVerb, rows: &Vec<ConjugationRow>) -> (r: Result<
    PtVerbConjugations,
    ParseError,
>)
    ensures
        ({
            let outcome = spec_parse_rows(
                rows.deep_view(),
                Seq::<(PtPersonalPronoun, ConjV)>::empty(),
            );
            match r {
                Ok(t) => outcome == Ok::<_, ParseError>(entries_v(t.conjugations@))
                    && t.vocabulary == *vocabulary_verb,
                Err(e) => outcome == Err::<Seq<(PtPersonalPronoun, ConjV)>, _>(e),
            }
        }),
{
    let ghost dv = rows.deep_view();
    let mut table = PtVerbConjugations::new(vocabulary_verb.clone());
    proof {
        assert(entries_v(table.conjugations@) =~= Seq::<(PtPersonalPronoun, ConjV)>::empty());
        assert(dv.skip(0) =~= dv);
    }
    let mut i: usize = 0;
    while i < rows.len()
        invariant
            i <= rows@.len(),
            dv == rows.deep_view(),
            dv.len() == rows@.len(),
            table.vocabulary == *vocabulary_verb,
            spec_parse_rows(dv, Seq::<(PtPersonalPronoun, ConjV)>::empty()) == spec_parse_rows(
                dv.skip(i as int),
                entries_v(table.conjugations@),
            ),
        decreases rows@.len() - i,
    {
        proof {
            assert(dv.skip(i as int).len() > 0);
            assert(dv.skip(i as int)[0] == dv[i as int]);
        }
        let row = &rows[i];
        proof {
            assert(row.deep_view() == dv[i as int]);
        }
        let person = match person_to_person(row.person.as_str()) {
            Some(p) => p,
            None => {
                return Err(ParseError::InvalidPerson);
            },
        };
        let suffix = match (&row.regular, &row.irregular) {
            (Some(_), Some(_)) => {
                return Err(ParseError::AmbiguousConjugation);
            },
            (Some(s), None) => PtVerbSuffix::Regular(s.clone()),
            (None, Some(s)) => PtVerbSuffix::Irregular(s.clone()),
            (None, None) => {
                return Err(ParseError::MissingConjugation);
            },
        };
        let root = match &row.root {
            Some(s) => Some(s.clone()),
            None => None,
        };
        let conj = PtVerbConjugation { root, suffix };
        proof {
            assert(spec_parse_row(dv[i as int]) == Ok::<_, ParseError>((person, conj_v(conj))));
        }
        if table.contains_person(person) {
            return Err(ParseError::DuplicatePerson);
        }
        let ghost old_entries = entries_v(table.conjugations@);
        table.conjugations.push((person, conj));
        proof {
            assert(entries_v(table.conjugations@) =~= old_entries.push((person, conj_v(conj))));
            assert(dv.skip(i as int).skip(1) =~= dv.skip(i as int + 1));
        }
        i += 1;
    }
    proof {
        assert(dv.skip(i as int).len() == 0);
        assert(spec_parse_rows(dv.skip(i as int), entries_v(table.conjugations@))
            == Ok::<_, ParseError>(entries_v(table.conjugations@)));
    }
    Ok(table)
}

// ============================================================================
// Tense selection
// ============================================================================

/// The index of the first block labeled with the target tense, "Presente".
pub open spec fn spec_first_present(blocks: Seq<BlockV>) -> Option<int>
    decreases blocks.len(),
{
    if blocks.len() <= 0 {
        None
    } else if blocks[0].name == "Presente"@ {
        Some(0)
    } else {
        match spec_first_present(blocks.skip(1)) {
            Some(j) => Some(j + 1),
            None => None,
        }
    }
}

pub proof fn lemma_first_present_found(blocks: Seq<BlockV>, i: int)
    requires
        0 <= i < blocks.len(),
        blocks[i].name == "Presente"@,
        forall|j: int| 0 <= j < i ==> blocks[j].name != "Presente"@,
    ensures
        spec_first_present(blocks) == Some(i),
    decreases i,
{
    if i > 0 {
        lemma_first_present_found(blocks.skip(1), i - 1);
    }
}

pub proof fn lemma_first_present_none(blocks: Seq<BlockV>)
    requires
        forall|j: int| 0 <= j < blocks.len() ==> blocks[j].name != "Presente"@,
    ensures
        spec_first_present(blocks) is None,
    decreases blocks.len(),
{
    if blocks.len() > 0 {
        lemma_first_present_none(blocks.skip(1));
    }
}

/// Builds the present-tense conjugation table from the tense blocks of a
/// document. Only the first block labeled "Presente" contributes; a
/// document without one is rejected.
pub fn process_blocks(vocabulary_verb: &PtVocabularyVerb, blocks: &Vec<TenseBlock>) -> (r: Result<
    PtVerbConjugations,
    ParseError,
>)
    ensures
        ({
            match spec_first_present(blocks.deep_view()) {
                None => r == Err::<PtVerbConjugations, _>(ParseError::TenseNotFound),
                Some(j) => {
                    let outcome = spec_parse_rows(
                        blocks.deep_view()[j].rows,
                        Seq::<(PtPersonalPronoun, ConjV)>::empty(),
                    );
                    match r {
                        Ok(t) => outcome == Ok::<_, ParseError>(entries_v(t.conjugations@))
                            && t.vocabulary == *vocabulary_verb,
                        Err(e) => outcome == Err::<Seq<(PtPersonalPronoun, ConjV)>, _>(e),
                    }
                },
            }
        }),
{
    let ghost dv = blocks.deep_view();
    let mut i: usize = 0;
    while i < blocks.len()
        invariant
            i <= blocks@.len(),
            dv == blocks.deep_view(),
            dv.len() == blocks@.len(),
            forall|j: int| 0 <= j < i ==> dv[j].name != "Presente"@,
        decreases blocks@.len() - i,
    {
        let block = &blocks[i];
        proof {
            assert(block.deep_view() == dv[i as int]);
        }
        if str_eq(block.name.as_str(), "Presente") {
            proof {
                lemma_first_present_found(dv, i as int);
                assert(dv[i as int].rows == block.rows.deep_view());
            }
            return process_tense(vocabulary_verb, &block.rows);
        }
        i += 1;
    }
    proof {
        lemma_first_present_none(dv);
    }
    Err(ParseError::TenseNotFound)
}

pub const CONJUGATION_ENDPOINT_STUB: &'static str =
    "https://conjugator.reverso.net/conjugation-portuguese-verb-";

/// The address a verb's conjugation document is fetched from.
pub open spec fn spec_conjugation_url(verb: Seq<char>) -> Seq<char> {
    CONJUGATION_ENDPOINT_STUB@ + verb + ".html"@
}

/// Builds the address of the conjugation document for one vocabulary
/// entry: the fixed endpoint stub, the verb's source text, and the page
/// suffix.
pub fn conjugation_url(verb: &PtVocabularyVerb) -> (r: String)
    ensures
        r@ == spec_conjugation_url(verb.pt@),
{
    let mut url = CONJUGATION_ENDPOINT_STUB.to_owned();
    url.append(verb.pt.as_str());
    url.append(".html");
    url
}

/// Builds the present-tense conjugation table from a raw conjugation
/// document: exactly the parse, per `spec_parse_rows`, of the first block
/// of `tense_blocks_of(document@)` labeled "Presente", or `TenseNotFound`
/// when no block is.
pub fn process_document(vocabulary_verb: &PtVocabularyVerb, document: &str) -> (r: Result<
    PtVerbConjugations,
    ParseError,
>)
    ensures
        ({
            let bs = crate::markup::tense_blocks_of(document@);
            match spec_first_present(bs) {
                None => r == Err::<PtVerbConjugations, _>(ParseError::TenseNotFound),
                Some(j) => {
                    let outcome = spec_parse_rows(
                        bs[j].rows,
                        Seq::<(PtPersonalPronoun, ConjV)>::empty(),
                    );
                    match r {
                        Ok(t) => outcome == Ok::<_, ParseError>(entries_v(t.conjugations@))
                            && t.vocabulary == *vocabulary_verb,
                        Err(e) => outcome == Err::<Seq<(PtPersonalPronoun, ConjV)>, _>(e),
                    }
                },
            }
        }),
        match r {
            Ok(t) => t.vocabulary == *vocabulary_verb && spec_persons_distinct(
                entries_v(t.conjugations@),
            ),
            Err(_) => true,
        },
{
    let blocks = crate::markup::extract_tense_blocks(document);
    let r = process_blocks(vocabulary_verb, &blocks);
    proof {
        if r is Ok {
            match spec_first_present(blocks.deep_view()) {
                Some(j) => {
                    lemma_parse_rows_distinct(
                        blocks.deep_view()[j].rows,
                        Seq::<(PtPersonalPronoun, ConjV)>::empty(),
                        entries_v(r->Ok_0.conjugations@),
                    );
                },
                None => {},
            }
        }
    }
    r
}

} // verus!
