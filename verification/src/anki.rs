use vstd::prelude::*;

use crate::text::str_eq;

pub mod pt;

verus! {

broadcast use vstd::string::group_string_axioms;

pub const TEMPLATE_QUESTION_FORMAT: &'static str = r#"
{{Source}}
<div style='font-family: "Liberation Sans"; font-size: 20px;'>{{AudioA}}</div>
"#;

pub const TEMPLATE_ANSWER_FORMAT: &'static str = r#"
{{Target}}

<hr id=answer>

{{Source}}

<hr id=extra>

{{Comment}}
{{#AudioB}}
<div style='font-family: "Liberation Sans"; font-size: 20px;'>{{AudioB}}</div>
{{/AudioB}}
"#;

pub const TEMPLATE_CSS: &'static str = r#"
.card {
    font-family: arial;
    font-size: 20px;
    text-align: center;
    color: black;
    background-color: white;
}
"#;

// ============================================================================
// The record store model
// ============================================================================

/// One named field of a note type.
#[derive(Debug)]
pub struct NoteField {
    pub name: String,
}

/// One card template of a note type.
#[derive(Debug)]
pub struct CardTemplate {
    pub name: String,
    pub question_format: String,
    pub answer_format: String,
}

/// A note type: the named schema that notes are created under.
#[derive(Debug)]
pub struct Notetype {
    pub name: String,
    pub fields: Vec<NoteField>,
    pub templates: Vec<CardTemplate>,
}

/// A persisted flashcard record: a stable identity, the deck and note
/// type it lives under, and its field values, in the order Source,
/// Target, Comment, AudioA, AudioB.
#[derive(Debug)]
pub struct Note {
    pub id: u64,
    pub deck: String,
    pub notetype: String,
    pub fields: Vec<String>,
}

/// Spec model of a persisted record.
#[verifier::ext_equal]
pub ghost struct NoteV {
    pub id: int,
    pub deck: Seq<char>,
    pub notetype: Seq<char>,
    pub fields: Seq<Seq<char>>,
}

impl DeepView for Note {
    type V = NoteV;

    open spec fn deep_view(&self) -> NoteV {
        NoteV {
            id: self.id as int,
            deck: self.deck@,
            notetype: self.notetype@,
            fields: self.fields.deep_view(),
        }
    }
}

/// A deck: a named container of notes.
#[derive(Debug)]
pub struct Deck {
    pub name: String,
}

/// The flashcard collection: note types, decks and notes, plus the next
/// free note identity.
#[derive(Debug)]
pub struct Collection {
    pub notetypes: Vec<Notetype>,
    pub decks: Vec<Deck>,
    pub notes: Vec<Note>,
    pub next_note_id: u64,
}

/// Every stored record carries the full five-field schema.
pub open spec fn notes_wf(notes: Seq<NoteV>) -> bool {
    forall|i: int| 0 <= i < notes.len() ==> (#[trigger] notes[i]).fields.len() == 5
}

// ============================================================================
// Key lookup
// ============================================================================

/// Whether a record's Source field equals the given key.
pub open spec fn note_matches(n: NoteV, key: Seq<char>) -> bool {
    n.fields.len() > 0 && n.fields[0] == key
}

/// The indices of the records whose Source field equals the key, in
/// increasing order.
pub open spec fn match_indices(notes: Seq<NoteV>, key: Seq<char>) -> Seq<int>
    decreases notes.len(),
{
    if notes.len() <= 0 {
        Seq::empty()
    } else if note_matches(notes.last(), key) {
        match_indices(notes.drop_last(), key).push(notes.len() - 1)
    } else {
        match_indices(notes.drop_last(), key)
    }
}

/// How many records carry the key in their Source field.
pub open spec fn key_count(notes: Seq<NoteV>, key: Seq<char>) -> nat {
    match_indices(notes, key).len()
}

/// The matched indices are exactly the positions of the matching records.
pub proof fn lemma_match_indices_props(notes: Seq<NoteV>, key: Seq<char>)
    ensures
        forall|j: int|
            0 <= j < match_indices(notes, key).len() ==> {
                let i = #[trigger] match_indices(notes, key)[j];
                0 <= i < notes.len() && note_matches(notes[i], key)
            },
        forall|i: int|
            0 <= i < notes.len() && note_matches(#[trigger] notes[i], key) ==> match_indices(
                notes,
                key,
            ).contains(i),
    decreases notes.len(),
{
    if notes.len() > 0 {
        lemma_match_indices_props(notes.drop_last(), key);
        let prior = match_indices(notes.drop_last(), key);
        assert forall|i: int|
            0 <= i < notes.len() && note_matches(#[trigger] notes[i], key) implies match_indices(
            notes,
            key,
        ).contains(i) by {
            if i < notes.len() - 1 {
                assert(notes.drop_last()[i] == notes[i]);
                assert(prior.contains(i));
                let j = choose|j: int| 0 <= j < prior.len() && prior[j] == i;
                assert(match_indices(notes, key)[j] == i);
            } else {
                assert(match_indices(notes, key).last() == i);
            }
        }
    }
}

/// Appending a record extends the matched indices by its position when it
/// matches, and leaves them unchanged when it does not.
pub proof fn lemma_match_indices_push(notes: Seq<NoteV>, n: NoteV, key: Seq<char>)
    ensures
        note_matches(n, key) ==> match_indices(notes.push(n), key) == match_indices(
            notes,
            key,
        ).push(notes.len() as int),
        !note_matches(n, key) ==> match_indices(notes.push(n), key) == match_indices(notes, key),
{
    assert(notes.push(n).drop_last() =~= notes);
    assert(notes.push(n).last() == n);
}

/// Replacing a record with one of the same match status leaves the matched
/// indices unchanged.
pub proof fn lemma_match_indices_update_same(notes: Seq<NoteV>, i: int, n: NoteV, key: Seq<char>)
    requires
        0 <= i < notes.len(),
        note_matches(n, key) == note_matches(notes[i], key),
    ensures
        match_indices(notes.update(i, n), key) == match_indices(notes, key),
    decreases notes.len(),
{
    let upd = notes.update(i, n);
    if i == notes.len() - 1 {
        assert(upd.drop_last() =~= notes.drop_last());
        assert(upd.last() == n);
    } else {
        assert(upd.drop_last() =~= notes.drop_last().update(i, n));
        assert(upd.last() == notes.last());
        lemma_match_indices_update_same(notes.drop_last(), i, n, key);
    }
}

impl Collection {
    /// An empty collection.
    pub fn new() -> (c: Collection)
        ensures
            c.notetypes@ =~= Seq::<Notetype>::empty(),
            c.decks@ =~= Seq::<Deck>::empty(),
            c.notes@ =~= Seq::<Note>::empty(),
            c.next_note_id == 1,
    {
        Collection { notetypes: Vec::new(), decks: Vec::new(), notes: Vec::new(), next_note_id: 1 }
    }

    /// The positions of the notes whose Source field equals the key.
    pub(crate) fn find_note_indices(&self, key: &str) -> (ids: Vec<usize>)
        ensures
            ({
                let mi = match_indices(self.notes.deep_view(), key@);
                ids@.len() == mi.len() && (forall|j: int|
                    0 <= j < ids@.len() ==> ids@[j] as int == mi[j])
            }),
    {
        let ghost dv = self.notes.deep_view();
        let mut ids: Vec<usize> = Vec::new();
        let mut i: usize = 0;
        while i < self.notes.len()
            invariant
                i <= self.notes@.len(),
                dv == self.notes.deep_view(),
                dv.len() == self.notes@.len(),
                ({
                    let mi = match_indices(dv.subrange(0, i as int), key@);
                    ids@.len() == mi.len() && (forall|j: int|
                        0 <= j < ids@.len() ==> ids@[j] as int == mi[j])
                }),
            decreases self.notes@.len() - i,
        {
            let note = &self.notes[i];
            proof {
                assert(note.deep_view() == dv[i as int]);
                assert(dv.subrange(0, i as int + 1).drop_last() =~= dv.subrange(0, i as int));
                assert(dv.subrange(0, i as int + 1).last() == dv[i as int]);
            }
            let is_match = if note.fields.len() > 0 {
                proof {
                    assert(note.fields@[0].deep_view() == dv[i as int].fields[0]);
                }
                str_eq(note.fields[0].as_str(), key)
            } else {
                false
            };
            if is_match {
                ids.push(i);
            }
            i += 1;
        }
        proof {
            assert(dv.subrange(0, i as int) =~= dv);
        }
        ids
    }

    /// The identities of the notes whose Source field equals the key. The
    /// store's lookup is exact-match on the Source field; only the number
    /// of results carries meaning, not their order.
    pub fn search_notes_unordered(&self, key: &str) -> (ids: Vec<u64>)
        ensures
            ({
                let mi = match_indices(self.notes.deep_view(), key@);
                ids@.len() == mi.len() && (forall|j: int|
                    0 <= j < ids@.len() ==> ids@[j] as int == self.notes.deep_view()[mi[j]].id)
            }),
    {
        proof {
            lemma_match_indices_props(self.notes.deep_view(), key@);
        }
        let idxs = self.find_note_indices(key);
        let mut ids: Vec<u64> = Vec::new();
        let mut j: usize = 0;
        while j < idxs.len()
            invariant
                j <= idxs@.len(),
                ({
                    let mi = match_indices(self.notes.deep_view(), key@);
                    idxs@.len() == mi.len() && (forall|k: int|
                        0 <= k < idxs@.len() ==> idxs@[k] as int == mi[k]) && (forall|k: int|
                        0 <= k < mi.len() ==> 0 <= #[trigger] mi[k] < self.notes@.len())
                }),
                ids@.len() == j,
                forall|k: int|
                    0 <= k < j ==> ids@[k] as int == self.notes.deep_view()[match_indices(
                        self.notes.deep_view(),
                        key@,
                    )[k]].id,
            decreases idxs@.len() - j,
        {
            let idx = idxs[j];
            proof {
                let mi = match_indices(self.notes.deep_view(), key@);
                assert(idxs@[j as int] as int == mi[j as int]);
                assert(0 <= mi[j as int] < self.notes@.len());
                assert((idx as int) < self.notes@.len());
            }
            let note = &self.notes[idx];
            proof {
                assert(note.deep_view() == self.notes.deep_view()[idx as int]);
            }
            ids.push(note.id);
            j += 1;
        }
        ids
    }

    /// The note with the given identity, if any.
    pub fn get_note(&self, id: u64) -> (r: Option<&Note>)
        ensures
            match r {
                Some(n) => n.id == id && exists|i: int|
                    0 <= i < self.notes@.len() && self.notes.deep_view()[i] == n.deep_view(),
                None => forall|i: int|
                    0 <= i < self.notes@.len() ==> self.notes.deep_view()[i].id != id,
            },
    {
        let mut i: usize = 0;
        while i < self.notes.len()
            invariant
                i <= self.notes@.len(),
                forall|j: int| 0 <= j < i ==> self.notes.deep_view()[j].id != id,
            decreases self.notes@.len() - i,
        {
            let note = &self.notes[i];
            proof {
                assert(note.deep_view() == self.notes.deep_view()[i as int]);
            }
            if note.id == id {
                return Some(note);
            }
            i += 1;
        }
        None
    }

    /// Stores a new note under a fresh identity, regardless of what the
    /// store already holds; deduplication belongs to the synchronizer, not
    /// to the store.
    pub fn add_note(&mut self, fields: Vec<String>, deck: &str, notetype: &str) -> (id: u64)
        requires
            old(self).next_note_id < u64::MAX,
            fields@.len() == 5,
        ensures
            id == old(self).next_note_id,
            final(self).notes.deep_view() =~= old(self).notes.deep_view().push(
                NoteV {
                    id: old(self).next_note_id as int,
                    deck: deck@,
                    notetype: notetype@,
                    fields: fields.deep_view(),
                },
            ),
            final(self).next_note_id == old(self).next_note_id + 1,
            final(self).notetypes == old(self).notetypes,
            final(self).decks == old(self).decks,
    {
        let id = self.next_note_id;
        let ghost old_dv = self.notes.deep_view();
        let note = Note { id, deck: deck.to_owned(), notetype: notetype.to_owned(), fields };
        let ghost nv = note.deep_view();
        self.notes.push(note);
        self.next_note_id = id + 1;
        proof {
            assert(self.notes.deep_view() =~= old_dv.push(nv));
        }
        id
    }

    /// Get-or-create of a named deck: idempotent, and touching nothing but
    /// the deck list.
    pub fn get_or_create_normal_deck(&mut self, name: &str)
        ensures
            final(self).notetypes == old(self).notetypes,
            final(self).notes == old(self).notes,
            final(self).next_note_id == old(self).next_note_id,
            has_deck(old(self).decks@, name@) ==> final(self).decks == old(self).decks,
            !has_deck(old(self).decks@, name@) ==> {
                &&& final(self).decks@.len() == old(self).decks@.len() + 1
                &&& final(self).decks@.subrange(0, old(self).decks@.len() as int) =~= old(self).decks@
                &&& final(self).decks@.last().name@ == name@
            },
            has_deck(final(self).decks@, name@),
    {
        let mut i: usize = 0;
        while i < self.decks.len()
            invariant
                i <= self.decks@.len(),
                forall|j: int| 0 <= j < i ==> (#[trigger] self.decks@[j]).name@ != name@,
            decreases self.decks@.len() - i,
        {
            if str_eq(self.decks[i].name.as_str(), name) {
                return ;
            }
            i += 1;
        }
        let deck = Deck { name: name.to_owned() };
        self.decks.push(deck);
    }

    /// The stored note type with the given name, if any.
    pub fn get_notetype_by_name(&self, name: &str) -> (r: Option<&Notetype>)
        ensures
            r is Some <==> has_notetype(self.notetypes@, name@),
            match r {
                Some(nt) => nt.name@ == name@ && exists|i: int|
                    0 <= i < self.notetypes@.len() && #[trigger] self.notetypes@[i] == *nt,
                None => true,
            },
    {
        let mut i: usize = 0;
        while i < self.notetypes.len()
            invariant
                i <= self.notetypes@.len(),
                forall|j: int| 0 <= j < i ==> (#[trigger] self.notetypes@[j]).name@ != name@,
            decreases self.notetypes@.len() - i,
        {
            if str_eq(self.notetypes[i].name.as_str(), name) {
                proof {
                    assert(self.notetypes@[i as int] == self.notetypes@[i as int]);
                }
                return Some(&self.notetypes[i]);
            }
            i += 1;
        }
        None
    }
}

pub open spec fn has_deck(decks: Seq<Deck>, name: Seq<char>) -> bool {
    exists|i: int| 0 <= i < decks.len() && (#[trigger] decks[i]).name@ == name
}

pub open spec fn has_notetype(notetypes: Seq<Notetype>, name: Seq<char>) -> bool {
    exists|i: int| 0 <= i < notetypes.len() && (#[trigger] notetypes[i]).name@ == name
}

/// The schema this tool stores notes under: the "Conjugator" note type
/// with the fields Source, Target, Comment, AudioA, AudioB and one
/// standard card template.
pub open spec fn is_conjugator_notetype(nt: Notetype) -> bool {
    &&& nt.name@ == "Conjugator"@
    &&& nt.fields@.len() == 5
    &&& nt.fields@[0].name@ == "Source"@
    &&& nt.fields@[1].name@ == "Target"@
    &&& nt.fields@[2].name@ == "Comment"@
    &&& nt.fields@[3].name@ == "AudioA"@
    &&& nt.fields@[4].name@ == "AudioB"@
    &&& nt.templates@.len() == 1
    &&& nt.templates@[0].name@ == "Standard Card"@
    &&& nt.templates@[0].question_format@ == TEMPLATE_QUESTION_FORMAT@
    &&& nt.templates@[0].answer_format@ == TEMPLATE_ANSWER_FORMAT@
}

/// Adds the Conjugator note type to the collection and returns a copy of
/// it, leaving everything else untouched.
pub fn create_notetype(collection: &mut Collection) -> (nt: Notetype)
    ensures
        is_conjugator_notetype(nt),
        final(collection).notetypes@.len() == old(collection).notetypes@.len() + 1,
        final(collection).notetypes@.subrange(0, old(collection).notetypes@.len() as int) =~= old(
            collection,
        ).notetypes@,
        is_conjugator_notetype(final(collection).notetypes@.last()),
        final(collection).decks == old(collection).decks,
        final(collection).notes == old(collection).notes,
        final(collection).next_note_id == old(collection).next_note_id,
{
    let stored = conjugator_notetype();
    let returned = conjugator_notetype();
    collection.notetypes.push(stored);
    returned
}

/// Builds one copy of the Conjugator note type.
fn conjugator_notetype() -> (nt: Notetype)
    ensures
        is_conjugator_notetype(nt),
{
    let mut fields: Vec<NoteField> = Vec::new();
    fields.push(NoteField { name: "Source".to_owned() });
    fields.push(NoteField { name: "Target".to_owned() });
    fields.push(NoteField { name: "Comment".to_owned() });
    fields.push(NoteField { name: "AudioA".to_owned() });
    fields.push(NoteField { name: "AudioB".to_owned() });
    let mut templates: Vec<CardTemplate> = Vec::new();
    templates.push(
        CardTemplate {
            name: "Standard Card".to_owned(),
            question_format: TEMPLATE_QUESTION_FORMAT.to_owned(),
            answer_format: TEMPLATE_ANSWER_FORMAT.to_owned(),
        },
    );
    Notetype { name: "Conjugator".to_owned(), fields, templates }
}

// ============================================================================
// The handler around the collection
// ============================================================================

/// The synchronizer's handle on the record store.
#[derive(Debug)]
pub struct AnkiHandler {
    pub collection: Collection,
}

impl AnkiHandler {
    /// Wraps a collection, creating the Conjugator note type if the
    /// collection does not hold one yet.
    pub fn from_collection(collection: Collection) -> (h: AnkiHandler)
        ensures
            h.collection.notes == collection.notes,
            h.collection.decks == collection.decks,
            h.collection.next_note_id == collection.next_note_id,
            has_notetype(collection.notetypes@, "Conjugator"@) ==> h.collection.notetypes
                == collection.notetypes,
            !has_notetype(collection.notetypes@, "Conjugator"@) ==> {
                &&& h.collection.notetypes@.len() == collection.notetypes@.len() + 1
                &&& h.collection.notetypes@.subrange(0, collection.notetypes@.len() as int)
                    =~= collection.notetypes@
                &&& is_conjugator_notetype(h.collection.notetypes@.last())
            },
            has_notetype(h.collection.notetypes@, "Conjugator"@),
    {
        let mut handler = AnkiHandler { collection };
        handler.get_or_create_notetype();
        handler
    }

    /// Ensures the Conjugator note type exists, creating it only when it
    /// is absent.
    pub fn get_or_create_notetype(&mut self)
        ensures
            final(self).collection.notes == old(self).collection.notes,
            final(self).collection.decks == old(self).collection.decks,
            final(self).collection.next_note_id == old(self).collection.next_note_id,
            has_notetype(old(self).collection.notetypes@, "Conjugator"@) ==> final(self).collection.notetypes == old(self).collection.notetypes,
            !has_notetype(old(self).collection.notetypes@, "Conjugator"@) ==> {
                &&& final(self).collection.notetypes@.len() == old(self).collection.notetypes@.len() + 1
                &&& final(self).collection.notetypes@.subrange(
                    0,
                    old(self).collection.notetypes@.len() as int,
                ) =~= old(self).collection.notetypes@
                &&& is_conjugator_notetype(final(self).collection.notetypes@.last())
            },
            has_notetype(final(self).collection.notetypes@, "Conjugator"@),
    {
        let found = match self.collection.get_notetype_by_name("Conjugator") {
            Some(_) => true,
            None => false,
        };
        if !found {
            create_notetype(&mut self.collection);
            proof {
                let nts = self.collection.notetypes@;
                assert(nts[nts.len() - 1].name@ == "Conjugator"@);
            }
        }
    }

    /// Unconditionally installs the Conjugator note type.
    pub fn prepare(&mut self)
        ensures
            final(self).collection.notes == old(self).collection.notes,
            final(self).collection.decks == old(self).collection.decks,
            final(self).collection.next_note_id == old(self).collection.next_note_id,
            final(self).collection.notetypes@.len() == old(self).collection.notetypes@.len() + 1,
            final(self).collection.notetypes@.subrange(
                0,
                old(self).collection.notetypes@.len() as int,
            ) =~= old(self).collection.notetypes@,
            is_conjugator_notetype(final(self).collection.notetypes@.last()),
    {
        create_notetype(&mut self.collection);
    }
}

} // verus!
