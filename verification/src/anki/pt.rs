use vstd::prelude::*;
use vstd::pervasive::VecAdditionalExecFns;

use crate::anki::{
    AnkiHandler, Note, NoteV, has_deck, key_count, lemma_match_indices_props,
    lemma_match_indices_push, lemma_match_indices_update_same, match_indices, note_matches,
    notes_wf,
};
use crate::lang::pt::{PtVerbConjugations, PtVocabularyVerb};

verus! {

/// A violation of the one-record-per-key invariant observed in the store.
#[derive(Clone, Copy, Debug, PartialEq, Eq, Structural)]
pub enum SyncError {
    UniquenessViolation,
}

/// The comment text a candidate record carries: the vocabulary entry's own
/// comment, or nothing.
pub open spec fn spec_comment(v: PtVocabularyVerb) -> Seq<char> {
    match v.comments {
        Some(c) => c@,
        None => Seq::<char>::empty(),
    }
}

/// The 0/1/else existence outcome over the stored records: absent, present
/// exactly once, or a uniqueness violation.
pub open spec fn spec_exists_outcome(notes: Seq<NoteV>, key: Seq<char>) -> Result<
    bool,
    SyncError,
> {
    let k = key_count(notes, key);
    if k == 0 {
        Ok(false)
    } else if k == 1 {
        Ok(true)
    } else {
        Err(SyncError::UniquenessViolation)
    }
}

/// What synchronizing one candidate record does to the stored records:
/// insert under a fresh identity into the "Portuguese" deck with the
/// "Conjugator" note type when the key is absent, overwrite the single
/// match in place (keeping its identity, its deck, its note type and its
/// audio fields) when the key is present once, and refuse to touch
/// anything when the key is stored more than once.
pub open spec fn spec_sync(
    notes: Seq<NoteV>,
    next_id: int,
    src: Seq<char>,
    tgt: Seq<char>,
    cmt: Seq<char>,
) -> Result<Seq<NoteV>, SyncError> {
    let mi = match_indices(notes, src);
    if mi.len() == 0 {
        Ok(
            notes.push(
                NoteV {
                    id: next_id,
                    deck: "Portuguese"@,
                    notetype: "Conjugator"@,
                    fields: seq![src, tgt, cmt, Seq::<char>::empty(), Seq::<char>::empty()],
                },
            ),
        )
    } else if mi.len() == 1 {
        let i = mi[0];
        Ok(
            notes.update(
                i,
                NoteV {
                    id: notes[i].id,
                    deck: notes[i].deck,
                    notetype: notes[i].notetype,
                    fields: seq![src, tgt, cmt, notes[i].fields[3], notes[i].fields[4]],
                },
            ),
        )
    } else {
        Err(SyncError::UniquenessViolation)
    }
}

impl AnkiHandler {
    /// Whether a record for this vocabulary key is stored: `Ok(false)` for
    /// no match, `Ok(true)` for exactly one, and a uniqueness violation
    /// for more.
    pub fn has_verb(&self, p0: &PtVocabularyVerb) -> (r: Result<bool, SyncError>)
        ensures
            r == spec_exists_outcome(self.collection.notes.deep_view(), p0.pt@),
    {
        let idxs = self.collection.find_note_indices(p0.pt.as_str());
        if idxs.len() == 0 {
            Ok(false)
        } else if idxs.len() == 1 {
            Ok(true)
        } else {
            Err(SyncError::UniquenessViolation)
        }
    }

    /// Synchronizes one conjugated verb into the store, as `spec_sync`
    /// says: at most one record per vocabulary key, updates in place, and
    /// a hard failure when the store already violates uniqueness. The
    /// "Portuguese" deck is resolved or created first, and nothing else
    /// about the deck list changes.
    pub fn add_verb(&mut self, verb: &PtVerbConjugations) -> (r: Result<(), SyncError>)
        requires
            old(self).collection.next_note_id < u64::MAX,
            notes_wf(old(self).collection.notes.deep_view()),
        ensures
            notes_wf(final(self).collection.notes.deep_view()),
            final(self).collection.notetypes == old(self).collection.notetypes,
            has_deck(final(self).collection.decks@, "Portuguese"@),
            has_deck(old(self).collection.decks@, "Portuguese"@) ==> final(self).collection.decks
                == old(self).collection.decks,
            !has_deck(old(self).collection.decks@, "Portuguese"@) ==> {
                &&& final(self).collection.decks@.len() == old(self).collection.decks@.len() + 1
                &&& final(self).collection.decks@.subrange(
                    0,
                    old(self).collection.decks@.len() as int,
                ) =~= old(self).collection.decks@
                &&& final(self).collection.decks@.last().name@ == "Portuguese"@
            },
            final(self).collection.next_note_id == if key_count(
                old(self).collection.notes.deep_view(),
                verb.vocabulary.pt@,
            ) == 0 && r is Ok {
                old(self).collection.next_note_id + 1
            } else {
                old(self).collection.next_note_id as int
            },
            match r {
                Ok(_) => spec_sync(
                    old(self).collection.notes.deep_view(),
                    old(self).collection.next_note_id as int,
                    verb.vocabulary.pt@,
                    verb.vocabulary.en@,
                    spec_comment(verb.vocabulary),
                ) == Ok::<_, SyncError>(final(self).collection.notes.deep_view()),
                Err(e) => spec_sync(
                    old(self).collection.notes.deep_view(),
                    old(self).collection.next_note_id as int,
                    verb.vocabulary.pt@,
                    verb.vocabulary.en@,
                    spec_comment(verb.vocabulary),
                ) == Err::<Seq<NoteV>, _>(e) && final(self).collection.notes == old(self).collection.notes,
            },
    {
        let ghost old_dv = self.collection.notes.deep_view();
        let ghost src = verb.vocabulary.pt@;
        let ghost tgt = verb.vocabulary.en@;
        let ghost cmt = spec_comment(verb.vocabulary);

        self.collection.get_or_create_normal_deck("Portuguese");

        let idxs = self.collection.find_note_indices(verb.vocabulary.pt.as_str());
        proof {
            lemma_match_indices_props(old_dv, src);
        }
        let comment = match &verb.vocabulary.comments {
            Some(c) => c.clone(),
            None => String::new(),
        };
        if idxs.len() == 0 {
            let mut fields: Vec<String> = Vec::new();
            fields.push(verb.vocabulary.pt.clone());
            fields.push(verb.vocabulary.en.clone());
            fields.push(comment);
            fields.push(String::new());
            fields.push(String::new());
            proof {
                assert(fields.deep_view() =~= seq![
                    src,
                    tgt,
                    cmt,
                    Seq::<char>::empty(),
                    Seq::<char>::empty(),
                ]);
            }
            let note = Note {
                id: self.collection.next_note_id,
                deck: "Portuguese".to_owned(),
                notetype: "Conjugator".to_owned(),
                fields,
            };
            let ghost nv = note.deep_view();
            self.collection.notes.push(note);
            self.collection.next_note_id = self.collection.next_note_id + 1;
            proof {
                assert(self.collection.notes.deep_view() =~= old_dv.push(nv));
                assert(nv =~= NoteV {
                    id: old(self).collection.next_note_id as int,
                    deck: "Portuguese"@,
                    notetype: "Conjugator"@,
                    fields: seq![src, tgt, cmt, Seq::<char>::empty(), Seq::<char>::empty()],
                });
                assert(notes_wf(self.collection.notes.deep_view()));
            }
            Ok(())
        } else if idxs.len() == 1 {
            let idx = idxs[0];
            proof {
                assert(idx as int == match_indices(old_dv, src)[0]);
                assert(0 <= (idx as int) && (idx as int) < old_dv.len());
                assert(note_matches(old_dv[idx as int], src));
                assert(old_dv[idx as int].fields.len() == 5);
                assert(self.collection.notes@[idx as int].deep_view() == old_dv[idx as int]);
            }
            let old_id = self.collection.notes[idx].id;
            let old_deck = self.collection.notes[idx].deck.clone();
            let old_notetype = self.collection.notes[idx].notetype.clone();
            let a3 = self.collection.notes[idx].fields[3].clone();
            let a4 = self.collection.notes[idx].fields[4].clone();
            let mut fields: Vec<String> = Vec::new();
            fields.push(verb.vocabulary.pt.clone());
            fields.push(verb.vocabulary.en.clone());
            fields.push(comment);
            fields.push(a3);
            fields.push(a4);
            proof {
                assert(fields.deep_view() =~= seq![
                    src,
                    tgt,
                    cmt,
                    old_dv[idx as int].fields[3],
                    old_dv[idx as int].fields[4],
                ]);
            }
            let note = Note { id: old_id, deck: old_deck, notetype: old_notetype, fields };
            let ghost nv = note.deep_view();
            self.collection.notes.set(idx, note);
            proof {
                assert(self.collection.notes.deep_view() =~= old_dv.update(idx as int, nv));
                assert(nv =~= NoteV {
                    id: old_dv[idx as int].id,
                    deck: old_dv[idx as int].deck,
                    notetype: old_dv[idx as int].notetype,
                    fields: seq![
                        src,
                        tgt,
                        cmt,
                        old_dv[idx as int].fields[3],
                        old_dv[idx as int].fields[4],
                    ],
                });
                assert(notes_wf(self.collection.notes.deep_view()));
            }
            Ok(())
        } else {
            Err(SyncError::UniquenessViolation)
        }
    }
}

// ============================================================================
// The synchronizer's laws
// ============================================================================

/// Synchronizing the same candidate twice stores exactly one record for
/// its key, the second pass changes nothing, and the record carries the
/// candidate's Source, Target and Comment. A record inserted fresh sits
/// in the "Portuguese" deck under the "Conjugator" note type; a record
/// that was already stored keeps its deck and note type.
pub proof fn lemma_sync_idempotent(
    notes: Seq<NoteV>,
    next_id: int,
    next_id2: int,
    src: Seq<char>,
    tgt: Seq<char>,
    cmt: Seq<char>,
)
    requires
        notes_wf(notes),
        key_count(notes, src) <= 1,
    ensures
        spec_sync(notes, next_id, src, tgt, cmt) is Ok,
        ({
            let n1 = spec_sync(notes, next_id, src, tgt, cmt)->Ok_0;
            &&& spec_sync(n1, next_id2, src, tgt, cmt) == Ok::<_, SyncError>(n1)
            &&& key_count(n1, src) == 1
            &&& notes_wf(n1)
            &&& ({
                let i = match_indices(n1, src)[0];
                &&& 0 <= i < n1.len()
                &&& n1[i].fields.len() == 5
                &&& n1[i].fields[0] == src
                &&& n1[i].fields[1] == tgt
                &&& n1[i].fields[2] == cmt
                &&& key_count(notes, src) == 0 ==> n1[i].deck == "Portuguese"@ && n1[i].notetype
                    == "Conjugator"@
                &&& key_count(notes, src) == 1 ==> n1[i].deck == notes[match_indices(
                    notes,
                    src,
                )[0]].deck && n1[i].notetype == notes[match_indices(notes, src)[0]].notetype
            })
        }),
{
    let mi = match_indices(notes, src);
    lemma_match_indices_props(notes, src);
    if mi.len() == 0 {
        let cand = NoteV {
            id: next_id,
            deck: "Portuguese"@,
            notetype: "Conjugator"@,
            fields: seq![src, tgt, cmt, Seq::<char>::empty(), Seq::<char>::empty()],
        };
        let n1 = notes.push(cand);
        assert(note_matches(cand, src));
        lemma_match_indices_push(notes, cand, src);
        assert(mi =~= Seq::<int>::empty());
        assert(match_indices(n1, src) =~= seq![notes.len() as int]);
        assert(notes_wf(n1));
        let i = notes.len() as int;
        assert(n1[i] == cand);
        let rec2 = NoteV {
            id: n1[i].id,
            deck: n1[i].deck,
            notetype: n1[i].notetype,
            fields: seq![src, tgt, cmt, n1[i].fields[3], n1[i].fields[4]],
        };
        assert(rec2 =~= cand);
        assert(n1.update(i, rec2) =~= n1);
    } else {
        let i0 = mi[0];
        assert(0 <= i0 < notes.len() && note_matches(notes[i0], src));
        let rec1 = NoteV {
            id: notes[i0].id,
            deck: notes[i0].deck,
            notetype: notes[i0].notetype,
            fields: seq![src, tgt, cmt, notes[i0].fields[3], notes[i0].fields[4]],
        };
        let n1 = notes.update(i0, rec1);
        assert(note_matches(rec1, src));
        lemma_match_indices_update_same(notes, i0, rec1, src);
        assert(match_indices(n1, src) == mi);
        assert(notes_wf(n1)) by {
            assert(forall|j: int| 0 <= j < n1.len() ==> (#[trigger] n1[j]).fields.len() == 5);
        }
        assert(n1[i0] == rec1);
        let rec2 = NoteV {
            id: n1[i0].id,
            deck: n1[i0].deck,
            notetype: n1[i0].notetype,
            fields: seq![src, tgt, cmt, n1[i0].fields[3], n1[i0].fields[4]],
        };
        assert(rec2 =~= rec1);
        assert(n1.update(i0, rec2) =~= n1);
    }
}

/// Synchronizing new content for an already-stored key overwrites the one
/// stored record in place: afterwards the key is still stored exactly
/// once, under the same record identity, deck and note type, with the new
/// Target; no second record appears.
pub proof fn lemma_sync_updates(
    notes: Seq<NoteV>,
    next_id: int,
    src: Seq<char>,
    tgt: Seq<char>,
    cmt: Seq<char>,
)
    requires
        notes_wf(notes),
        key_count(notes, src) == 1,
    ensures
        spec_sync(notes, next_id, src, tgt, cmt) is Ok,
        ({
            let n1 = spec_sync(notes, next_id, src, tgt, cmt)->Ok_0;
            &&& n1.len() == notes.len()
            &&& key_count(n1, src) == 1
            &&& ({
                let i = match_indices(notes, src)[0];
                &&& match_indices(n1, src)[0] == i
                &&& n1[i].id == notes[i].id
                &&& n1[i].deck == notes[i].deck
                &&& n1[i].notetype == notes[i].notetype
                &&& n1[i].fields[0] == src
                &&& n1[i].fields[1] == tgt
                &&& n1[i].fields[2] == cmt
            })
        }),
{
    let mi = match_indices(notes, src);
    lemma_match_indices_props(notes, src);
    let i0 = mi[0];
    let rec1 = NoteV {
        id: notes[i0].id,
        deck: notes[i0].deck,
        notetype: notes[i0].notetype,
        fields: seq![src, tgt, cmt, notes[i0].fields[3], notes[i0].fields[4]],
    };
    let n1 = notes.update(i0, rec1);
    assert(note_matches(rec1, src));
    lemma_match_indices_update_same(notes, i0, rec1, src);
}

/// A store already holding two records for one key is corrupt: both the
/// existence check and the synchronizer refuse it with a uniqueness
/// violation rather than picking a record.
pub proof fn lemma_uniqueness_guard(
    notes: Seq<NoteV>,
    next_id: int,
    src: Seq<char>,
    tgt: Seq<char>,
    cmt: Seq<char>,
)
    requires
        key_count(notes, src) >= 2,
    ensures
        spec_sync(notes, next_id, src, tgt, cmt) == Err::<Seq<NoteV>, _>(
            SyncError::UniquenessViolation,
        ),
        spec_exists_outcome(notes, src) == Err::<bool, _>(SyncError::UniquenessViolation),
{
}

} // verus!
