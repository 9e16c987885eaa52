use vstd::prelude::*;

use crate::lang::pt::PtVocabularyVerb;

verus! {

/// Builds a Portuguese vocabulary entry from the fields of one input row:
/// source text, translation, and an optional comment.
pub fn process_verb(fields: Vec<&str>) -> (r: PtVocabularyVerb)
    requires
        fields@.len() >= 2,
    ensures
        r.pt@ == fields@[0]@,
        r.en@ == fields@[1]@,
        r.comments.deep_view() == if fields@.len() >= 3 {
            Some(fields@[2]@)
        } else {
            None::<Seq<char>>
        },
{
    let comments = if fields.len() >= 3 {
        Some(fields[2].to_owned())
    } else {
        None
    };
    PtVocabularyVerb { pt: fields[0].to_owned(), en: fields[1].to_owned(), comments }
}

} // verus!
