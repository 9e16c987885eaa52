use vstd::prelude::*;

use crate::lang::pt::{
    ConjV, PtPersonalPronoun, PtVerbConjugation, PtVerbConjugations, PtVerbSuffix, conj_v,
    entries_v, spec_person_label, suffix_text_v,
};

verus! {

/// The rendered text of one conjugated form: its root, if any, followed
/// by its suffix.
pub open spec fn conj_text_v(c: ConjV) -> Seq<char> {
    (match c.root {
        Some(r) => r,
        None => Seq::<char>::empty(),
    }) + c.suffix
}

/// One spoken line of the sample text: person label, a space, the
/// conjugated form, then a period and a line break.
pub open spec fn spec_entry_line(e: (PtPersonalPronoun, ConjV)) -> Seq<char> {
    spec_person_label(e.0) + " "@ + conj_text_v(e.1) + "."@ + "\n"@
}

/// The spoken lines of all entries, in table order.
pub open spec fn spec_entry_lines(entries: Seq<(PtPersonalPronoun, ConjV)>) -> Seq<char>
    decreases entries.len(),
{
    if entries.len() == 0 {
        Seq::empty()
    } else {
        spec_entry_lines(entries.drop_last()) + spec_entry_line(entries.last())
    }
}

/// The full sample text: the infinitive with a period, then one line per
/// conjugated form.
pub open spec fn spec_assemble_text(t: PtVerbConjugations) -> Seq<char> {
    t.vocabulary.pt@ + "."@ + spec_entry_lines(entries_v(t.conjugations@))
}

impl PtVerbConjugation {
    /// The rendered text of this form: root, if any, followed by suffix.
    pub fn text(&self) -> (r: String)
        ensures
            r@ == conj_text_v(conj_v(*self)),
    {
        let mut out = match &self.root {
            Some(root) => root.clone(),
            None => String::new(),
        };
        let suffix = match &self.suffix {
            PtVerbSuffix::Regular(s) => s.as_str(),
            PtVerbSuffix::Irregular(s) => s.as_str(),
        };
        proof {
            assert(suffix@ == suffix_text_v(self.suffix));
        }
        out.append(suffix);
        out
    }
}

/// Assembles the text handed to the speech synthesizer: the infinitive,
/// then each person's conjugated form, one sentence per line.
pub fn assemble_text(verb: PtVerbConjugations) -> (r: String)
    ensures
        r@ == spec_assemble_text(verb),
{
    let ghost entries = entries_v(verb.conjugations@);
    let mut text = verb.vocabulary.pt.clone();
    text.append(".");
    proof {
        assert(entries.take(0) =~= Seq::<(PtPersonalPronoun, ConjV)>::empty());
        assert(text@ == verb.vocabulary.pt@ + "."@ + spec_entry_lines(entries.take(0)));
    }
    let mut i: usize = 0;
    while i < verb.conjugations.len()
        invariant
            i <= verb.conjugations@.len(),
            entries == entries_v(verb.conjugations@),
            entries.len() == verb.conjugations@.len(),
            text@ == verb.vocabulary.pt@ + "."@ + spec_entry_lines(entries.take(i as int)),
        decreases verb.conjugations@.len() - i,
    {
        let pair = &verb.conjugations[i];
        proof {
            assert(entries[i as int] == (pair.0, conj_v(pair.1)));
        }
        text.append(pair.0.label());
        text.append(" ");
        let conj_text = pair.1.text();
        text.append(conj_text.as_str());
        text.append(".");
        text.append("\n");
        proof {
            assert(entries.take(i as int + 1).drop_last() =~= entries.take(i as int));
            assert(entries.take(i as int + 1).last() == entries[i as int]);
        }
        i += 1;
    }
    proof {
        assert(entries.take(i as int) =~= entries);
    }
    text
}

} // verus!
