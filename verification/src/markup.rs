use vstd::prelude::*;

use crate::lang::pt::{BlockV, ConjugationRow, RowV, TenseBlock};

verus! {

// ============================================================================
// The markup parser behind this module is the scraper crate. HTML parsing,
// selector matching and serialization are functions of the document text
// alone, so what each trusted function below reads out of a document is
// named rather than written out, and everything this library decides is
// decided afterwards, in verified code, over the plain text fragments.
// ============================================================================

/// The result boxes of a conjugation document, in document order: each
/// box's rendered tense label and the box's own markup.
pub uninterp spec fn block_shells_of(doc: Seq<char>) -> Seq<(Seq<char>, Seq<char>)>;

/// The person rows of one tense box's markup, in document order: each
/// list item's first person label, root, regular-suffix and
/// irregular-suffix fragment; an absent fragment is `None`, an absent
/// person element an empty label.
pub uninterp spec fn block_rows_of(fragment: Seq<char>) -> Seq<RowV>;

/// The tense blocks of a conjugation document: each result box's label
/// with the rows read out of its markup.
pub open spec fn tense_blocks_of(doc: Seq<char>) -> Seq<BlockV> {
    block_shells_of(doc).map_values(
        |sh: (Seq<char>, Seq<char>)| BlockV { name: sh.0, rows: block_rows_of(sh.1) },
    )
}

/// Relies on scraper's `Html::parse_document` (which never fails hard),
/// `Selector::parse` (on two fixed, valid selector groups), `Html::select`,
/// `ElementRef::select`, `ElementRef::inner_html` and `ElementRef::html`:
/// the result boxes of the document with their tense labels, a function
/// of the document text alone.
#[verifier::external_body]
fn extract_block_shells(document: &str) -> (shells: Vec<(String, String)>)
    ensures
        shells.deep_view() == block_shells_of(document@),
{
    let boxes = scraper::Selector::parse(
        "div.result-block-api > div.word-wrap-row > div.wrap-three-col > div.blue-box-wrap",
    )
    .unwrap();
    let label = scraper::Selector::parse("p").unwrap();
    let html = scraper::Html::parse_document(document);
    html.select(&boxes)
        .map(|bx| (bx.select(&label).next().map(|e| e.inner_html()).unwrap_or_default(), bx.html()))
        .collect()
}

/// Relies on scraper's `Html::parse_fragment` (which never fails hard),
/// `Selector::parse` (on five fixed, valid selector groups),
/// `Html::select`, `ElementRef::select` and `ElementRef::inner_html`: the
/// person rows of one tense box's markup, a function of that text alone.
#[verifier::external_body]
fn extract_rows(fragment: &str) -> (rows: Vec<ConjugationRow>)
    ensures
        rows.deep_view() == block_rows_of(fragment@),
{
    let sel = |css: &str| scraper::Selector::parse(css).unwrap();
    let first = |el: &scraper::ElementRef<'_>, css: &str| el.select(&sel(css)).next().map(|e| e.inner_html());
    let html = scraper::Html::parse_fragment(fragment);
    html.select(&sel("ul > li"))
        .map(|li| ConjugationRow {
            person: first(&li, "i:first-child").unwrap_or_default(),
            root: first(&li, "i:last-child > i.verbtxt"),
            regular: first(&li, "i:last-child > i.verbtxt-term"),
            irregular: first(&li, "i:last-child > i.verbtxt-term-irr"),
        })
        .collect()
}

/// Reads the tense blocks of a conjugation document, exactly
/// `tense_blocks_of` of its text: each result box with its rendered tense
/// label and its person rows.
pub fn extract_tense_blocks(document: &str) -> (blocks: Vec<TenseBlock>)
    ensures
        blocks.deep_view() == tense_blocks_of(document@),
{
    let shells = extract_block_shells(document);
    let ghost sv = shells.deep_view();
    let mut blocks: Vec<TenseBlock> = Vec::new();
    let mut i: usize = 0;
    proof {
        assert(blocks.deep_view() =~= Seq::<BlockV>::empty());
        assert(tense_blocks_of(document@).take(0) =~= Seq::<BlockV>::empty());
    }
    while i < shells.len()
        invariant
            i <= shells@.len(),
            sv == shells.deep_view(),
            sv.len() == shells@.len(),
            blocks.deep_view() == tense_blocks_of(document@).take(i as int),
            sv == block_shells_of(document@),
        decreases shells@.len() - i,
    {
        let shell = &shells[i];
        proof {
            assert(shell.deep_view() == sv[i as int]);
        }
        let rows = extract_rows(shell.1.as_str());
        let block = TenseBlock { name: shell.0.clone(), rows };
        let ghost old_blocks = blocks.deep_view();
        blocks.push(block);
        proof {
            assert(block.deep_view() == tense_blocks_of(document@)[i as int]);
            assert(blocks.deep_view() =~= old_blocks.push(block.deep_view()));
            assert(tense_blocks_of(document@).take(i as int + 1) =~= tense_blocks_of(
                document@,
            ).take(i as int).push(tense_blocks_of(document@)[i as int]));
        }
        i += 1;
    }
    proof {
        assert(tense_blocks_of(document@).take(i as int) =~= tense_blocks_of(document@));
    }
    blocks
}

} // verus!
