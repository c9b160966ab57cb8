//! Structured data that an HTML body carries in
//! `<script type="application/ld+json">` elements.
use crate::json::{items, json_document, json_items, json_text, parse_json, referents, write_json};
use crate::model::{lemma_views_push, opt_view, views};
use crate::text::{chars_of, string_of, trim, trimmed};
use vstd::prelude::*;

verus! {

/// For each element of a document that a selector matches, in the order in
/// which `Html::select` yields them, the first piece of text inside it, if
/// it has any; `None` for a selector that cannot be read. That order is the
/// one in which the parser made the nodes: the order of the document,
/// except where the parser moved a node after making it.
pub uninterp spec fn selected_first_texts(html: Seq<char>, selector: Seq<char>) -> Option<
    Seq<Option<Seq<char>>>,
>;

/// The views of a list of optional texts.
pub open spec fn text_options(items: Seq<Option<String>>) -> Seq<Option<Seq<char>>> {
    items.map_values(|x: Option<String>| opt_view(x))
}

/// `Html::parse_document`, `Selector::parse` and `Html::select` of
/// `scraper`, with the first item of `ElementRef::text` copied out for each
/// element found. The result depends on the two texts alone.
#[verifier::external_body]
fn select_first_texts(html: &str, selector: &str) -> (r: Option<Vec<Option<String>>>)
    ensures
        match r {
            Some(texts) => selected_first_texts(html@, selector@) == Some(text_options(texts@)),
            None => selected_first_texts(html@, selector@) is None,
        },
{
    let selector = scraper::Selector::parse(selector).ok()?;
    let document = scraper::Html::parse_document(html);
    Some(document.select(&selector).map(|el| el.text().next().map(|t| t.to_owned())).collect())
}

/// The values of a list written out, each by itself; one that cannot be
/// written is left out.
pub open spec fn written(values: Seq<serde_json::Value>) -> Seq<Seq<char>>
    decreases values.len(),
{
    if values.len() == 0 {
        seq![]
    } else {
        let before = written(values.drop_last());
        match json_text(values.last()) {
            Some(t) => before.push(t),
            None => before,
        }
    }
}

/// The candidates that the text of one script gives: for an array one for
/// each item, for any other value one, for a text that is no JSON none.
pub open spec fn script_candidates(text: Seq<char>) -> Seq<Seq<char>> {
    match json_document(trimmed(text)) {
        None => seq![],
        Some(value) => match json_items(value) {
            Some(values) => written(values),
            None => written(seq![value]),
        },
    }
}

/// The candidates of a run of scripts, script after script. A script
/// without text gives none.
pub open spec fn candidates(texts: Seq<Option<Seq<char>>>) -> Seq<Seq<char>>
    decreases texts.len(),
{
    if texts.len() == 0 {
        seq![]
    } else {
        candidates(texts.drop_last()) + match texts.last() {
            Some(t) => script_candidates(t),
            None => seq![],
        }
    }
}

/// The selector of the scripts that carry structured data.
pub open spec fn script_selector() -> Seq<char> {
    "script[type=\"application/ld+json\"]"@
}

/// The candidates that an HTML body carries.
pub open spec fn json_lds_of(html: Seq<char>) -> Seq<Seq<char>> {
    match selected_first_texts(html, script_selector()) {
        Some(texts) => candidates(texts),
        None => seq![],
    }
}

/// Writes out each value of a list and appends what could be written.
fn append_written(values: &Vec<&serde_json::Value>, out: &mut Vec<String>)
    ensures
        views(final(out)@) == views(old(out)@) + written(referents(values@)),
{
    let ghost all = referents(values@);
    let ghost start = views(out@);
    let mut i: usize = 0;
    assert(start + written(all.take(0)) =~= start);
    while i < values.len()
        invariant
            i <= values.len(),
            all == referents(values@),
            views(out@) == start + written(all.take(i as int)),
        decreases values.len() - i,
    {
        proof {
            assert(all.take(i + 1).drop_last() =~= all.take(i as int));
            assert(all.take(i + 1).last() == *values@[i as int]);
        }
        match write_json(values[i]) {
            Some(s) => {
                proof {
                    lemma_views_push(out@, s);
                    assert((start + written(all.take(i as int))).push(s@) =~= start + written(
                        all.take(i as int),
                    ).push(s@));
                }
                out.push(s);
            },
            None => {},
        }
        i += 1;
    }
    assert(all.take(values.len() as int) == all);
}

/// Appends the candidates that the text of one script gives.
pub fn append_script(text: &str, out: &mut Vec<String>)
    ensures
        views(final(out)@) == views(old(out)@) + script_candidates(text@),
{
    let bare = string_of(&trim(&chars_of(text)));
    match parse_json(bare.as_str()) {
        Some(value) => match items(&value) {
            Some(values) => {
                append_written(&values, out);
            },
            None => {
                let mut single: Vec<&serde_json::Value> = Vec::new();
                single.push(&value);
                assert(referents(single@) =~= seq![value]);
                append_written(&single, out);
            },
        },
        None => {
            assert(views(out@) + script_candidates(text@) =~= views(out@));
        },
    }
}

/// The candidates of a run of scripts, each given by its first piece of
/// text.
pub fn collect_scripts(texts: &Vec<Option<String>>) -> (out: Vec<String>)
    ensures
        views(out@) == candidates(text_options(texts@)),
{
    let ghost all = text_options(texts@);
    let mut out: Vec<String> = Vec::new();
    let mut i: usize = 0;
    assert(views(out@) =~= Seq::<Seq<char>>::empty());
    while i < texts.len()
        invariant
            i <= texts.len(),
            all == text_options(texts@),
            views(out@) == candidates(all.take(i as int)),
        decreases texts.len() - i,
    {
        proof {
            assert(all.take(i + 1).drop_last() =~= all.take(i as int));
            assert(all.take(i + 1).last() == opt_view(texts@[i as int]));
        }
        match &texts[i] {
            Some(t) => {
                append_script(t.as_str(), &mut out);
            },
            None => {
                assert(views(out@) + Seq::<Seq<char>>::empty() =~= views(out@));
            },
        }
        i += 1;
    }
    assert(all.take(texts.len() as int) == all);
    out
}

/// The structured-data candidates of an HTML body, in the order of its
/// scripts; each is one JSON value written out.
pub fn parse_json_lds(html: &str) -> (out: Vec<String>)
    ensures
        views(out@) == json_lds_of(html@),
{
    match select_first_texts(html, "script[type=\"application/ld+json\"]") {
        Some(texts) => collect_scripts(&texts),
        None => {
            let out: Vec<String> = Vec::new();
            assert(views(out@) =~= Seq::<Seq<char>>::empty());
            out
        },
    }
}

/// Each script is read by itself: the candidates of two runs of scripts
/// joined are the candidates of the one followed by those of the other, so
/// a script that gives none changes nothing for its neighbours.
pub proof fn lemma_scripts_are_independent(a: Seq<Option<Seq<char>>>, b: Seq<Option<Seq<char>>>)
    ensures
        candidates(a + b) == candidates(a) + candidates(b),
    decreases b.len(),
{
    if b.len() == 0 {
        assert(a + b =~= a);
        assert(candidates(a) + candidates(b) =~= candidates(a));
    } else {
        lemma_scripts_are_independent(a, b.drop_last());
        assert((a + b).drop_last() =~= a + b.drop_last());
        assert((a + b).last() == b.last());
        let tail = match b.last() {
            Some(t) => script_candidates(t),
            None => seq![],
        };
        assert((candidates(a) + candidates(b.drop_last())) + tail =~= candidates(a) + (candidates(
            b.drop_last(),
        ) + tail));
    }
}

} // verus!
