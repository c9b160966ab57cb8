//! Typed readings of structured-data candidates.
use crate::json::{
    all_strings, as_string, items, json_document, json_items, json_member, json_string,
    lemma_all_strings_fails, member, parse_json, read_string, referents, string_member,
};
use crate::model::{lemma_views_push, opt_view, views};
use vstd::prelude::*;

verus! {

///<https://schema.org/PronounceableText>
#[derive(Debug)]
pub struct PronounceableText {
    pub context: String,
    ///<https://schema.org/phoneticText>
    pub phonetic_text: Vec<String>,
    ///<https://schema.org/inLanguage>, each language given as text
    pub in_language: Vec<String>,
    ///<https://schema.org/speechToTextMarkup>
    pub speech_to_text_markup: Vec<String>,
    ///<https://schema.org/textValue>
    pub text_value: Vec<String>,
}

/// The content of a [`PronounceableText`].
pub struct PronounceableTextView {
    pub context: Seq<char>,
    pub phonetic_text: Seq<Seq<char>>,
    pub in_language: Seq<Seq<char>>,
    pub speech_to_text_markup: Seq<Seq<char>>,
    pub text_value: Seq<Seq<char>>,
}

impl View for PronounceableText {
    type V = PronounceableTextView;

    open spec fn view(&self) -> PronounceableTextView {
        PronounceableTextView {
            context: self.context@,
            phonetic_text: views(self.phonetic_text@),
            in_language: views(self.in_language@),
            speech_to_text_markup: views(self.speech_to_text_markup@),
            text_value: views(self.text_value@),
        }
    }
}

/// The texts under a key that may hold one text or a list of texts; a
/// missing member holds none. Anything else cannot be read.
pub open spec fn one_or_many(value: serde_json::Value, key: Seq<char>) -> Option<Seq<Seq<char>>> {
    match json_member(value, key) {
        None => Some(seq![]),
        Some(m) => match json_string(m) {
            Some(s) => Some(seq![s]),
            None => match json_items(m) {
                Some(list) => all_strings(list),
                None => None,
            },
        },
    }
}

/// The pronounceable text that a JSON value states: an object with the
/// member `@context` and the four lists, each of which may be missing.
///
/// The value is read member by member. Where a member is written twice,
/// the later one counts, since that is the one `serde_json` keeps in the
/// value. A record written as an array of its members in order is not
/// read. A reader that `serde` derives for the record differs in both: it
/// refuses the repeated member and reads the array.
pub open spec fn pronounceable_text(value: serde_json::Value) -> Option<PronounceableTextView> {
    match (
        string_member(value, "@context"@),
        one_or_many(value, "phoneticText"@),
        one_or_many(value, "inLanguage"@),
        one_or_many(value, "speechToTextMarkup"@),
        one_or_many(value, "textValue"@),
    ) {
        (
            Some(context),
            Some(phonetic_text),
            Some(in_language),
            Some(speech_to_text_markup),
            Some(text_value),
        ) => Some(
            PronounceableTextView {
                context,
                phonetic_text,
                in_language,
                speech_to_text_markup,
                text_value,
            },
        ),
        _ => None,
    }
}

/// The pronounceable text that a candidate states, where it states one.
pub open spec fn pronounceable_text_of(candidate: Seq<char>) -> Option<PronounceableTextView> {
    match json_document(candidate) {
        Some(value) => pronounceable_text(value),
        None => None,
    }
}

/// The pronounceable texts among the candidates, in their order.
pub open spec fn pronounceable_texts_of(candidates: Seq<Seq<char>>) -> Seq<PronounceableTextView>
    decreases candidates.len(),
{
    if candidates.len() == 0 {
        seq![]
    } else {
        let before = pronounceable_texts_of(candidates.drop_last());
        match pronounceable_text_of(candidates.last()) {
            Some(t) => before.push(t),
            None => before,
        }
    }
}

fn read_one_or_many(value: &serde_json::Value, key: &str) -> (r: Option<Vec<String>>)
    ensures
        match r {
            Some(list) => one_or_many(*value, key@) == Some(views(list@)),
            None => one_or_many(*value, key@) is None,
        },
{
    let m = match member(value, key) {
        Some(m) => m,
        None => {
            let out: Vec<String> = Vec::new();
            assert(views(out@) =~= Seq::<Seq<char>>::empty());
            return Some(out);
        },
    };
    match as_string(m) {
        Some(s) => {
            let mut out: Vec<String> = Vec::new();
            out.push(s);
            assert(views(out@) =~= seq![s@]);
            return Some(out);
        },
        None => {},
    }
    let list = match items(m) {
        Some(list) => list,
        None => {
            return None;
        },
    };
    let ghost all = referents(list@);
    let mut out: Vec<String> = Vec::new();
    let mut i: usize = 0;
    assert(views(out@) =~= Seq::<Seq<char>>::empty());
    while i < list.len()
        invariant
            i <= list.len(),
            all == referents(list@),
            one_or_many(*value, key@) == all_strings(all),
            all_strings(all.take(i as int)) == Some(views(out@)),
        decreases list.len() - i,
    {
        proof {
            assert(all.take(i + 1).drop_last() =~= all.take(i as int));
            assert(all.take(i + 1).last() == *list@[i as int]);
        }
        match as_string(list[i]) {
            Some(s) => {
                proof {
                    lemma_views_push(out@, s);
                }
                out.push(s);
            },
            None => {
                proof {
                    assert(all_strings(all.take(i + 1)) is None);
                    lemma_all_strings_fails(all, i + 1);
                }
                return None;
            },
        }
        i += 1;
    }
    assert(all.take(list.len() as int) == all);
    Some(out)
}

impl PronounceableText {
    /// Reads a candidate as a pronounceable text.
    pub fn from_markup(candidate: &str) -> (r: Option<PronounceableText>)
        ensures
            opt_view(r) == pronounceable_text_of(candidate@),
    {
        let value = match parse_json(candidate) {
            Some(v) => v,
            None => {
                return None;
            },
        };
        let context = read_string(&value, "@context");
        let phonetic_text = read_one_or_many(&value, "phoneticText");
        let in_language = read_one_or_many(&value, "inLanguage");
        let speech_to_text_markup = read_one_or_many(&value, "speechToTextMarkup");
        let text_value = read_one_or_many(&value, "textValue");
        match (context, phonetic_text, in_language, speech_to_text_markup, text_value) {
            (
                Some(context),
                Some(phonetic_text),
                Some(in_language),
                Some(speech_to_text_markup),
                Some(text_value),
            ) => Some(
                PronounceableText {
                    context,
                    phonetic_text,
                    in_language,
                    speech_to_text_markup,
                    text_value,
                },
            ),
            _ => None,
        }
    }
}

/// The pronounceable texts among the candidates: each candidate is tried by
/// itself, and those that read cleanly are kept in their order.
pub fn pronounceable_texts(candidates: &Vec<String>) -> (out: Vec<PronounceableText>)
    ensures
        views(out@) == pronounceable_texts_of(views(candidates@)),
{
    let ghost all = views(candidates@);
    let mut out: Vec<PronounceableText> = Vec::new();
    let mut i: usize = 0;
    assert(views(out@) =~= Seq::<PronounceableTextView>::empty());
    while i < candidates.len()
        invariant
            i <= candidates.len(),
            all == views(candidates@),
            views(out@) == pronounceable_texts_of(all.take(i as int)),
        decreases candidates.len() - i,
    {
        proof {
            assert(all.take(i + 1).drop_last() =~= all.take(i as int));
            assert(all.take(i + 1).last() == candidates@[i as int]@);
        }
        match PronounceableText::from_markup(candidates[i].as_str()) {
            Some(t) => {
                proof {
                    lemma_views_push(out@, t);
                }
                out.push(t);
            },
            None => {},
        }
        i += 1;
    }
    assert(all.take(candidates.len() as int) == all);
    out
}

} // verus!
