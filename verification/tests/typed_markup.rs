use vella_sdk::schemaorg::{pronounceable_texts, PronounceableText};

#[test]
fn one_text_or_a_list_of_texts() {
    let t = PronounceableText::from_markup(
        r#"{"@context":"https://schema.org","phoneticText":"fəˈnɛtɪk","inLanguage":["en","en-GB"],"textValue":"phonetic"}"#,
    )
    .unwrap();
    assert_eq!(t.context, "https://schema.org");
    assert_eq!(t.phonetic_text, vec!["fəˈnɛtɪk".to_string()]);
    assert_eq!(t.in_language, vec!["en".to_string(), "en-GB".to_string()]);
    assert!(t.speech_to_text_markup.is_empty());
    assert_eq!(t.text_value, vec!["phonetic".to_string()]);
}

#[test]
fn a_candidate_that_does_not_fit_is_refused() {
    assert!(PronounceableText::from_markup(r#"{"phoneticText":"x"}"#).is_none());
    assert!(PronounceableText::from_markup(r#"{"@context":1}"#).is_none());
    assert!(PronounceableText::from_markup(r#"{"@context":"c","textValue":5}"#).is_none());
    assert!(PronounceableText::from_markup(r#"{"@context":"c","textValue":["a",5]}"#).is_none());
    assert!(PronounceableText::from_markup("not json").is_none());
    assert!(PronounceableText::from_markup(r#"{"@context":"c"}"#).is_some());
}

#[test]
fn candidates_are_tried_one_by_one() {
    let candidates = vec![
        r#"{"@context":"a"}"#.to_string(),
        r#"{"@type":"Event"}"#.to_string(),
        "oops".to_string(),
        r#"{"@context":"b","textValue":["x","y"]}"#.to_string(),
    ];
    let texts = pronounceable_texts(&candidates);
    assert_eq!(texts.len(), 2);
    assert_eq!(texts[0].context, "a");
    assert_eq!(texts[1].context, "b");
    assert_eq!(texts[1].text_value, vec!["x".to_string(), "y".to_string()]);
    assert!(pronounceable_texts(&vec![]).is_empty());
}

#[test]
fn a_repeated_member_counts_once_and_an_array_is_no_text() {
    let t = PronounceableText::from_markup(r#"{"@context":"first","@context":"second"}"#).unwrap();
    assert_eq!(t.context, "second");
    assert!(PronounceableText::from_markup(r#"["c", [], [], [], []]"#).is_none());
}
