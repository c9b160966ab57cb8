use vella_sdk::tokenizers::{
    batch_of, ids_of_outcome, limits_fit, texts_of_outcome, tokens_of_outcome, Encoded,
    SpecialTokens, TokenizeError,
};

fn sample() -> Encoded {
    Encoded {
        tokens: vec!["he".to_string(), "llo".to_string(), "!".to_string()],
        ids: vec![7, 8, 9],
        offsets: vec![(0, 2), (2, 5), (5, 6)],
        attention_mask: vec![1, 1, 1],
        type_ids: vec![0, 0, 0],
    }
}

#[test]
fn tokens_join_the_three_columns() {
    let tokens = sample().tokens();
    assert_eq!(tokens.len(), 3);
    assert_eq!(tokens[1].id, 8);
    assert_eq!(tokens[1].token, "llo");
    assert_eq!(tokens[1].start, 2);
    assert_eq!(tokens[1].end, 5);
}

#[test]
fn tokens_stop_at_the_shortest_column() {
    let mut e = sample();
    e.ids.pop();
    assert_eq!(e.tokens().len(), 2);
    e.offsets.clear();
    assert_eq!(e.tokens().len(), 0);
}

#[test]
fn batch_keeps_one_row_per_encoding() {
    let batch = batch_of(&vec![sample(), sample()]);
    assert_eq!(batch.token_ids, vec![vec![7, 8, 9], vec![7, 8, 9]]);
    assert_eq!(batch.attention_mask.len(), 2);
    assert_eq!(batch.type_ids[1], vec![0, 0, 0]);
}

#[test]
fn special_tokens_as_flag() {
    assert!(bool::from(SpecialTokens::Yes));
    assert!(!bool::from(SpecialTokens::No));
}

#[test]
fn tokenize_error_messages() {
    assert_eq!(TokenizeError::TokenizerCreationFailed.message(), "Tokenizer creation failed");
    assert_eq!(TokenizeError::InputEncodingFailed.message(), "Input encoding failed");
    assert_eq!(TokenizeError::InvalidTruncationParams.message(), "Invalid truncation params");
}

#[test]
fn an_encoding_gives_its_tokens_ids_and_texts() {
    let tokens = tokens_of_outcome(Some(sample())).unwrap();
    let got: Vec<(u32, &str, u32, u32)> =
        tokens.iter().map(|t| (t.id, t.token.as_str(), t.start, t.end)).collect();
    assert_eq!(got, vec![(7, "he", 0, 2), (8, "llo", 2, 5), (9, "!", 5, 6)]);
    assert_eq!(ids_of_outcome(Some(sample())), Ok(vec![7, 8, 9]));
    assert_eq!(
        texts_of_outcome(Some(sample())),
        Ok(vec!["he".to_string(), "llo".to_string(), "!".to_string()])
    );
}

#[test]
fn no_encoding_gives_input_encoding_failed() {
    assert_eq!(tokens_of_outcome(None).err(), Some(TokenizeError::InputEncodingFailed));
    assert_eq!(ids_of_outcome(None), Err(TokenizeError::InputEncodingFailed));
    assert_eq!(texts_of_outcome(None), Err(TokenizeError::InputEncodingFailed));
}

#[test]
fn a_truncation_is_safe_when_its_stride_is_below_every_length_it_cuts_to() {
    assert!(limits_fit(None, 0));
    assert!(limits_fit(None, 7));
    assert!(limits_fit(Some((4, 3)), 0));
    assert!(!limits_fit(Some((4, 4)), 0));
    assert!(limits_fit(Some((0, 9)), 0));
    assert!(limits_fit(Some((4, 1)), 2));
    assert!(!limits_fit(Some((4, 2)), 2));
    assert!(limits_fit(Some((2, 1)), 2));
    assert!(!limits_fit(Some((2, 2)), 2));
    assert!(!limits_fit(Some((1, 0)), 2));
    assert!(limits_fit(Some((usize::MAX, usize::MAX - 1)), 0));
}
