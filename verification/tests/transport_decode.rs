use vella_sdk::transport::{url_base64_decode, ParserError};

#[test]
fn empty_input_is_refused() {
    assert_eq!(url_base64_decode(""), Err(ParserError::EmptyInput));
}

#[test]
fn malformed_base64_is_refused() {
    assert_eq!(url_base64_decode("a"), Err(ParserError::Base64DecodeFailed));
    assert_eq!(url_base64_decode("aGVsbG8"), Err(ParserError::Base64DecodeFailed));
    assert_eq!(url_base64_decode("aGV sbG8="), Err(ParserError::Base64DecodeFailed));
}

#[test]
fn bytes_that_are_no_utf8_are_refused() {
    // "/w==" is the single byte 0xff
    assert_eq!(url_base64_decode("_w=="), Err(ParserError::NonUtfInput));
}

#[test]
fn decoded_text_comes_back_unchanged() {
    assert_eq!(url_base64_decode("aGVsbG8="), Ok("hello".to_string()));
    assert_eq!(url_base64_decode("IGEgCg=="), Ok(" a \n".to_string()));
}

#[test]
fn url_safe_alphabet_is_accepted() {
    // the bytes of "~~~" and of "???" in the URL-safe alphabet
    assert_eq!(url_base64_decode("fn5-"), Ok("~~~".to_string()));
    assert_eq!(url_base64_decode("Pz8_"), Ok("???".to_string()));
    assert_eq!(url_base64_decode("fn5+"), Ok("~~~".to_string()));
    assert_eq!(url_base64_decode("Pz8/"), Ok("???".to_string()));
}

#[test]
fn parser_error_messages() {
    assert_eq!(ParserError::Base64DecodeFailed.message(), "Failed to decode base64 input");
    assert_eq!(ParserError::NonUtfInput.message(), "Decoded data is not a UTF8 string");
    assert_eq!(ParserError::EmptyInput.message(), "Input string is empty");
    assert_eq!(ParserError::EmailParseFailed.message(), "Failed to parse email");
    assert_eq!(ParserError::NoFromHeader.message(), "Email doesn't have a from header");
    assert_eq!(ParserError::NoToHeader.message(), "Email doesn't have a to header");
}
