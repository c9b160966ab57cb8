//! The entry guard of the pipeline: a message arrives as URL-safe base64 of
//! UTF-8 text.
use crate::text::{chars_of, string_of, utf8_decoded, utf8_text};
use vstd::prelude::*;

verus! {

/// Why a message could not be decoded.
#[derive(Clone, Copy, Debug, PartialEq, Eq, Structural)]
pub enum ParserError {
    Base64DecodeFailed,
    NonUtfInput,
    EmptyInput,
    EmailParseFailed,
    NoFromHeader,
    NoToHeader,
}

impl ParserError {
    /// The text shown for each error.
    pub open spec fn text(self) -> Seq<char> {
        match self {
            ParserError::Base64DecodeFailed => "Failed to decode base64 input"@,
            ParserError::NonUtfInput => "Decoded data is not a UTF8 string"@,
            ParserError::EmptyInput => "Input string is empty"@,
            ParserError::EmailParseFailed => "Failed to parse email"@,
            ParserError::NoFromHeader => "Email doesn't have a from header"@,
            ParserError::NoToHeader => "Email doesn't have a to header"@,
        }
    }

    /// The text shown for the error.
    pub fn message(&self) -> (s: String)
        ensures
            s@ == self.text(),
    {
        match self {
            ParserError::Base64DecodeFailed => "Failed to decode base64 input".to_owned(),
            ParserError::NonUtfInput => "Decoded data is not a UTF8 string".to_owned(),
            ParserError::EmptyInput => "Input string is empty".to_owned(),
            ParserError::EmailParseFailed => "Failed to parse email".to_owned(),
            ParserError::NoFromHeader => "Email doesn't have a from header".to_owned(),
            ParserError::NoToHeader => "Email doesn't have a to header".to_owned(),
        }
    }
}

/// The bytes that a text in standard, padded base64 encodes, if it is
/// well-formed.
pub uninterp spec fn base64_decoded(text: Seq<char>) -> Option<Seq<u8>>;

/// `Engine::decode` of `base64`'s `STANDARD` engine: the decoded bytes, or
/// `None` where the engine reports an error. The result depends on the text
/// alone.
#[verifier::external_body]
fn standard_decode(text: &str) -> (r: Option<Vec<u8>>)
    ensures
        match r {
            Some(bytes) => base64_decoded(text@) == Some(bytes@),
            None => base64_decoded(text@) is None,
        },
{
    base64::Engine::decode(&base64::engine::general_purpose::STANDARD, text).ok()
}

/// A character of the URL-safe alphabet as the standard alphabet has it.
pub open spec fn standard_char(c: char) -> char {
    if c == '-' {
        '+'
    } else if c == '_' {
        '/'
    } else {
        c
    }
}

/// A text in URL-safe base64 rewritten in the standard alphabet.
pub open spec fn standard_alphabet(s: Seq<char>) -> Seq<char> {
    s.map_values(|c: char| standard_char(c))
}

/// What decoding an encoded message gives: its text, or the reason why it
/// has none.
pub open spec fn decoded_text(s: Seq<char>) -> Result<Seq<char>, ParserError> {
    if s.len() == 0 {
        Err(ParserError::EmptyInput)
    } else {
        match base64_decoded(standard_alphabet(s)) {
            None => Err(ParserError::Base64DecodeFailed),
            Some(bytes) => match utf8_decoded(bytes) {
                None => Err(ParserError::NonUtfInput),
                Some(text) => Ok(text),
            },
        }
    }
}

/// Rewrites URL-safe base64 in the standard alphabet.
fn to_standard_alphabet(s: &str) -> (out: String)
    ensures
        out@ == standard_alphabet(s@),
{
    let chars = chars_of(s);
    let mut mapped: Vec<char> = Vec::new();
    let mut i: usize = 0;
    while i < chars.len()
        invariant
            i <= chars.len(),
            mapped@.len() == i,
            forall|k: int| 0 <= k < i ==> mapped@[k] == standard_char(#[trigger] chars@[k]),
        decreases chars.len() - i,
    {
        let c = chars[i];
        mapped.push(
            if c == '-' {
                '+'
            } else if c == '_' {
                '/'
            } else {
                c
            },
        );
        i += 1;
    }
    assert(mapped@ =~= standard_alphabet(chars@));
    string_of(&mapped)
}

/// Decodes a message that arrives as URL-safe base64 of UTF-8 text. The
/// decoded text is returned as it is.
pub fn url_base64_decode(s: &str) -> (r: Result<String, ParserError>)
    ensures
        match r {
            Ok(text) => decoded_text(s@) == Ok::<Seq<char>, ParserError>(text@),
            Err(e) => decoded_text(s@) == Err::<Seq<char>, ParserError>(e),
        },
{
    if s.is_empty() {
        return Err(ParserError::EmptyInput);
    }
    let standard = to_standard_alphabet(s);
    match standard_decode(standard.as_str()) {
        Some(bytes) => match utf8_text(bytes) {
            Some(text) => Ok(text),
            None => Err(ParserError::NonUtfInput),
        },
        None => Err(ParserError::Base64DecodeFailed),
    }
}

} // verus!
