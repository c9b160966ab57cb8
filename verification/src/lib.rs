//! Normalises raw e-mail messages and batches of API responses into
//! structured records.
//!
//! A message arrives as URL-safe base64 of its raw text. It is decoded,
//! handed to a MIME parser, and what the parser found is assembled into
//! one record: addresses and headers, bodies with their visible part,
//! structured data, calendar events and the ways to unsubscribe. A batch
//! is a blob of sections, each of which wraps a message or an error.
pub mod address;
pub mod batch;
pub mod calendar;
pub mod dict;
pub mod email;
pub mod json;
pub mod markup;
pub mod microdata;
pub mod mime;
pub mod model;
pub mod quote;
pub mod reply;
pub mod schemaorg;
pub mod text;
pub mod tokenizers;
pub mod transport;
pub mod unsubscribe;

pub use address::{parse_addr, parse_addrs, EmailAddress, EmailAddressWithText, Header, RawAddress};
pub use batch::{
    parse_batch_response, parse_gmail, BatchResponse, BatchSection, GmailError, GmailErrorItem,
    GmailMessage, GmailMessageIn,
};
pub use calendar::{
    get_timestamp, parse_calendar_event, parse_events, CalendarEvent, CalendarEventStatus,
    CalendarTime,
};
pub use email::{assemble_email, parse_email, Email, ParsedMessage};
pub use markup::parse_json_lds;
pub use microdata::{extract_microdata, extract_microdata_items, MicrodataItem};
pub use quote::{
    escape_text, parse_html, parse_text, parse_visible_html, parse_visible_text, EmailText,
};
pub use schemaorg::PronounceableText;
pub use tokenizers::{
    CustomTokenizerInner, PaddingDirection, PaddingParams, PaddingStrategy, SpecialTokens, Token,
    TokenizeError, TokenizedBatch, TruncationDirection, TruncationParams, TruncationStrategy,
};
pub use transport::{url_base64_decode, ParserError};
pub use unsubscribe::{
    extract_unsubscribe, Unsubscribe, UnsubscribeEmail, UnsubscribePost,
};
