//! The MIME parser: `mail-parser` reads a message, and what it found is
//! copied into plain values, accessor by accessor.
use crate::address::{Header, HeaderView, RawAddress, RawAddressView};
use crate::email::{list_view, Attachment, AttachmentView, ParsedMessage, ParsedMessageView};
use crate::model::{opt_view, views};
use vstd::prelude::*;

verus! {

/// `mail_parser::Message`, a parsed message. Nothing inside it is seen
/// here.
#[verifier::external_type_specification]
#[verifier::external_body]
pub struct ExMessage<'x>(mail_parser::Message<'x>);

/// The message that a text parses to, where the parser makes one of it.
pub uninterp spec fn parsed_message(text: Seq<char>) -> Option<mail_parser::Message<'static>>;

/// The raw text of the last header of a name.
pub uninterp spec fn message_raw_header(message: mail_parser::Message<'_>, name: Seq<char>) -> Option<
    Seq<char>,
>;

/// The addresses of the last header of a name, where that header is read
/// as addresses and is a plain list of them, not groups.
pub uninterp spec fn message_addresses(message: mail_parser::Message<'_>, name: Seq<char>) -> Option<
    Seq<RawAddressView>,
>;

/// The last header of a name, where it is read as text.
pub uninterp spec fn message_header_text(message: mail_parser::Message<'_>, name: Seq<char>) -> Option<
    Seq<char>,
>;

/// The `Date` header in seconds since 1970-01-01T00:00:00 UTC.
pub uninterp spec fn message_date(message: mail_parser::Message<'_>) -> Option<i64>;

/// The name of the thread: the subject without what replies and forwards
/// put before it.
pub uninterp spec fn message_thread_name(message: mail_parser::Message<'_>) -> Option<Seq<char>>;

/// Every header line of a message, in order, each with its raw text.
pub uninterp spec fn message_headers(message: mail_parser::Message<'_>) -> Seq<HeaderView>;

/// The text bodies of a message, in order, each as text.
pub uninterp spec fn message_text_bodies(message: mail_parser::Message<'_>) -> Seq<Seq<char>>;

/// The HTML bodies of a message, in order, each as text.
pub uninterp spec fn message_html_bodies(message: mail_parser::Message<'_>) -> Seq<Seq<char>>;

/// The attachments of a message, in order.
pub uninterp spec fn message_attachments(message: mail_parser::Message<'_>) -> Seq<AttachmentView>;

/// `MessageParser::parse` of a parser with the default settings: the
/// message, or `None` where the parser gives none. The result depends on
/// the text alone.
#[verifier::external_body]
pub(crate) fn parse_message<'a>(text: &'a str) -> (r: Option<mail_parser::Message<'a>>)
    ensures
        r == parsed_message(text@),
{
    mail_parser::MessageParser::default().parse(text)
}

/// `Message::header_raw`, copied.
#[verifier::external_body]
fn raw_header(message: &mail_parser::Message<'_>, name: &str) -> (r: Option<String>)
    ensures
        opt_view(r) == message_raw_header(*message, name@),
{
    message.header_raw(name).map(|s| s.to_owned())
}

/// `Message::header`, `HeaderValue::as_address` and `Address::as_list`,
/// with `Addr::name` and `Addr::address` of each address copied.
#[verifier::external_body]
fn address_list(message: &mail_parser::Message<'_>, name: &str) -> (r: Option<Vec<RawAddress>>)
    ensures
        list_view(r) == message_addresses(*message, name@),
{
    message.header(name).and_then(|h| h.as_address()).and_then(|a| a.as_list()).map(|list| {
        list.iter().map(|a| RawAddress {
            name: a.name().map(|s| s.to_owned()),
            address: a.address().map(|s| s.to_owned()),
        }).collect()
    })
}

/// `Message::header` and `HeaderValue::as_text`, copied.
#[verifier::external_body]
fn header_text(message: &mail_parser::Message<'_>, name: &str) -> (r: Option<String>)
    ensures
        opt_view(r) == message_header_text(*message, name@),
{
    message.header(name).and_then(|h| h.as_text()).map(|s| s.to_owned())
}

/// `Message::date`, as the `DateTime::to_timestamp` of the date.
#[verifier::external_body]
fn date_of(message: &mail_parser::Message<'_>) -> (r: Option<i64>)
    ensures
        r == message_date(*message),
{
    message.date().map(|d| d.to_timestamp())
}

/// `Message::thread_name`, copied.
#[verifier::external_body]
fn thread_name_of(message: &mail_parser::Message<'_>) -> (r: Option<String>)
    ensures
        opt_view(r) == message_thread_name(*message),
{
    message.thread_name().map(|s| s.to_owned())
}

/// `Message::headers_raw`, each pair copied.
#[verifier::external_body]
fn headers_of(message: &mail_parser::Message<'_>) -> (r: Vec<Header>)
    ensures
        views(r@) == message_headers(*message),
{
    message.headers_raw().map(|(name, value)| Header {
        name: name.to_owned(),
        value: value.to_owned(),
    }).collect()
}

/// `Message::text_bodies`, each part written out with `to_string`.
#[verifier::external_body]
fn text_bodies_of(message: &mail_parser::Message<'_>) -> (r: Vec<String>)
    ensures
        views(r@) == message_text_bodies(*message),
{
    message.text_bodies().map(|part| part.to_string()).collect()
}

/// `Message::html_bodies`, each part written out with `to_string`.
#[verifier::external_body]
fn html_bodies_of(message: &mail_parser::Message<'_>) -> (r: Vec<String>)
    ensures
        views(r@) == message_html_bodies(*message),
{
    message.html_bodies().map(|part| part.to_string()).collect()
}

/// `Message::attachments`, with `MimeHeaders::content_type` of each part
/// (`ContentType::ctype` and `ContentType::subtype`) and its
/// `MessagePart::text_contents` copied.
#[verifier::external_body]
fn attachments_of(message: &mail_parser::Message<'_>) -> (r: Vec<Attachment>)
    ensures
        views(r@) == message_attachments(*message),
{
    message.attachments().map(|part| Attachment {
        content_type: mail_parser::MimeHeaders::content_type(part).map(|t| t.ctype().to_owned()),
        content_subtype: mail_parser::MimeHeaders::content_type(part).and_then(|t| t.subtype()).map(
            |s| s.to_owned(),
        ),
        text: part.text_contents().map(|s| s.to_owned()),
    }).collect()
}

/// What the parser read off a message: each field from the header of its
/// name.
pub open spec fn message_content(message: mail_parser::Message<'_>) -> ParsedMessageView {
    ParsedMessageView {
        from_header: message_raw_header(message, "From"@),
        from: message_addresses(message, "From"@),
        to_header: message_raw_header(message, "To"@),
        to: message_addresses(message, "To"@),
        cc: message_addresses(message, "Cc"@),
        bcc: message_addresses(message, "Bcc"@),
        subject: message_header_text(message, "Subject"@),
        date: message_date(message),
        content_id: message_header_text(message, "Content-ID"@),
        message_id: message_header_text(message, "Message-ID"@),
        thread_name: message_thread_name(message),
        mime_version: message_header_text(message, "MIME-Version"@),
        headers: message_headers(message),
        text_bodies: message_text_bodies(message),
        html_bodies: message_html_bodies(message),
        attachments: message_attachments(message),
        list_unsubscribe: message_raw_header(message, "list-unsubscribe"@),
        list_unsubscribe_post: message_raw_header(message, "list-unsubscribe-post"@),
    }
}

/// Copies what the parser read off a message.
pub(crate) fn read_message(message: &mail_parser::Message<'_>) -> (parsed: ParsedMessage)
    ensures
        parsed@ == message_content(*message),
{
    ParsedMessage {
        from_header: raw_header(message, "From"),
        from: address_list(message, "From"),
        to_header: raw_header(message, "To"),
        to: address_list(message, "To"),
        cc: address_list(message, "Cc"),
        bcc: address_list(message, "Bcc"),
        subject: header_text(message, "Subject"),
        date: date_of(message),
        content_id: header_text(message, "Content-ID"),
        message_id: header_text(message, "Message-ID"),
        thread_name: thread_name_of(message),
        mime_version: header_text(message, "MIME-Version"),
        headers: headers_of(message),
        text_bodies: text_bodies_of(message),
        html_bodies: html_bodies_of(message),
        attachments: attachments_of(message),
        list_unsubscribe: raw_header(message, "list-unsubscribe"),
        list_unsubscribe_post: raw_header(message, "list-unsubscribe-post"),
    }
}

} // verus!
