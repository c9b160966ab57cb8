//! The structured record of one message, assembled from what the MIME
//! parser reads off it.
use crate::address::{
    normalized_addresses, parse_addrs, EmailAddress, EmailAddressView, EmailAddressWithText,
    EmailAddressWithTextView, Header, HeaderView, RawAddress, RawAddressView,
};
use crate::calendar::{events_of, parse_events, CalendarEvent, CalendarEventView};
use crate::markup::{json_lds_of, parse_json_lds};
use crate::microdata::{extract_microdata, microdata_of, well_formed, MicrodataItem, MicrodataItemView};
use crate::model::{opt_view, views};
use crate::quote::{html_body_of, parse_html, parse_text, text_body_of, EmailText, EmailTextView};
use crate::schemaorg::{
    pronounceable_texts, pronounceable_texts_of, PronounceableText, PronounceableTextView,
};
use crate::text::same_text;
use crate::transport::{decoded_text, url_base64_decode, ParserError};
use crate::unsubscribe::{extract_unsubscribe, unsubscribe_of, Unsubscribe, UnsubscribeView};
use vstd::prelude::*;

verus! {

/// An attachment: its content type, where it states one, and its content
/// as text, where it has one.
#[derive(Debug)]
pub struct Attachment {
    pub content_type: Option<String>,
    pub content_subtype: Option<String>,
    pub text: Option<String>,
}

/// The content of an [`Attachment`].
pub struct AttachmentView {
    pub content_type: Option<Seq<char>>,
    pub content_subtype: Option<Seq<char>>,
    pub text: Option<Seq<char>>,
}

impl View for Attachment {
    type V = AttachmentView;

    open spec fn view(&self) -> AttachmentView {
        AttachmentView {
            content_type: opt_view(self.content_type),
            content_subtype: opt_view(self.content_subtype),
            text: opt_view(self.text),
        }
    }
}

/// What the MIME parser reads off a message.
#[derive(Debug)]
pub struct ParsedMessage {
    /// The raw text of the `From` header.
    pub from_header: Option<String>,
    /// The addresses of the `From` header, where it is a plain list.
    pub from: Option<Vec<RawAddress>>,
    /// The raw text of the `To` header.
    pub to_header: Option<String>,
    /// The addresses of the `To` header, where it is a plain list.
    pub to: Option<Vec<RawAddress>>,
    pub cc: Option<Vec<RawAddress>>,
    pub bcc: Option<Vec<RawAddress>>,
    pub subject: Option<String>,
    /// Seconds since 1970-01-01T00:00:00 UTC.
    pub date: Option<i64>,
    pub content_id: Option<String>,
    pub message_id: Option<String>,
    pub thread_name: Option<String>,
    pub mime_version: Option<String>,
    /// Every header line, in order.
    pub headers: Vec<Header>,
    pub text_bodies: Vec<String>,
    pub html_bodies: Vec<String>,
    pub attachments: Vec<Attachment>,
    /// The raw text of the `List-Unsubscribe` header.
    pub list_unsubscribe: Option<String>,
    /// The raw text of the `List-Unsubscribe-Post` header.
    pub list_unsubscribe_post: Option<String>,
}

/// The content of a [`ParsedMessage`].
pub struct ParsedMessageView {
    pub from_header: Option<Seq<char>>,
    pub from: Option<Seq<RawAddressView>>,
    pub to_header: Option<Seq<char>>,
    pub to: Option<Seq<RawAddressView>>,
    pub cc: Option<Seq<RawAddressView>>,
    pub bcc: Option<Seq<RawAddressView>>,
    pub subject: Option<Seq<char>>,
    pub date: Option<i64>,
    pub content_id: Option<Seq<char>>,
    pub message_id: Option<Seq<char>>,
    pub thread_name: Option<Seq<char>>,
    pub mime_version: Option<Seq<char>>,
    pub headers: Seq<HeaderView>,
    pub text_bodies: Seq<Seq<char>>,
    pub html_bodies: Seq<Seq<char>>,
    pub attachments: Seq<AttachmentView>,
    pub list_unsubscribe: Option<Seq<char>>,
    pub list_unsubscribe_post: Option<Seq<char>>,
}

/// The views of an optional list.
pub open spec fn list_view<T: View>(list: Option<Vec<T>>) -> Option<Seq<T::V>> {
    match list {
        Some(v) => Some(views(v@)),
        None => None,
    }
}

impl View for ParsedMessage {
    type V = ParsedMessageView;

    open spec fn view(&self) -> ParsedMessageView {
        ParsedMessageView {
            from_header: opt_view(self.from_header),
            from: list_view(self.from),
            to_header: opt_view(self.to_header),
            to: list_view(self.to),
            cc: list_view(self.cc),
            bcc: list_view(self.bcc),
            subject: opt_view(self.subject),
            date: self.date,
            content_id: opt_view(self.content_id),
            message_id: opt_view(self.message_id),
            thread_name: opt_view(self.thread_name),
            mime_version: opt_view(self.mime_version),
            headers: views(self.headers@),
            text_bodies: views(self.text_bodies@),
            html_bodies: views(self.html_bodies@),
            attachments: views(self.attachments@),
            list_unsubscribe: opt_view(self.list_unsubscribe),
            list_unsubscribe_post: opt_view(self.list_unsubscribe_post),
        }
    }
}

/// The structured record of a message.
#[derive(Debug)]
pub struct Email {
    pub from: EmailAddressWithText,
    pub from_addresses: Vec<EmailAddress>,
    pub to: EmailAddressWithText,
    pub to_addresses: Vec<EmailAddress>,
    pub cc_addresses: Vec<EmailAddress>,
    pub bcc_addresses: Vec<EmailAddress>,
    pub subject: Option<String>,
    /// Unix epoch in seconds
    pub date: Option<i64>,
    pub content_id: Option<String>,
    pub message_id: Option<String>,
    pub thread_name: Option<String>,
    pub mime_version: Option<String>,
    pub headers: Vec<Header>,
    pub text_bodies: Vec<EmailText>,
    pub html_bodies: Vec<EmailText>,
    pub markups: Vec<String>,
    /// The candidates among `markups` that read as pronounceable texts.
    pub pronounceable_texts: Vec<PronounceableText>,
    pub calendar_events: Vec<CalendarEvent>,
    pub microdata_items: Vec<MicrodataItem>,
    pub unsubscribe: Unsubscribe,
}

/// The content of an [`Email`].
pub struct EmailView {
    pub from: EmailAddressWithTextView,
    pub from_addresses: Seq<EmailAddressView>,
    pub to: EmailAddressWithTextView,
    pub to_addresses: Seq<EmailAddressView>,
    pub cc_addresses: Seq<EmailAddressView>,
    pub bcc_addresses: Seq<EmailAddressView>,
    pub subject: Option<Seq<char>>,
    pub date: Option<i64>,
    pub content_id: Option<Seq<char>>,
    pub message_id: Option<Seq<char>>,
    pub thread_name: Option<Seq<char>>,
    pub mime_version: Option<Seq<char>>,
    pub headers: Seq<HeaderView>,
    pub text_bodies: Seq<EmailTextView>,
    pub html_bodies: Seq<EmailTextView>,
    pub markups: Seq<Seq<char>>,
    pub pronounceable_texts: Seq<PronounceableTextView>,
    pub calendar_events: Seq<CalendarEventView>,
    pub microdata_items: Seq<MicrodataItemView>,
    pub unsubscribe: UnsubscribeView,
}

impl View for Email {
    type V = EmailView;

    open spec fn view(&self) -> EmailView {
        EmailView {
            from: self.from@,
            from_addresses: views(self.from_addresses@),
            to: self.to@,
            to_addresses: views(self.to_addresses@),
            cc_addresses: views(self.cc_addresses@),
            bcc_addresses: views(self.bcc_addresses@),
            subject: opt_view(self.subject),
            date: self.date,
            content_id: opt_view(self.content_id),
            message_id: opt_view(self.message_id),
            thread_name: opt_view(self.thread_name),
            mime_version: opt_view(self.mime_version),
            headers: views(self.headers@),
            text_bodies: views(self.text_bodies@),
            html_bodies: views(self.html_bodies@),
            markups: views(self.markups@),
            pronounceable_texts: views(self.pronounceable_texts@),
            calendar_events: views(self.calendar_events@),
            microdata_items: views(self.microdata_items@),
            unsubscribe: self.unsubscribe@,
        }
    }
}

/// The addresses of a role that need not be there.
pub open spec fn optional_addresses(list: Option<Seq<RawAddressView>>) -> Seq<EmailAddressView> {
    match list {
        Some(raw) => normalized_addresses(raw),
        None => seq![],
    }
}

/// The first address of a role that must be there, with the text of its
/// header; `None` where the header, the list or a first address is missing.
pub open spec fn required_address(
    header: Option<Seq<char>>,
    list: Option<Seq<RawAddressView>>,
) -> Option<EmailAddressWithTextView> {
    match (header, list) {
        (Some(text), Some(raw)) => if normalized_addresses(raw).len() > 0 {
            let first = normalized_addresses(raw)[0];
            Some(EmailAddressWithTextView { name: first.name, text, address: first.address })
        } else {
            None
        },
        _ => None,
    }
}

/// The text bodies, each read by itself.
pub open spec fn text_bodies_of(bodies: Seq<Seq<char>>) -> Seq<EmailTextView> {
    bodies.map_values(|b: Seq<char>| text_body_of(b))
}

/// The HTML bodies, each read by itself.
pub open spec fn html_bodies_of(bodies: Seq<Seq<char>>) -> Seq<EmailTextView> {
    bodies.map_values(|b: Seq<char>| html_body_of(b))
}

/// The structured-data candidates of the HTML bodies, body after body.
pub open spec fn markups_of(bodies: Seq<Seq<char>>) -> Seq<Seq<char>>
    decreases bodies.len(),
{
    if bodies.len() == 0 {
        seq![]
    } else {
        markups_of(bodies.drop_last()) + json_lds_of(bodies.last())
    }
}

/// The microdata items of the HTML bodies, body after body.
pub open spec fn microdata_items_of(bodies: Seq<Seq<char>>) -> Seq<MicrodataItemView>
    decreases bodies.len(),
{
    if bodies.len() == 0 {
        seq![]
    } else {
        microdata_items_of(bodies.drop_last()) + microdata_of(bodies.last())
    }
}

/// Whether an attachment is a calendar: its content type is exactly
/// `text/calendar`.
pub open spec fn is_calendar(attachment: AttachmentView) -> bool {
    attachment.content_type == Some("text"@) && attachment.content_subtype == Some("calendar"@)
}

/// The events of one attachment: those of its text where it is a calendar
/// that can be read, and none otherwise.
pub open spec fn attachment_events(attachment: AttachmentView) -> Seq<CalendarEventView> {
    if is_calendar(attachment) {
        match attachment.text {
            Some(text) => match events_of(text) {
                Some(events) => events,
                None => seq![],
            },
            None => seq![],
        }
    } else {
        seq![]
    }
}

/// The events of the attachments, attachment after attachment.
pub open spec fn calendar_events_of(attachments: Seq<AttachmentView>) -> Seq<CalendarEventView>
    decreases attachments.len(),
{
    if attachments.len() == 0 {
        seq![]
    } else {
        calendar_events_of(attachments.drop_last()) + attachment_events(attachments.last())
    }
}

/// The record of a message, given what the MIME parser read off it.
///
/// A message without a usable `From` fails with `NoFromHeader`, whatever
/// else it holds; one with a usable `From` and without a usable `To` fails
/// with `NoToHeader`. Nothing else fails.
pub open spec fn assembled(parsed: ParsedMessageView) -> Result<EmailView, ParserError> {
    match required_address(parsed.from_header, parsed.from) {
        None => Err(ParserError::NoFromHeader),
        Some(from) => match required_address(parsed.to_header, parsed.to) {
            None => Err(ParserError::NoToHeader),
            Some(to) => Ok(
                EmailView {
                    from,
                    from_addresses: optional_addresses(parsed.from),
                    to,
                    to_addresses: optional_addresses(parsed.to),
                    cc_addresses: optional_addresses(parsed.cc),
                    bcc_addresses: optional_addresses(parsed.bcc),
                    subject: parsed.subject,
                    date: parsed.date,
                    content_id: parsed.content_id,
                    message_id: parsed.message_id,
                    thread_name: parsed.thread_name,
                    mime_version: parsed.mime_version,
                    headers: parsed.headers,
                    text_bodies: text_bodies_of(parsed.text_bodies),
                    html_bodies: html_bodies_of(parsed.html_bodies),
                    markups: markups_of(parsed.html_bodies),
                    pronounceable_texts: pronounceable_texts_of(markups_of(parsed.html_bodies)),
                    calendar_events: calendar_events_of(parsed.attachments),
                    microdata_items: microdata_items_of(parsed.html_bodies),
                    unsubscribe: unsubscribe_of(parsed.list_unsubscribe, parsed.list_unsubscribe_post),
                },
            ),
        },
    }
}

fn addresses(list: &Option<Vec<RawAddress>>) -> (out: Vec<EmailAddress>)
    ensures
        views(out@) == optional_addresses(list_view(*list)),
{
    match list {
        Some(raw) => parse_addrs(raw),
        None => {
            let out: Vec<EmailAddress> = Vec::new();
            assert(views(out@) =~= Seq::<EmailAddressView>::empty());
            out
        },
    }
}

fn first_with_text(header: &Option<String>, normalized: &Vec<EmailAddress>) -> (r: Option<
    EmailAddressWithText,
>)
    ensures
        match r {
            Some(a) => opt_view(*header) is Some && normalized@.len() > 0 && a@ == (
            EmailAddressWithTextView {
                name: normalized@[0]@.name,
                text: opt_view(*header).unwrap(),
                address: normalized@[0]@.address,
            }),
            None => opt_view(*header) is None || normalized@.len() == 0,
        },
{
    match header {
        Some(text) => {
            if normalized.len() > 0 {
                Some(
                    EmailAddressWithText {
                        name: normalized[0].name.clone(),
                        text: text.clone(),
                        address: normalized[0].address.clone(),
                    },
                )
            } else {
                None
            }
        },
        None => None,
    }
}

fn read_text_bodies(bodies: &Vec<String>) -> (out: Vec<EmailText>)
    ensures
        views(out@) == text_bodies_of(views(bodies@)),
{
    let mut out: Vec<EmailText> = Vec::new();
    let mut i: usize = 0;
    while i < bodies.len()
        invariant
            i <= bodies.len(),
            out@.len() == i,
            forall|k: int| 0 <= k < i ==> (#[trigger] out@[k])@ == text_body_of(bodies@[k]@),
        decreases bodies.len() - i,
    {
        out.push(parse_text(bodies[i].clone()));
        i += 1;
    }
    assert(views(out@) =~= text_bodies_of(views(bodies@)));
    out
}

fn read_html_bodies(bodies: &Vec<String>) -> (out: Vec<EmailText>)
    ensures
        views(out@) == html_bodies_of(views(bodies@)),
{
    let mut out: Vec<EmailText> = Vec::new();
    let mut i: usize = 0;
    while i < bodies.len()
        invariant
            i <= bodies.len(),
            out@.len() == i,
            forall|k: int| 0 <= k < i ==> (#[trigger] out@[k])@ == html_body_of(bodies@[k]@),
        decreases bodies.len() - i,
    {
        out.push(parse_html(bodies[i].clone()));
        i += 1;
    }
    assert(views(out@) =~= html_bodies_of(views(bodies@)));
    out
}

/// Moves the items of `more` to the end of `out`.
fn append_all<T: View>(out: &mut Vec<T>, more: Vec<T>)
    ensures
        views(final(out)@) == views(old(out)@) + views(more@),
        final(out)@ == old(out)@ + more@,
{
    let mut more = more;
    let ghost added = more@;
    out.append(&mut more);
    assert(views(out@) =~= views(old(out)@) + views(added));
}

fn read_markups(bodies: &Vec<String>) -> (out: Vec<String>)
    ensures
        views(out@) == markups_of(views(bodies@)),
{
    let ghost all = views(bodies@);
    let mut out: Vec<String> = Vec::new();
    let mut i: usize = 0;
    assert(views(out@) =~= Seq::<Seq<char>>::empty());
    while i < bodies.len()
        invariant
            i <= bodies.len(),
            all == views(bodies@),
            views(out@) == markups_of(all.take(i as int)),
        decreases bodies.len() - i,
    {
        proof {
            assert(all.take(i + 1).drop_last() =~= all.take(i as int));
            assert(all.take(i + 1).last() == bodies@[i as int]@);
        }
        append_all(&mut out, parse_json_lds(bodies[i].as_str()));
        i += 1;
    }
    assert(all.take(bodies.len() as int) == all);
    out
}

fn read_microdata(bodies: &Vec<String>) -> (out: Vec<MicrodataItem>)
    ensures
        views(out@) == microdata_items_of(views(bodies@)),
        forall|k: int| 0 <= k < out@.len() ==> well_formed(#[trigger] out@[k]),
{
    let ghost all = views(bodies@);
    let mut out: Vec<MicrodataItem> = Vec::new();
    let mut i: usize = 0;
    assert(views(out@) =~= Seq::<MicrodataItemView>::empty());
    while i < bodies.len()
        invariant
            i <= bodies.len(),
            all == views(bodies@),
            views(out@) == microdata_items_of(all.take(i as int)),
            forall|k: int| 0 <= k < out@.len() ==> well_formed(#[trigger] out@[k]),
        decreases bodies.len() - i,
    {
        proof {
            assert(all.take(i + 1).drop_last() =~= all.take(i as int));
            assert(all.take(i + 1).last() == bodies@[i as int]@);
        }
        append_all(&mut out, extract_microdata(bodies[i].as_str()));
        i += 1;
    }
    assert(all.take(bodies.len() as int) == all);
    out
}

fn is_calendar_attachment(attachment: &Attachment) -> (b: bool)
    ensures
        b == is_calendar(attachment@),
{
    match &attachment.content_type {
        Some(kind) => {
            if !same_text(kind.as_str(), "text") {
                return false;
            }
            match &attachment.content_subtype {
                Some(sub) => same_text(sub.as_str(), "calendar"),
                None => false,
            }
        },
        None => false,
    }
}

fn read_calendar_events(attachments: &Vec<Attachment>) -> (out: Vec<CalendarEvent>)
    ensures
        views(out@) == calendar_events_of(views(attachments@)),
{
    let ghost all = views(attachments@);
    let mut out: Vec<CalendarEvent> = Vec::new();
    let mut i: usize = 0;
    assert(views(out@) =~= Seq::<CalendarEventView>::empty());
    while i < attachments.len()
        invariant
            i <= attachments.len(),
            all == views(attachments@),
            views(out@) == calendar_events_of(all.take(i as int)),
        decreases attachments.len() - i,
    {
        proof {
            assert(all.take(i + 1).drop_last() =~= all.take(i as int));
            assert(all.take(i + 1).last() == attachments@[i as int]@);
        }
        let ghost before = views(out@);
        let mut found = false;
        if is_calendar_attachment(&attachments[i]) {
            match &attachments[i].text {
                Some(text) => match parse_events(text.as_str()) {
                    Some(events) => {
                        append_all(&mut out, events);
                        found = true;
                    },
                    None => {},
                },
                None => {},
            }
        }
        proof {
            if !found {
                assert(before + attachment_events(attachments@[i as int]@) =~= before);
            }
        }
        i += 1;
    }
    assert(all.take(attachments.len() as int) == all);
    out
}

/// Assembles the record of a message from what the MIME parser read off it.
pub fn assemble_email(parsed: ParsedMessage) -> (r: Result<Email, ParserError>)
    ensures
        match r {
            Ok(email) => assembled(parsed@) == Ok::<EmailView, ParserError>(email@),
            Err(e) => assembled(parsed@) == Err::<EmailView, ParserError>(e),
        },
{
    let from_addresses = addresses(&parsed.from);
    let from = match &parsed.from {
        Some(_) => match first_with_text(&parsed.from_header, &from_addresses) {
            Some(a) => a,
            None => {
                return Err(ParserError::NoFromHeader);
            },
        },
        None => {
            return Err(ParserError::NoFromHeader);
        },
    };
    let to_addresses = addresses(&parsed.to);
    let to = match &parsed.to {
        Some(_) => match first_with_text(&parsed.to_header, &to_addresses) {
            Some(a) => a,
            None => {
                return Err(ParserError::NoToHeader);
            },
        },
        None => {
            return Err(ParserError::NoToHeader);
        },
    };
    let cc_addresses = addresses(&parsed.cc);
    let bcc_addresses = addresses(&parsed.bcc);
    let text_bodies = read_text_bodies(&parsed.text_bodies);
    let html_bodies = read_html_bodies(&parsed.html_bodies);
    let calendar_events = read_calendar_events(&parsed.attachments);
    let markups = read_markups(&parsed.html_bodies);
    let pronounceable_texts = pronounceable_texts(&markups);
    let microdata_items = read_microdata(&parsed.html_bodies);
    let list_unsubscribe: Option<&str> = match &parsed.list_unsubscribe {
        Some(h) => Some(h.as_str()),
        None => None,
    };
    let list_unsubscribe_post: Option<&str> = match &parsed.list_unsubscribe_post {
        Some(h) => Some(h.as_str()),
        None => None,
    };
    let unsubscribe = extract_unsubscribe(list_unsubscribe, list_unsubscribe_post);
    Ok(
        Email {
            from,
            from_addresses,
            to,
            to_addresses,
            cc_addresses,
            bcc_addresses,
            subject: parsed.subject,
            date: parsed.date,
            content_id: parsed.content_id,
            message_id: parsed.message_id,
            thread_name: parsed.thread_name,
            mime_version: parsed.mime_version,
            headers: parsed.headers,
            text_bodies,
            html_bodies,
            markups,
            pronounceable_texts,
            calendar_events,
            microdata_items,
            unsubscribe,
        },
    )
}


/// The record of an encoded message, or the reason why it has none.
///
/// The three failures of decoding come first, then the failure of the MIME
/// parser, then those of assembling.
pub open spec fn email_of(raw: Seq<char>) -> Result<EmailView, ParserError> {
    match decoded_text(raw) {
        Err(e) => Err(e),
        Ok(text) => match crate::mime::parsed_message(text) {
            None => Err(ParserError::EmailParseFailed),
            Some(message) => assembled(crate::mime::message_content(message)),
        },
    }
}

/// Decodes a message and reads its record.
pub fn parse_email(raw: String) -> (r: Result<Email, ParserError>)
    ensures
        match r {
            Ok(email) => email_of(raw@) == Ok::<EmailView, ParserError>(email@),
            Err(e) => email_of(raw@) == Err::<EmailView, ParserError>(e),
        },
{
    let text = match url_base64_decode(raw.as_str()) {
        Ok(text) => text,
        Err(e) => {
            return Err(e);
        },
    };
    let message = match crate::mime::parse_message(text.as_str()) {
        Some(m) => m,
        None => {
            return Err(ParserError::EmailParseFailed);
        },
    };
    assemble_email(crate::mime::read_message(&message))
}

/// An empty input fails with `EmptyInput`, an input that is no base64 with
/// `Base64DecodeFailed`, and one whose bytes are no UTF-8 with
/// `NonUtfInput`.
pub proof fn lemma_transport_errors(raw: Seq<char>)
    ensures
        raw.len() == 0 ==> email_of(raw) == Err::<EmailView, ParserError>(ParserError::EmptyInput),
        raw.len() > 0 ==> match crate::transport::base64_decoded(
            crate::transport::standard_alphabet(raw),
        ) {
            None => email_of(raw) == Err::<EmailView, ParserError>(ParserError::Base64DecodeFailed),
            Some(bytes) => !vstd::utf8::valid_utf8(bytes) ==> email_of(raw) == Err::<
                EmailView,
                ParserError,
            >(ParserError::NonUtfInput),
        },
{
}

/// Whether a role that must be there is missing: its header is absent, or
/// it is no plain list of addresses, or none of its entries has an
/// address.
pub open spec fn lacks(header: Option<Seq<char>>, list: Option<Seq<RawAddressView>>) -> bool {
    header is None || list is None || normalized_addresses(list.unwrap()).len() == 0
}

/// A message that decodes and parses fails with `NoFromHeader` exactly
/// where it lacks a sender, and with `NoToHeader` exactly where it has a
/// sender and lacks a recipient; otherwise it has a record.
pub proof fn lemma_required_roles(raw: Seq<char>, text: Seq<char>, message: mail_parser::Message<'static>)
    requires
        decoded_text(raw) == Ok::<Seq<char>, ParserError>(text),
        crate::mime::parsed_message(text) == Some(message),
    ensures
        ({
            let content = crate::mime::message_content(message);
            let no_from = lacks(content.from_header, content.from);
            let no_to = lacks(content.to_header, content.to);
            &&& no_from <==> email_of(raw) == Err::<EmailView, ParserError>(ParserError::NoFromHeader)
            &&& !no_from && no_to <==> email_of(raw) == Err::<EmailView, ParserError>(
                ParserError::NoToHeader,
            )
            &&& !no_from && !no_to <==> email_of(raw) is Ok
        }),
{
}

/// Assembling fails only for want of a sender or a recipient.
pub proof fn lemma_only_roles_are_required(parsed: ParsedMessageView)
    ensures
        assembled(parsed) is Err ==> assembled(parsed) == Err::<EmailView, ParserError>(
            ParserError::NoFromHeader,
        ) || assembled(parsed) == Err::<EmailView, ParserError>(ParserError::NoToHeader),
        !lacks(parsed.from_header, parsed.from) && !lacks(parsed.to_header, parsed.to) ==> assembled(
            parsed,
        ) is Ok,
{
}


/// Each attachment is read by itself: the events of two runs of
/// attachments joined are the events of the one followed by those of the
/// other, so an attachment that cannot be read changes nothing for the
/// others.
pub proof fn lemma_attachments_are_independent(a: Seq<AttachmentView>, b: Seq<AttachmentView>)
    ensures
        calendar_events_of(a + b) == calendar_events_of(a) + calendar_events_of(b),
    decreases b.len(),
{
    if b.len() == 0 {
        assert(a + b =~= a);
        assert(calendar_events_of(a) + calendar_events_of(b) =~= calendar_events_of(a));
    } else {
        lemma_attachments_are_independent(a, b.drop_last());
        assert((a + b).drop_last() =~= a + b.drop_last());
        assert((a + b).last() == b.last());
        assert((calendar_events_of(a) + calendar_events_of(b.drop_last())) + attachment_events(
            b.last(),
        ) =~= calendar_events_of(a) + (calendar_events_of(b.drop_last()) + attachment_events(
            b.last(),
        )));
    }
}

/// Each HTML body is read by itself: what two runs of bodies joined carry
/// is what the one carries followed by what the other carries.
pub proof fn lemma_bodies_are_independent(a: Seq<Seq<char>>, b: Seq<Seq<char>>)
    ensures
        markups_of(a + b) == markups_of(a) + markups_of(b),
        microdata_items_of(a + b) == microdata_items_of(a) + microdata_items_of(b),
        text_bodies_of(a + b) == text_bodies_of(a) + text_bodies_of(b),
        html_bodies_of(a + b) == html_bodies_of(a) + html_bodies_of(b),
    decreases b.len(),
{
    assert(text_bodies_of(a + b) =~= text_bodies_of(a) + text_bodies_of(b));
    assert(html_bodies_of(a + b) =~= html_bodies_of(a) + html_bodies_of(b));
    if b.len() == 0 {
        assert(a + b =~= a);
        assert(markups_of(a) + markups_of(b) =~= markups_of(a));
        assert(microdata_items_of(a) + microdata_items_of(b) =~= microdata_items_of(a));
    } else {
        lemma_bodies_are_independent(a, b.drop_last());
        assert((a + b).drop_last() =~= a + b.drop_last());
        assert((a + b).last() == b.last());
        assert((markups_of(a) + markups_of(b.drop_last())) + json_lds_of(b.last()) =~= markups_of(a)
            + (markups_of(b.drop_last()) + json_lds_of(b.last())));
        assert((microdata_items_of(a) + microdata_items_of(b.drop_last())) + microdata_of(b.last())
            =~= microdata_items_of(a) + (microdata_items_of(b.drop_last()) + microdata_of(
            b.last(),
        )));
    }
}

} // verus!
