use base64::Engine;
use vella_sdk::address::{Header, RawAddress};
use vella_sdk::email::{assemble_email, parse_email, Attachment, ParsedMessage};
use vella_sdk::transport::ParserError;

const RAW: &str = "From: Ann Example <ann@example.com>\r\nTo: bob@example.com, Carl <carl@example.com>\r\nCc: dora@example.com\r\nSubject: Re: Lunch?\r\nDate: Sat, 1 Jun 2024 10:00:00 +0000\r\nMessage-ID: <m1@example.com>\r\nMIME-Version: 1.0\r\nList-Unsubscribe: <https://x/unsub>, <mailto:a@b.com>\r\nX-Twice: one\r\nX-Twice: two\r\nContent-Type: multipart/mixed; boundary=\"b\"\r\n\r\n--b\r\nContent-Type: text/plain\r\n\r\nSee you &amp; yours.\r\nOn Mon, Jan 1, 2024 at 10:30 Bob wrote:\r\n> hi\r\n--b\r\nContent-Type: text/html\r\n\r\n<html><head><script type=\"application/ld+json\">[{\"a\":1},{\"b\":2}]</script></head><body><div itemscope itemtype=\"T\"><span itemprop=\"p\">v</span></div><div class=\"gmail_quote_container\">old</div></body></html>\r\n--b\r\nContent-Type: text/calendar; charset=utf-8\r\nContent-Disposition: attachment; filename=\"invite.ics\"\r\n\r\nBEGIN:VCALENDAR\r\nVERSION:2.0\r\nBEGIN:VEVENT\r\nUID:e1\r\nDTSTART:20240601T100000\r\nEND:VEVENT\r\nEND:VCALENDAR\r\n--b--\r\n";

const HTML: &str = "<html><head><script type=\"application/ld+json\">[{\"a\":1},{\"b\":2}]</script></head><body><div itemscope itemtype=\"T\"><span itemprop=\"p\">v</span></div><div class=\"gmail_quote_container\">old</div></body></html>";

fn encode(raw: &str) -> String {
    base64::engine::general_purpose::URL_SAFE.encode(raw)
}

fn addr(name: Option<&str>, address: Option<&str>) -> RawAddress {
    RawAddress { name: name.map(str::to_string), address: address.map(str::to_string) }
}

fn parsed() -> ParsedMessage {
    ParsedMessage {
        from_header: Some(" Ann <ann@x.org>\r\n".to_string()),
        from: Some(vec![addr(Some("Ann"), Some("ann@x.org")), addr(None, Some("second@x.org"))]),
        to_header: Some(" bob@x.org\r\n".to_string()),
        to: Some(vec![addr(None, None), addr(None, Some("bob@x.org"))]),
        cc: None,
        bcc: Some(vec![addr(Some("Hidden"), Some("h@x.org"))]),
        subject: Some("s".to_string()),
        date: Some(5),
        content_id: Some("cid".to_string()),
        message_id: Some("mid".to_string()),
        thread_name: Some("thread".to_string()),
        mime_version: Some("1.0".to_string()),
        headers: vec![Header::from(("A", " 1\r\n")), Header::from(("A", " 2\r\n"))],
        text_bodies: vec!["one &lt; two".to_string(), "plain".to_string()],
        html_bodies: vec![HTML.to_string(), "<p>no data</p>".to_string()],
        attachments: vec![],
        list_unsubscribe: None,
        list_unsubscribe_post: None,
    }
}

#[test]
fn a_whole_message_is_read() {
    let e = parse_email(encode(RAW)).unwrap();
    assert_eq!(e.from.name.as_deref(), Some("Ann Example"));
    assert_eq!(e.from.text, " Ann Example <ann@example.com>\r\n");
    assert_eq!(e.from.address, "ann@example.com");
    assert_eq!(e.from_addresses.len(), 1);
    assert_eq!(e.to.name, None);
    assert_eq!(e.to.text, " bob@example.com, Carl <carl@example.com>\r\n");
    assert_eq!(e.to.address, "bob@example.com");
    let to: Vec<(Option<&str>, &str)> =
        e.to_addresses.iter().map(|a| (a.name.as_deref(), a.address.as_str())).collect();
    assert_eq!(to, vec![(None, "bob@example.com"), (Some("Carl"), "carl@example.com")]);
    assert_eq!(e.cc_addresses.len(), 1);
    assert_eq!(e.cc_addresses[0].address, "dora@example.com");
    assert!(e.bcc_addresses.is_empty());
    assert_eq!(e.subject.as_deref(), Some("Re: Lunch?"));
    assert_eq!(e.date, Some(1_717_236_000));
    assert_eq!(e.content_id, None);
    assert_eq!(e.message_id.as_deref(), Some("m1@example.com"));
    assert_eq!(e.thread_name.as_deref(), Some("Lunch?"));
    assert_eq!(e.mime_version.as_deref(), Some("1.0"));
}

#[test]
fn headers_keep_their_order_and_their_duplicates() {
    let e = parse_email(encode(RAW)).unwrap();
    let names: Vec<&str> = e.headers.iter().map(|h| h.name.as_str()).collect();
    assert_eq!(
        names,
        vec!["From", "To", "Cc", "Subject", "Date", "Message-ID", "MIME-Version", "List-Unsubscribe", "X-Twice", "X-Twice", "Content-Type"]
    );
    assert_eq!(e.headers[8].value, " one\r\n");
    assert_eq!(e.headers[9].value, " two\r\n");
}

#[test]
fn bodies_and_what_they_carry_are_read() {
    let e = parse_email(encode(RAW)).unwrap();
    assert_eq!(e.text_bodies.len(), 2);
    assert_eq!(e.text_bodies[0].text, "See you & yours.\r\nOn Mon, Jan 1, 2024 at 10:30 Bob wrote:\r\n> hi");
    assert_eq!(e.text_bodies[0].visible.as_deref(), Some("See you & yours."));
    assert_eq!(e.html_bodies.len(), 2);
    assert_eq!(e.html_bodies[1].text, HTML);
    assert_eq!(
        e.html_bodies[1].visible.as_deref(),
        Some("<html><head><script type=\"application/ld+json\">[{\"a\":1},{\"b\":2}]</script></head><body><div itemscope itemtype=\"T\"><span itemprop=\"p\">v</span></div></body></html>")
    );
    assert_eq!(e.markups, vec!["{\"a\":1}".to_string(), "{\"b\":2}".to_string()]);
    assert!(e.pronounceable_texts.is_empty());
    assert_eq!(e.microdata_items.len(), 1);
    assert_eq!(e.microdata_items[0].itemtype.as_deref(), Some("T"));
    assert_eq!(e.microdata_items[0].properties, vec![("p".to_string(), "v".to_string())]);
    assert_eq!(e.calendar_events.len(), 1);
    assert_eq!(e.calendar_events[0].uid.as_deref(), Some("e1"));
    assert_eq!(e.calendar_events[0].start, Some(1_717_236_000_000));
    assert_eq!(e.unsubscribe.get.as_deref(), Some("https://x/unsub"));
    assert!(e.unsubscribe.post.is_none());
    assert_eq!(e.unsubscribe.email.as_ref().unwrap().email, "a@b.com");
}

#[test]
fn a_post_header_turns_get_into_post() {
    let raw = "From: a@x.org\r\nTo: b@x.org\r\nList-Unsubscribe: <https://x/unsub>, <mailto:a@b.com>\r\nList-Unsubscribe-Post: List-Unsubscribe=One-Click\r\n\r\nbody\r\n";
    let e = parse_email(encode(raw)).unwrap();
    assert!(e.unsubscribe.get.is_none());
    let post = e.unsubscribe.post.as_ref().unwrap();
    assert_eq!(post.url, "https://x/unsub");
    assert_eq!(post.body, "List-Unsubscribe=One-Click");
    assert_eq!(e.unsubscribe.email.as_ref().unwrap().email, "a@b.com");
}

#[test]
fn transport_failures_come_first() {
    assert_eq!(parse_email(String::new()).unwrap_err(), ParserError::EmptyInput);
    assert_eq!(parse_email("***".to_string()).unwrap_err(), ParserError::Base64DecodeFailed);
    assert_eq!(parse_email("_w==".to_string()).unwrap_err(), ParserError::NonUtfInput);
}

#[test]
fn a_text_that_the_parser_refuses_is_no_message() {
    assert_eq!(parse_email(encode(" ")).unwrap_err(), ParserError::EmailParseFailed);
    assert_eq!(parse_email("IA==".to_string()).unwrap_err(), ParserError::EmailParseFailed);
    assert_eq!(parse_email(encode(" \t ")).unwrap_err(), ParserError::EmailParseFailed);
}

#[test]
fn a_text_without_any_header_lacks_a_sender() {
    assert_eq!(parse_email(encode("hello")).unwrap_err(), ParserError::NoFromHeader);
    assert_eq!(parse_email(encode("\r\nbody only\r\n")).unwrap_err(), ParserError::NoFromHeader);
}

#[test]
fn a_message_without_sender_fails_with_no_from_header() {
    for raw in [
        "To: b@x.org\r\nSubject: s\r\n\r\nbody\r\n",
        "Subject: s\r\n\r\nbody\r\n",
        "From: \r\nTo: b@x.org\r\n\r\nbody\r\n",
        "From: Undisclosed:;\r\nTo: b@x.org\r\n\r\nbody\r\n",
    ] {
        assert_eq!(parse_email(encode(raw)).unwrap_err(), ParserError::NoFromHeader);
    }
}

#[test]
fn a_message_without_recipient_fails_with_no_to_header() {
    for raw in [
        "From: a@x.org\r\nSubject: s\r\n\r\nbody\r\n",
        "From: a@x.org\r\nTo: \r\n\r\nbody\r\n",
        "From: a@x.org\r\nCc: c@x.org\r\n\r\nbody\r\n",
    ] {
        assert_eq!(parse_email(encode(raw)).unwrap_err(), ParserError::NoToHeader);
    }
}

#[test]
fn assembling_takes_the_first_address_of_each_role() {
    let e = assemble_email(parsed()).unwrap();
    assert_eq!(e.from.name.as_deref(), Some("Ann"));
    assert_eq!(e.from.text, " Ann <ann@x.org>\r\n");
    assert_eq!(e.from.address, "ann@x.org");
    assert_eq!(e.from_addresses.len(), 2);
    assert_eq!(e.to.address, "bob@x.org");
    assert_eq!(e.to.text, " bob@x.org\r\n");
    assert_eq!(e.to_addresses.len(), 1);
    assert!(e.cc_addresses.is_empty());
    assert_eq!(e.bcc_addresses[0].name.as_deref(), Some("Hidden"));
    assert_eq!(e.subject.as_deref(), Some("s"));
    assert_eq!(e.date, Some(5));
    assert_eq!(e.content_id.as_deref(), Some("cid"));
    assert_eq!(e.message_id.as_deref(), Some("mid"));
    assert_eq!(e.thread_name.as_deref(), Some("thread"));
    assert_eq!(e.mime_version.as_deref(), Some("1.0"));
    assert_eq!(e.headers.len(), 2);
    assert_eq!(e.headers[1].value, " 2\r\n");
    assert_eq!(e.text_bodies[0].text, "one < two");
    assert_eq!(e.text_bodies[1].text, "plain");
    assert_eq!(e.html_bodies[0].text, HTML);
    assert_eq!(e.html_bodies[1].visible, None);
    assert_eq!(e.markups.len(), 2);
    assert_eq!(e.microdata_items.len(), 1);
    assert!(e.calendar_events.is_empty());
    assert!(e.unsubscribe.get.is_none() && e.unsubscribe.post.is_none() && e.unsubscribe.email.is_none());
}

#[test]
fn candidates_that_fit_a_type_are_read_as_that_type() {
    let mut p = parsed();
    p.html_bodies = vec![
        "<script type=\"application/ld+json\">[{\"@context\":\"c\",\"textValue\":\"t\"},{\"x\":1}]</script>".to_string(),
        "<script type=\"application/ld+json\">{\"@context\":\"d\",\"inLanguage\":[\"en\"]}</script>".to_string(),
    ];
    let e = assemble_email(p).unwrap();
    assert_eq!(e.markups.len(), 3);
    assert_eq!(e.pronounceable_texts.len(), 2);
    assert_eq!(e.pronounceable_texts[0].context, "c");
    assert_eq!(e.pronounceable_texts[0].text_value, vec!["t".to_string()]);
    assert_eq!(e.pronounceable_texts[1].context, "d");
    assert_eq!(e.pronounceable_texts[1].in_language, vec!["en".to_string()]);
}

#[test]
fn assembling_fails_for_want_of_a_role() {
    let mut p = parsed();
    p.from_header = None;
    assert_eq!(assemble_email(p).unwrap_err(), ParserError::NoFromHeader);
    let mut p = parsed();
    p.from = None;
    assert_eq!(assemble_email(p).unwrap_err(), ParserError::NoFromHeader);
    let mut p = parsed();
    p.from = Some(vec![addr(Some("nameless"), None), addr(None, Some(""))]);
    p.to = None;
    assert_eq!(assemble_email(p).unwrap_err(), ParserError::NoFromHeader);
    let mut p = parsed();
    p.to_header = None;
    assert_eq!(assemble_email(p).unwrap_err(), ParserError::NoToHeader);
    let mut p = parsed();
    p.to = None;
    assert_eq!(assemble_email(p).unwrap_err(), ParserError::NoToHeader);
    let mut p = parsed();
    p.to = Some(vec![]);
    assert_eq!(assemble_email(p).unwrap_err(), ParserError::NoToHeader);
}

#[test]
fn only_calendar_attachments_give_events() {
    let ics = "BEGIN:VCALENDAR\r\nBEGIN:VEVENT\r\nUID:a\r\nEND:VEVENT\r\nEND:VCALENDAR\r\n";
    let att = |t: Option<&str>, s: Option<&str>, text: Option<&str>| Attachment {
        content_type: t.map(str::to_string),
        content_subtype: s.map(str::to_string),
        text: text.map(str::to_string),
    };
    let mut p = parsed();
    p.attachments = vec![
        att(Some("text"), Some("calendar"), Some(ics)),
        att(Some("text"), Some("plain"), Some(ics)),
        att(Some("TEXT"), Some("calendar"), Some(ics)),
        att(Some("text"), None, Some(ics)),
        att(None, None, Some(ics)),
        att(Some("text"), Some("calendar"), None),
        att(Some("text"), Some("calendar"), Some("BEGIN:VCALENDAR")),
        att(Some("text"), Some("calendar"), Some(&ics.replace("UID:a", "UID:b"))),
    ];
    let e = assemble_email(p).unwrap();
    let uids: Vec<_> = e.calendar_events.iter().map(|c| c.uid.clone().unwrap()).collect();
    assert_eq!(uids, vec!["a".to_string(), "b".to_string()]);
}
