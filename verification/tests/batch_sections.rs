use base64::Engine;
use vella_sdk::batch::{parse_batch_response, parse_gmail, parse_payload, parse_section, BatchResponse, GmailMessageIn};
use vella_sdk::text::chars_of;

fn encoded() -> String {
    base64::engine::general_purpose::URL_SAFE
        .encode("From: Ann <ann@x.org>\r\nTo: bob@x.org\r\nSubject: hi\r\n\r\nbody\r\n")
}

fn success_json(raw: &str) -> String {
    format!(
        "{{\"id\":\"1\",\"threadId\":\"t\",\"labelIds\":[\"INBOX\",\"UNREAD\"],\"snippet\":\"a &amp; b\",\"sizeEstimate\":12,\"raw\":\"{}\",\"historyId\":\"h\",\"internalDate\":\"d\",\"extra\":true}}",
        raw
    )
}

const ERROR_JSON: &str = "{\"code\":404,\"message\":\"Not Found\",\"status\":\"NOT_FOUND\",\"errors\":[{\"message\":\"m\",\"domain\":\"global\",\"reason\":\"notFound\"}]}";

#[test]
fn one_good_section_and_one_without_braces() {
    let blob = format!("--batch_x\r\nContent-Type: application/http\r\n\r\n{}\r\n--batch_x\r\nno braces here\r\n", success_json(&encoded()));
    let sections = parse_batch_response(blob);
    assert_eq!(sections.len(), 1);
    assert_eq!(sections[0].batch_name, "batch_x");
    match &sections[0].response {
        BatchResponse::Success(m) => {
            assert_eq!(m.id, "1");
            assert_eq!(m.threadId, "t");
            assert_eq!(m.labelIds, vec!["INBOX".to_string(), "UNREAD".to_string()]);
            assert_eq!(m.snippet.text, "a & b");
            assert_eq!(m.snippet.visible, None);
            assert_eq!(m.sizeEstimate, 12);
            assert_eq!(m.historyId, "h");
            assert_eq!(m.internalDate, "d");
            assert_eq!(m.data.from.address, "ann@x.org");
            assert_eq!(m.data.subject.as_deref(), Some("hi"));
        }
        BatchResponse::Error(_) => panic!("a message was expected"),
    }
}

#[test]
fn a_section_that_is_neither_message_nor_error_is_left_out() {
    let blob = format!("--a\r\n{{\"neither\": 1}}\r\n--b\r\n{}\r\n--c\r\n{{broken\r\n--d\r\n[1,2]{{}}\r\n", ERROR_JSON);
    let sections = parse_batch_response(blob);
    assert_eq!(sections.len(), 1);
    assert_eq!(sections[0].batch_name, "b");
    match &sections[0].response {
        BatchResponse::Error(e) => {
            assert_eq!(e.code, 404);
            assert_eq!(e.message, "Not Found");
            assert_eq!(e.status, "NOT_FOUND");
            assert_eq!(e.errors.len(), 1);
            assert_eq!(e.errors[0].message, "m");
            assert_eq!(e.errors[0].domain, "global");
            assert_eq!(e.errors[0].reason, "notFound");
        }
        BatchResponse::Success(_) => panic!("an error was expected"),
    }
}

#[test]
fn a_blob_without_sections_gives_nothing() {
    assert!(parse_batch_response(String::new()).is_empty());
    assert!(parse_batch_response("----".to_string()).is_empty());
    assert!(parse_batch_response("just text".to_string()).is_empty());
    assert!(parse_batch_response("} before {".to_string()).is_empty());
}

#[test]
fn a_message_whose_raw_has_no_record_falls_back_to_the_error_shape() {
    let bad = success_json("***");
    assert!(parse_payload(&bad).is_none());
    let both = format!("{{\"id\":\"1\",\"threadId\":\"t\",\"labelIds\":[],\"snippet\":\"\",\"sizeEstimate\":0,\"raw\":\"***\",\"historyId\":\"h\",\"internalDate\":\"d\",\"code\":500,\"message\":\"x\",\"status\":\"y\",\"errors\":[]}}");
    match parse_payload(&both) {
        Some(BatchResponse::Error(e)) => {
            assert_eq!(e.code, 500);
            assert!(e.errors.is_empty());
        }
        _ => panic!("an error was expected"),
    }
}

#[test]
fn members_of_the_wrong_kind_are_refused() {
    let raw = encoded();
    let good = success_json(&raw);
    assert!(parse_payload(&good).is_some());
    assert!(parse_payload(&good.replace("\"sizeEstimate\":12", "\"sizeEstimate\":-1")).is_none());
    assert!(parse_payload(&good.replace("\"sizeEstimate\":12", "\"sizeEstimate\":4294967296")).is_none());
    assert!(parse_payload(&good.replace("\"sizeEstimate\":12", "\"sizeEstimate\":4294967295")).is_some());
    assert!(parse_payload(&good.replace("\"sizeEstimate\":12", "\"sizeEstimate\":1.5")).is_none());
    assert!(parse_payload(&good.replace("\"id\":\"1\"", "\"id\":1")).is_none());
    assert!(parse_payload(&good.replace("[\"INBOX\",\"UNREAD\"]", "[\"INBOX\",2]")).is_none());
    assert!(parse_payload(&good.replace("\"historyId\":\"h\",", "")).is_none());
    assert!(parse_payload(&ERROR_JSON.replace("\"reason\":\"notFound\"", "\"reason\":null")).is_none());
    assert!(parse_payload(&ERROR_JSON.replace("\"code\":404", "\"code\":\"404\"")).is_none());
}

#[test]
fn the_name_is_the_first_line_trimmed() {
    let section = format!("  batch_7 \t\r\nsecond line\r\n{}", ERROR_JSON);
    let s = parse_section(&chars_of(&section)).unwrap();
    assert_eq!(s.batch_name, "batch_7");
    let s = parse_section(&chars_of(ERROR_JSON)).unwrap();
    assert_eq!(s.batch_name, ERROR_JSON);
    let s = parse_section(&chars_of(&format!("\n{}", ERROR_JSON))).unwrap();
    assert_eq!(s.batch_name, "");
    assert!(parse_section(&chars_of("")).is_none());
}

#[test]
fn the_payload_runs_from_the_first_brace_to_the_last() {
    let section = format!("name\r\nnoise {} trailing", ERROR_JSON);
    assert!(parse_section(&chars_of(&section)).is_some());
    let section = format!("name\r\n{} and a stray }}", ERROR_JSON);
    assert!(parse_section(&chars_of(&section)).is_none());
}

#[test]
fn sections_keep_their_order() {
    let blob = format!("one\r\n{}--two\r\n{}--three\r\n{}", ERROR_JSON, ERROR_JSON.replace("404", "500"), success_json(&encoded()));
    let sections = parse_batch_response(blob);
    let names: Vec<&str> = sections.iter().map(|s| s.batch_name.as_str()).collect();
    assert_eq!(names, vec!["one", "two", "three"]);
    assert!(matches!(sections[0].response, BatchResponse::Error(_)));
    assert!(matches!(sections[2].response, BatchResponse::Success(_)));
}

#[test]
fn a_wrapped_message_is_read_with_its_snippet() {
    let m = parse_gmail(GmailMessageIn {
        id: "i".into(),
        threadId: "t".into(),
        labelIds: vec!["L".into()],
        snippet: "x &gt; y".into(),
        sizeEstimate: 3,
        raw: encoded(),
        historyId: "h".into(),
        internalDate: "d".into(),
    })
    .unwrap();
    assert_eq!(m.snippet.text, "x > y");
    assert_eq!(m.data.to.address, "bob@x.org");
    assert_eq!(m.labelIds, vec!["L".to_string()]);
    let none = parse_gmail(GmailMessageIn {
        id: "i".into(),
        threadId: "t".into(),
        labelIds: vec![],
        snippet: String::new(),
        sizeEstimate: 0,
        raw: String::new(),
        historyId: "h".into(),
        internalDate: "d".into(),
    });
    assert!(none.is_none());
}

#[test]
fn the_name_agrees_with_the_first_line_of_the_standard_library() {
    for head in ["name", " a b ", "a\rb", "a\r", "\r", "\t x\u{a0}", "", "--not split here", "é \u{3000}"] {
        for rest in ["", "\n", "\r\n", "\nsecond\n"] {
            let section = format!("{}{}{}", head, rest, ERROR_JSON);
            let expected = section.lines().next().map(|l| l.trim().to_string());
            let got = parse_section(&chars_of(&section)).map(|s| s.batch_name);
            assert_eq!(got, expected, "for {:?}", section);
        }
    }
}

#[test]
fn a_repeated_member_counts_once_and_an_array_is_no_record() {
    let twice = ERROR_JSON.replace("\"code\":404", "\"code\":1,\"code\":404");
    match parse_payload(&twice) {
        Some(BatchResponse::Error(e)) => assert_eq!(e.code, 404),
        _ => panic!("an error was expected"),
    }
    let listed_as_array = "{\"code\":404,\"message\":\"m\",\"status\":\"s\",\"errors\":[[\"m\",\"global\",\"notFound\"]]}";
    assert!(parse_payload(listed_as_array).is_none());
}
