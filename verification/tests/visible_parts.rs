use vella_sdk::quote::{
    escape_text, parse_html, parse_text, parse_visible_html, parse_visible_text,
};

#[test]
fn text_without_reply_intro_has_no_visible_part() {
    assert_eq!(parse_visible_text("Hello there,\nsee you soon."), None);
    assert_eq!(parse_visible_text(""), None);
    assert_eq!(parse_visible_text("on Mon, Jan 1, 2024 at 10:30 someone wrote"), None);
    assert_eq!(parse_visible_text("On Mon, Jan 1, 2024 AT 10:30 someone wrote"), None);
}

#[test]
fn text_before_the_reply_intro_is_visible() {
    let body = "  Thanks, works for me.\n\nOn Mon, Jan 1, 2024 at 10:30 AM Ann <ann@x.org> wrote:\n> earlier";
    assert_eq!(parse_visible_text(body), Some("Thanks, works for me.".to_string()));
}

#[test]
fn the_reply_intro_has_several_shapes() {
    assert_eq!(parse_visible_text("a On Tue, 2 Jan 2024 at 9:05 b"), Some("a".to_string()));
    assert_eq!(parse_visible_text("a On Tue, Jan 12 2024 at 19:05 b"), Some("a".to_string()));
    assert_eq!(parse_visible_text("a\nOn\u{a0}Tue,\tJan 2,\n2024 at 9:05"), Some("a".to_string()));
    assert_eq!(parse_visible_text("On Tue, Jan 2, 2024 at 9:05"), Some("".to_string()));
}

#[test]
fn only_the_first_reply_intro_counts() {
    let body = "one\nOn Mon, Jan 1, 2024 at 10:30 x wrote:\ntwo\nOn Tue, Jan 2, 2024 at 11:30 y wrote:\nthree";
    assert_eq!(parse_visible_text(body), Some("one".to_string()));
}

#[test]
fn visible_text_is_idempotent() {
    for body in [
        "Thanks!\nOn Mon, Jan 1, 2024 at 10:30 AM Ann wrote:\n> hi",
        "  one\nOn Mon, Jan 1, 2024 at 10:30 x\nOn Tue, Jan 2, 2024 at 11:30 y",
        "On Mon, Jan 1, 2024 at 10:30",
    ] {
        let visible = parse_visible_text(body).unwrap();
        assert_eq!(parse_visible_text(&visible), None);
    }
}

#[test]
fn text_bodies_have_their_entities_decoded() {
    let t = parse_text("a &amp; b &lt;c&gt; &#65; &nbsp;".to_string());
    assert_eq!(t.text, "a & b <c> A \u{a0}");
    assert_eq!(t.visible, None);
    let u = parse_text("fine &amp; well\nOn Mon, Jan 1, 2024 at 10:30 Ann wrote:".to_string());
    assert_eq!(u.text, "fine & well\nOn Mon, Jan 1, 2024 at 10:30 Ann wrote:");
    assert_eq!(u.visible.as_deref(), Some("fine & well"));
}

#[test]
fn html_without_the_marker_has_no_visible_part() {
    assert_eq!(parse_visible_html("<div class=\"gmail_quote\">x</div>"), None);
    assert_eq!(parse_visible_html(""), None);
    let h = parse_html("<p>hi</p>".to_string());
    assert_eq!(h.text, "<p>hi</p>");
    assert_eq!(h.visible, None);
}

#[test]
fn quote_containers_are_removed_from_html() {
    let body = "<div>reply</div><div class=\"gmail_quote gmail_quote_container\"><p>old</p></div><p>tail</p>";
    assert_eq!(parse_visible_html(body), Some("<div>reply</div><p>tail</p>".to_string()));
    let h = parse_html(body.to_string());
    assert_eq!(h.text, body);
    assert_eq!(h.visible.as_deref(), Some("<div>reply</div><p>tail</p>"));
}

#[test]
fn the_marker_alone_does_not_remove_anything() {
    let body = "<p>the word gmail_quote_container in text</p>";
    assert_eq!(parse_visible_html(body), Some(body.to_string()));
}

#[test]
fn visible_html_is_idempotent() {
    let body = "<div>a</div><blockquote class=\"gmail_quote_container\">q</blockquote>";
    let visible = parse_visible_html(body).unwrap();
    assert_eq!(visible, "<div>a</div>");
    assert_eq!(parse_visible_html(&visible), None);
}

#[test]
fn escape_text_writes_three_references() {
    assert_eq!(escape_text("a<b".to_string()), "a&lt;b");
    assert_eq!(escape_text("1 > 0 && x".to_string()), "1 &gt; 0 &amp;&amp; x");
    assert_eq!(escape_text("\"quoted\" 'text' é".to_string()), "\"quoted\" 'text' é");
    assert_eq!(escape_text(String::new()), "");
}

#[test]
fn escape_text_agrees_with_html_escape() {
    for s in ["", "plain", "<&>", "a &amp; b", "<<>>&&", "ü<ñ>&\u{1F600}"] {
        assert_eq!(escape_text(s.to_string()), html_escape::encode_text(s).into_owned());
    }
}

fn by_regex(body: &str) -> Option<String> {
    let re = regex::Regex::new(
        r"On\s\w{3},\s(?:\d{1,2}|\w{3})\s(?:\d{1,2}|\w{3}),?\s\d{4}\sat\s\d{1,2}:\d{2}",
    )
    .unwrap();
    if !re.is_match(body) {
        return None;
    }
    let head = re.splitn(body, 2).next().map(|s| s.trim().to_string());
    head
}

#[test]
fn the_shape_is_that_of_the_pattern() {
    let bodies = [
        "",
        "On",
        "x On Mon, Jan 1, 2024 at 10:30 y",
        "x On Mon, 1 Jan 2024 at 1:30 y",
        "x On Mon, 01 Jan, 2024 at 01:30 y",
        "x On Mon, 01 12 2024 at 01:30 y",
        "x On Mon, Jan Feb 2024 at 01:30 y",
        "x On Mon, Jan 123 2024 at 01:30 y",
        "x On Mon, Jan 1234 2024 at 01:30 y",
        "x On Mon, 123 1 2024 at 01:30 y",
        "x On Mon, 1, Jan 2024 at 01:30 y",
        "x On Mon, Jan 1,, 2024 at 01:30 y",
        "x On Mon, Jan 1 ,2024 at 01:30 y",
        "x On Mon, Jan 1, 202 at 01:30 y",
        "x On Mon, Jan 1, 20245 at 01:30 y",
        "x On Mon, Jan 1, 2024 at 101:30 y",
        "x On Mon, Jan 1, 2024 at 10:3",
        "x On Mon, Jan 1, 2024 at 10:30",
        "x On Mon, Jan 1, 2024 at 10:305",
        "x On Mon, Jan 1, 2024 at :30",
        "x On Mon, Jan 1, 2024  at 10:30",
        "x On  Mon, Jan 1, 2024 at 10:30",
        "x On Mond, Jan 1, 2024 at 10:30",
        "x On Mo, Jan 1, 2024 at 10:30",
        "x On M_1, a_b 1, 2024 at 10:30",
        "x On Mon. Jan 1, 2024 at 10:30",
        "x ON Mon, Jan 1, 2024 at 10:30",
        "x On Mon, Jan 1, 2024 At 10:30",
        "xOn Mon, Jan 1, 2024 at 10:30y",
        "On\tMon,\nJan\r1,\u{a0}2024\u{2003}at\u{3000}10:30",
        "On Mon, Jan 1, 2024 at\u{200b}10:30",
        "a On Mär, Mär 1, 2024 at 10:30",
        "a On Пон, Янв 1, 2024 at 10:30",
        "a On 月曜日, 1月 1, 2024 at 10:30",
        "a On Mon, Jan ١, ٢٠٢٤ at ١٠:٣٠",
        "a On Mon, Jan ², 2024 at 10:30",
        "a On Mon, Jan Ⅷ, 2024 at 10:30",
        "a On Mon, e\u{301}a 1, 2024 at 10:30",
        "  On Mon, Jan 1, 2024 at 1:30 On Tue, Jan 2, 2024 at 2:30",
        "On On Mon, Jan 1, 2024 at 1:30",
        "On Mon, On Mon, Jan 1, 2024 at 1:30",
        "On Mon, Jan 1, 2024 at 1:3On Tue, Jan 2, 2024 at 2:30 end",
        "first\n\n  On Mon, 12 Jan, 2024 at 9:00 AM, someone wrote:\n> text\n",
    ];
    for body in bodies {
        assert_eq!(parse_visible_text(body), by_regex(body), "for {:?}", body);
    }
}

#[test]
fn every_way_of_writing_day_and_month_is_tried() {
    let re = regex::Regex::new(
        r"On\s\w{3},\s(?:\d{1,2}|\w{3})\s(?:\d{1,2}|\w{3}),?\s\d{4}\sat\s\d{1,2}:\d{2}",
    )
    .unwrap();
    let firsts = ["1", "12", "Jan", "1a", "abcd", ""];
    let seconds = ["2", "23", "Feb", "2b", "cdef"];
    for a in firsts {
        for b in seconds {
            for comma in ["", ","] {
                for hour in ["7", "07", "007"] {
                    let body = format!("head On Mon, {} {}{} 2024 at {}:45 tail", a, b, comma, hour);
                    let expected = if re.is_match(&body) {
                        re.splitn(&body, 2).next().map(|s| s.trim().to_string())
                    } else {
                        None
                    };
                    assert_eq!(parse_visible_text(&body), expected, "for {:?}", body);
                }
            }
        }
    }
}

#[test]
fn small_changes_to_a_reply_intro_are_judged_as_the_pattern_judges() {
    let templates = [
        "hi On Mon, Jan 1, 2024 at 10:30 x",
        "hi On Mon, 12 Jan 2024 at 9:05 x",
        "On Tue, Feb 29 2024 at 23:59",
        "a On Wed, 3 4, 2024 at 1:00 On Thu, Mar 5, 2024 at 2:00",
    ];
    let alphabet: Vec<char> = "On Mat,:0123456789ab_\u{a0}\n٣é-".chars().collect();
    let mut state: u64 = 0x2545_f491_4f6c_dd1d;
    let mut next = |bound: usize| -> usize {
        state ^= state << 13;
        state ^= state >> 7;
        state ^= state << 17;
        (state % bound as u64) as usize
    };
    let re = regex::Regex::new(
        r"On\s\w{3},\s(?:\d{1,2}|\w{3})\s(?:\d{1,2}|\w{3}),?\s\d{4}\sat\s\d{1,2}:\d{2}",
    )
    .unwrap();
    let mut matched = 0;
    for round in 0..120 {
        let mut chars: Vec<char> = templates[round % templates.len()].chars().collect();
        for _ in 0..next(4) {
            let at = next(chars.len() + 1);
            match next(3) {
                0 if at < chars.len() => {
                    chars[at] = alphabet[next(alphabet.len())];
                }
                1 if at < chars.len() => {
                    chars.remove(at);
                }
                _ => chars.insert(at, alphabet[next(alphabet.len())]),
            }
        }
        let body: String = chars.into_iter().collect();
        let expected = if re.is_match(&body) {
            re.splitn(&body, 2).next().map(|s| s.trim().to_string())
        } else {
            None
        };
        if expected.is_some() {
            matched += 1;
        }
        assert_eq!(parse_visible_text(&body), expected, "for {:?}", body);
    }
    assert!(matched > 10 && matched < 110);
}
