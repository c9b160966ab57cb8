use vella_sdk::markup::{collect_scripts, parse_json_lds};

#[test]
fn an_array_of_two_objects_gives_two_candidates() {
    let html = r#"<html><head><script type="application/ld+json">
        [{"@type":"Event","name":"a"},{"@type":"Organization","name":"b"}]
    </script></head><body></body></html>"#;
    assert_eq!(
        parse_json_lds(html),
        vec![r#"{"@type":"Event","name":"a"}"#.to_string(), r#"{"@type":"Organization","name":"b"}"#.to_string()]
    );
}

#[test]
fn a_single_value_gives_one_candidate() {
    let html = r#"<script type="application/ld+json"> {"name": "x", "n": [1, 2]} </script>"#;
    assert_eq!(parse_json_lds(html), vec![r#"{"n":[1,2],"name":"x"}"#.to_string()]);
}

#[test]
fn invalid_json_gives_none_and_leaves_its_neighbours_alone() {
    let html = r#"<body>
        <script type="application/ld+json">{"a":1}</script>
        <script type="application/ld+json">{not json</script>
        <script type="application/ld+json">[2, "three"]</script>
        <script type="text/javascript">{"b":2}</script>
        <script type="application/ld+json"></script>
    </body>"#;
    assert_eq!(parse_json_lds(html), vec![r#"{"a":1}"#.to_string(), "2".to_string(), r#""three""#.to_string()]);
}

#[test]
fn a_body_without_scripts_gives_nothing() {
    assert!(parse_json_lds("<p>hello</p>").is_empty());
    assert!(parse_json_lds("").is_empty());
}

#[test]
fn scripts_given_by_their_text() {
    let texts = vec![Some("  [1, {\"k\": null}] ".to_string()), None, Some("oops".to_string()), Some("true".to_string())];
    assert_eq!(collect_scripts(&texts), vec!["1".to_string(), r#"{"k":null}"#.to_string(), "true".to_string()]);
    assert!(collect_scripts(&vec![]).is_empty());
}
