use vella_sdk::microdata::{extract_microdata, extract_microdata_items, top_level_items, DomNode, MicrodataItem};

fn get<'a>(pairs: &'a [(String, String)], key: &str) -> Option<&'a str> {
    pairs.iter().find(|(k, _)| k == key).map(|(_, v)| v.as_str())
}

fn child<'a>(item: &'a MicrodataItem, key: &str) -> Option<&'a MicrodataItem> {
    item.children.iter().find(|(k, _)| k == key).map(|(_, v)| v)
}

fn element(depth: usize, attrs: [Option<&str>; 5]) -> DomNode {
    DomNode {
        depth,
        element: true,
        attributes: attrs.iter().map(|a| a.map(|s| s.to_string())).collect(),
        text: None,
    }
}

fn text(depth: usize, t: &str) -> DomNode {
    DomNode { depth, element: false, attributes: vec![None; 5], text: Some(t.to_string()) }
}

#[test]
fn properties_come_from_content_href_or_text() {
    let html = r#"<div itemscope itemtype="https://schema.org/Event">
        <span itemprop="name"> Spring <b>Concert</b> </span>
        <meta itemprop="startDate" content="2024-06-01">
        <a itemprop="url" href="https://x.org/e">link text</a>
        <span itemprop="both" content="c" href="h">t</span>
    </div>"#;
    let items = extract_microdata(html);
    assert_eq!(items.len(), 1);
    let item = &items[0];
    assert_eq!(item.itemtype.as_deref(), Some("https://schema.org/Event"));
    assert_eq!(get(&item.properties, "name"), Some("Spring  Concert"));
    assert_eq!(get(&item.properties, "startDate"), Some("2024-06-01"));
    assert_eq!(get(&item.properties, "url"), Some("https://x.org/e"));
    assert_eq!(get(&item.properties, "both"), Some("c"));
    assert_eq!(item.properties.len(), 4);
    assert!(item.children.is_empty());
}

#[test]
fn nested_scopes_are_children_and_never_top_level() {
    let html = r#"<body>
      <div itemscope itemtype="Order">
        <span itemprop="id">7</span>
        <div itemprop="seller" itemscope itemtype="Org">
          <span itemprop="name">Acme</span>
          <div itemprop="address" itemscope><span itemprop="city">Oslo</span></div>
        </div>
        <div itemscope itemtype="Loose"><span itemprop="hidden">x</span></div>
      </div>
      <p itemscope itemtype="Second"><span itemprop="k">v</span></p>
    </body>"#;
    let items = extract_microdata(html);
    assert_eq!(items.len(), 2);
    let order = &items[0];
    assert_eq!(order.itemtype.as_deref(), Some("Order"));
    assert_eq!(order.properties.len(), 1);
    assert_eq!(get(&order.properties, "id"), Some("7"));
    assert_eq!(order.children.len(), 1);
    let seller = child(order, "seller").unwrap();
    assert_eq!(seller.itemtype.as_deref(), Some("Org"));
    assert_eq!(get(&seller.properties, "name"), Some("Acme"));
    assert_eq!(seller.properties.len(), 1);
    let address = child(seller, "address").unwrap();
    assert_eq!(address.itemtype, None);
    assert_eq!(get(&address.properties, "city"), Some("Oslo"));
    assert_eq!(items[1].itemtype.as_deref(), Some("Second"));
    assert_eq!(get(&items[1].properties, "k"), Some("v"));
}

#[test]
fn a_later_property_of_the_same_name_wins() {
    let html = r#"<div itemscope>
        <span itemprop="a">1</span><span itemprop="b">2</span><span itemprop="a">3</span>
        <div itemprop="c" itemscope itemtype="First"></div>
        <div itemprop="c" itemscope itemtype="Last"></div>
    </div>"#;
    let items = extract_microdata(html);
    assert_eq!(items.len(), 1);
    assert_eq!(items[0].properties.len(), 2);
    assert_eq!(get(&items[0].properties, "a"), Some("3"));
    assert_eq!(get(&items[0].properties, "b"), Some("2"));
    assert_eq!(items[0].children.len(), 1);
    assert_eq!(child(&items[0], "c").unwrap().itemtype.as_deref(), Some("Last"));
}

#[test]
fn properties_and_children_are_looked_up_by_name() {
    let html = r#"<div itemscope><span itemprop="a">1</span><span itemprop="a">2</span>
        <div itemprop="c" itemscope itemtype="Inner"><span itemprop="d">3</span></div></div>"#;
    let items = extract_microdata(html);
    let item = &items[0];
    assert_eq!(item.property("a").map(String::as_str), Some("2"));
    assert_eq!(item.property("d"), None);
    assert_eq!(item.property("c"), None);
    let inner = item.child("c").unwrap();
    assert_eq!(inner.itemtype.as_deref(), Some("Inner"));
    assert_eq!(inner.property("d").map(String::as_str), Some("3"));
    assert!(item.child("a").is_none());
    let by_hand = MicrodataItem {
        itemtype: None,
        properties: vec![("k".to_string(), "old".to_string()), ("k".to_string(), "new".to_string())],
        children: vec![],
    };
    assert_eq!(by_hand.property("k").map(String::as_str), Some("new"));
}

#[test]
fn a_document_without_scopes_has_no_items() {
    assert!(extract_microdata("<p itemprop=\"x\">y</p>").is_empty());
    assert!(extract_microdata("").is_empty());
}

#[test]
fn items_of_a_given_outline() {
    // root > scope(type T) > [prop p = "a b", scope+prop q > prop r (content), text], scope(type U)
    let rows = vec![
        element(0, [None, None, None, None, None]),
        element(1, [Some(""), Some("T"), None, None, None]),
        element(2, [None, None, Some("p"), None, None]),
        text(3, " a"),
        text(3, "b "),
        element(2, [Some(""), None, Some("q"), None, None]),
        element(3, [None, None, Some("r"), Some("inner"), None]),
        text(2, "loose"),
        element(1, [Some(""), Some("U"), None, None, None]),
    ];
    let items = top_level_items(&rows);
    assert_eq!(items.len(), 2);
    assert_eq!(items[0].itemtype.as_deref(), Some("T"));
    assert_eq!(items[0].properties, vec![("p".to_string(), "a b".to_string())]);
    assert_eq!(items[0].children.len(), 1);
    assert_eq!(items[0].children[0].0, "q");
    assert_eq!(items[0].children[0].1.properties, vec![("r".to_string(), "inner".to_string())]);
    assert_eq!(items[1].itemtype.as_deref(), Some("U"));
    assert!(items[1].properties.is_empty());
    let nested = extract_microdata_items(&rows, 5);
    assert_eq!(nested.itemtype, None);
    assert_eq!(nested.properties, vec![("r".to_string(), "inner".to_string())]);
}
