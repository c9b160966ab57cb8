use vella_sdk::address::{parse_addr, parse_addrs, Header, RawAddress};

fn raw(name: Option<&str>, address: Option<&str>) -> RawAddress {
    RawAddress { name: name.map(|s| s.to_string()), address: address.map(|s| s.to_string()) }
}

#[test]
fn an_address_keeps_its_name() {
    let a = parse_addr(&raw(Some("Ann"), Some("ann@example.com"))).unwrap();
    assert_eq!(a.name.as_deref(), Some("Ann"));
    assert_eq!(a.address, "ann@example.com");
    let b = parse_addr(&raw(None, Some("bob@example.com"))).unwrap();
    assert_eq!(b.name, None);
    assert_eq!(b.address, "bob@example.com");
}

#[test]
fn an_entry_without_address_is_dropped() {
    assert!(parse_addr(&raw(Some("Ann"), None)).is_none());
    assert!(parse_addr(&raw(Some("Ann"), Some(""))).is_none());
    assert!(parse_addr(&raw(None, None)).is_none());
}

#[test]
fn a_list_keeps_its_order() {
    let out = parse_addrs(&vec![
        raw(Some("A"), Some("a@x")),
        raw(Some("B"), None),
        raw(None, Some("c@x")),
        raw(None, Some("")),
        raw(Some("D"), Some("d@x")),
    ]);
    let got: Vec<&str> = out.iter().map(|a| a.address.as_str()).collect();
    assert_eq!(got, vec!["a@x", "c@x", "d@x"]);
    assert_eq!(out[0].name.as_deref(), Some("A"));
    assert_eq!(out[1].name, None);
}

#[test]
fn a_list_is_normalised_entry_by_entry() {
    let left = vec![raw(None, Some("a@x")), raw(None, None)];
    let right = vec![raw(Some("B"), Some("b@x"))];
    let joined = vec![raw(None, Some("a@x")), raw(None, None), raw(Some("B"), Some("b@x"))];
    let mut apart: Vec<String> = parse_addrs(&left).into_iter().map(|a| a.address).collect();
    apart.extend(parse_addrs(&right).into_iter().map(|a| a.address));
    let whole: Vec<String> = parse_addrs(&joined).into_iter().map(|a| a.address).collect();
    assert_eq!(apart, whole);
    assert!(parse_addrs(&vec![]).is_empty());
}

#[test]
fn a_header_from_a_pair() {
    let h = Header::from(("Subject", " hi\r\n"));
    assert_eq!(h.name, "Subject");
    assert_eq!(h.value, " hi\r\n");
}
