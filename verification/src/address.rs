//! Addresses and header lines as the records hand them on.
use crate::model::{lemma_views_push, opt_view, views};
use vstd::prelude::*;

verus! {

/// One address as a header names it: a display name and the address itself,
/// either of which may be missing.
#[derive(Debug)]
pub struct RawAddress {
    pub name: Option<String>,
    pub address: Option<String>,
}

/// The content of a [`RawAddress`].
pub struct RawAddressView {
    pub name: Option<Seq<char>>,
    pub address: Option<Seq<char>>,
}

impl View for RawAddress {
    type V = RawAddressView;

    open spec fn view(&self) -> RawAddressView {
        RawAddressView { name: opt_view(self.name), address: opt_view(self.address) }
    }
}

/// A normalised address. It always has an address.
#[derive(Debug)]
pub struct EmailAddress {
    pub name: Option<String>,
    pub address: String,
}

/// The content of an [`EmailAddress`].
pub struct EmailAddressView {
    pub name: Option<Seq<char>>,
    pub address: Seq<char>,
}

impl View for EmailAddress {
    type V = EmailAddressView;

    open spec fn view(&self) -> EmailAddressView {
        EmailAddressView { name: opt_view(self.name), address: self.address@ }
    }
}

/// A normalised address with the header text that it was read from.
#[derive(Debug)]
pub struct EmailAddressWithText {
    pub name: Option<String>,
    pub text: String,
    pub address: String,
}

/// The content of an [`EmailAddressWithText`].
pub struct EmailAddressWithTextView {
    pub name: Option<Seq<char>>,
    pub text: Seq<char>,
    pub address: Seq<char>,
}

impl View for EmailAddressWithText {
    type V = EmailAddressWithTextView;

    open spec fn view(&self) -> EmailAddressWithTextView {
        EmailAddressWithTextView {
            name: opt_view(self.name),
            text: self.text@,
            address: self.address@,
        }
    }
}

/// One header line: its name and its value.
#[derive(Debug)]
pub struct Header {
    pub name: String,
    pub value: String,
}

/// The content of a [`Header`].
pub struct HeaderView {
    pub name: Seq<char>,
    pub value: Seq<char>,
}

impl View for Header {
    type V = HeaderView;

    open spec fn view(&self) -> HeaderView {
        HeaderView { name: self.name@, value: self.value@ }
    }
}

impl<'a, 'b> vstd::std_specs::convert::FromSpecImpl<(&'a str, &'b str)> for Header {
    open spec fn obeys_from_spec() -> bool {
        false
    }

    open spec fn from_spec(pair: (&'a str, &'b str)) -> Header {
        arbitrary()
    }
}

impl<'a, 'b> From<(&'a str, &'b str)> for Header {
    fn from(pair: (&'a str, &'b str)) -> (h: Header)
        ensures
            h@ == (HeaderView { name: pair.0@, value: pair.1@ }),
    {
        Header { name: pair.0.to_owned(), value: pair.1.to_owned() }
    }
}

/// The normalised form of an address: it keeps its name as it is, and is
/// dropped where the address is missing or empty.
pub open spec fn normalized_address(raw: RawAddressView) -> Option<EmailAddressView> {
    match raw.address {
        Some(address) if address.len() > 0 => Some(
            EmailAddressView { name: raw.name, address },
        ),
        _ => None,
    }
}

/// The normalised forms of the addresses that have one, in their order.
pub open spec fn normalized_addresses(raw: Seq<RawAddressView>) -> Seq<EmailAddressView>
    decreases raw.len(),
{
    if raw.len() == 0 {
        seq![]
    } else {
        let before = normalized_addresses(raw.drop_last());
        match normalized_address(raw.last()) {
            Some(a) => before.push(a),
            None => before,
        }
    }
}

/// Normalises one address.
pub fn parse_addr(value: &RawAddress) -> (r: Option<EmailAddress>)
    ensures
        opt_view(r) == normalized_address(value@),
{
    match &value.address {
        Some(address) => {
            if address.as_str().is_empty() {
                None
            } else {
                Some(EmailAddress { name: value.name.clone(), address: address.clone() })
            }
        },
        None => None,
    }
}

/// Normalises a list of addresses: each one by itself, in the order given.
pub fn parse_addrs(addrs: &Vec<RawAddress>) -> (out: Vec<EmailAddress>)
    ensures
        views(out@) == normalized_addresses(views(addrs@)),
{
    let mut out: Vec<EmailAddress> = Vec::new();
    let mut i: usize = 0;
    assert(views(addrs@.take(0)) =~= Seq::<RawAddressView>::empty());
    assert(views(out@) =~= Seq::<EmailAddressView>::empty());
    while i < addrs.len()
        invariant
            i <= addrs.len(),
            views(out@) == normalized_addresses(views(addrs@.take(i as int))),
        decreases addrs.len() - i,
    {
        proof {
            crate::model::lemma_views_take(addrs@, i as int);
            let grown = views(addrs@.take(i + 1));
            assert(grown.drop_last() =~= views(addrs@.take(i as int)));
            assert(grown.last() == addrs@[i as int]@);
        }
        match parse_addr(&addrs[i]) {
            Some(a) => {
                proof {
                    lemma_views_push(out@, a);
                }
                out.push(a);
            },
            None => {},
        }
        i += 1;
    }
    assert(addrs@.take(addrs.len() as int) == addrs@);
    out
}

/// Normalising keeps the order and treats each address by itself: the
/// result for a list joined from two lists is the two results joined.
pub proof fn lemma_addresses_are_independent(a: Seq<RawAddressView>, b: Seq<RawAddressView>)
    ensures
        normalized_addresses(a + b) == normalized_addresses(a) + normalized_addresses(b),
    decreases b.len(),
{
    if b.len() == 0 {
        assert(a + b =~= a);
        assert(normalized_addresses(a) + normalized_addresses(b) =~= normalized_addresses(a));
    } else {
        lemma_addresses_are_independent(a, b.drop_last());
        assert((a + b).drop_last() =~= a + b.drop_last());
        assert((a + b).last() == b.last());
        let before = normalized_addresses(b.drop_last());
        match normalized_address(b.last()) {
            Some(x) => {
                assert(normalized_addresses(a) + before.push(x) =~= (normalized_addresses(a)
                    + before).push(x));
            },
            None => {},
        }
    }
}

/// No normalised address is without an address.
pub proof fn lemma_addresses_have_an_address(raw: Seq<RawAddressView>, i: int)
    requires
        0 <= i < normalized_addresses(raw).len(),
    ensures
        normalized_addresses(raw)[i].address.len() > 0,
    decreases raw.len(),
{
    if raw.len() > 0 {
        let before = normalized_addresses(raw.drop_last());
        if i < before.len() {
            lemma_addresses_have_an_address(raw.drop_last(), i);
        }
    }
}

} // verus!
