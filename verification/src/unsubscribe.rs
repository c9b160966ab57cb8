//! The ways to unsubscribe that a message offers in its `List-Unsubscribe`
//! and `List-Unsubscribe-Post` headers.
use crate::address::{Header, HeaderView};
use crate::model::{lemma_views_push, opt_view, pair_views, views};
use crate::text::{
    chars_of, same_text, split, split_on, string_of, strip_leading, strip_trailing, trim, trimmed,
    without_leading, without_trailing,
};
use vstd::prelude::*;

verus! {

/// A request to be sent with `POST`: where to, and with what body.
#[derive(Debug)]
pub struct UnsubscribePost {
    pub url: String,
    pub body: String,
}

/// The content of an [`UnsubscribePost`].
pub struct UnsubscribePostView {
    pub url: Seq<char>,
    pub body: Seq<char>,
}

impl View for UnsubscribePost {
    type V = UnsubscribePostView;

    open spec fn view(&self) -> UnsubscribePostView {
        UnsubscribePostView { url: self.url@, body: self.body@ }
    }
}

/// A message to be sent: to whom, and with which headers.
#[derive(Debug)]
pub struct UnsubscribeEmail {
    pub email: String,
    pub headers: Vec<Header>,
}

/// The content of an [`UnsubscribeEmail`].
pub struct UnsubscribeEmailView {
    pub email: Seq<char>,
    pub headers: Seq<HeaderView>,
}

impl View for UnsubscribeEmail {
    type V = UnsubscribeEmailView;

    open spec fn view(&self) -> UnsubscribeEmailView {
        UnsubscribeEmailView { email: self.email@, headers: views(self.headers@) }
    }
}

/// The ways to unsubscribe. `get` and `post` never stand together; `email`
/// may stand beside either.
#[derive(Debug)]
pub struct Unsubscribe {
    pub get: Option<String>,
    pub post: Option<UnsubscribePost>,
    pub email: Option<UnsubscribeEmail>,
}

/// The content of an [`Unsubscribe`].
pub struct UnsubscribeView {
    pub get: Option<Seq<char>>,
    pub post: Option<UnsubscribePostView>,
    pub email: Option<UnsubscribeEmailView>,
}

impl View for Unsubscribe {
    type V = UnsubscribeView;

    open spec fn view(&self) -> UnsubscribeView {
        UnsubscribeView {
            get: opt_view(self.get),
            post: opt_view(self.post),
            email: opt_view(self.email),
        }
    }
}

/// The parts of a URL that the rules below read.
#[derive(Debug)]
pub struct UrlParts {
    /// The scheme, in lower case and without the colon.
    pub scheme: String,
    /// The whole URL as it is written out again.
    pub text: String,
    /// The path.
    pub path: String,
    /// The pairs of the query, decoded.
    pub query: Vec<(String, String)>,
}

/// The content of a [`UrlParts`].
pub struct UrlPartsView {
    pub scheme: Seq<char>,
    pub text: Seq<char>,
    pub path: Seq<char>,
    pub query: Seq<(Seq<char>, Seq<char>)>,
}

impl View for UrlParts {
    type V = UrlPartsView;

    open spec fn view(&self) -> UrlPartsView {
        UrlPartsView {
            scheme: self.scheme@,
            text: self.text@,
            path: self.path@,
            query: pair_views(self.query@),
        }
    }
}

/// The parts of the URL that a text is, where it is one.
pub uninterp spec fn url_parts(text: Seq<char>) -> Option<UrlPartsView>;

/// `Url::parse`, with `scheme`, `to_string`, `path` and `query_pairs` of the
/// URL copied out. A text that is no URL gives `None`. The result depends on
/// the text alone.
#[verifier::external_body]
fn parse_url(text: &str) -> (r: Option<UrlParts>)
    ensures
        opt_view(r) == url_parts(text@),
{
    url::Url::parse(text).ok().map(|u| UrlParts {
        scheme: u.scheme().to_owned(),
        text: u.to_string(),
        path: u.path().to_owned(),
        query: u.query_pairs().map(|(k, v)| (k.into_owned(), v.into_owned())).collect(),
    })
}

/// One entry of the header as it is handed to the URL parser: without the
/// white space round it and without the angle brackets.
pub open spec fn entry_text(entry: Seq<char>) -> Seq<char> {
    without_trailing(without_leading(trimmed(entry), '<'), '>')
}

/// The URLs among the entries, in their order; an entry that is no URL is
/// left out.
pub open spec fn entry_urls(entries: Seq<Seq<char>>) -> Seq<UrlPartsView>
    decreases entries.len(),
{
    if entries.len() == 0 {
        seq![]
    } else {
        let before = entry_urls(entries.drop_last());
        match url_parts(entry_text(entries.last())) {
            Some(u) => before.push(u),
            None => before,
        }
    }
}

/// Whether a URL is fetched over the web.
pub open spec fn is_web(url: UrlPartsView) -> bool {
    url.scheme == "http"@ || url.scheme == "https"@
}

/// Whether a URL names a mailbox.
pub open spec fn is_mailto(url: UrlPartsView) -> bool {
    url.scheme == "mailto"@
}

/// The first URL that satisfies `wanted`.
pub open spec fn first_url(urls: Seq<UrlPartsView>, wanted: spec_fn(UrlPartsView) -> bool) -> Option<
    UrlPartsView,
>
    decreases urls.len(),
{
    if urls.len() == 0 {
        None
    } else if wanted(urls[0]) {
        Some(urls[0])
    } else {
        first_url(urls.drop_first(), wanted)
    }
}

/// The headers that the query of a `mailto` URL asks for.
pub open spec fn query_headers(query: Seq<(Seq<char>, Seq<char>)>) -> Seq<HeaderView> {
    query.map_values(|p: (Seq<char>, Seq<char>)| HeaderView { name: p.0, value: p.1 })
}

/// The ways to unsubscribe that a list of URLs and the body of a
/// `List-Unsubscribe-Post` header give.
///
/// The first web URL is the place to go to. It is posted to where the post
/// header is present, whatever that header holds, and fetched where it is
/// absent. The first `mailto` URL is looked for by itself.
pub open spec fn selected(urls: Seq<UrlPartsView>, post: Option<Seq<char>>) -> UnsubscribeView {
    let web = first_url(urls, |u: UrlPartsView| is_web(u));
    let mail = first_url(urls, |u: UrlPartsView| is_mailto(u));
    UnsubscribeView {
        get: match (web, post) {
            (Some(u), None) => Some(u.text),
            _ => None,
        },
        post: match (web, post) {
            (Some(u), Some(body)) => Some(UnsubscribePostView { url: u.text, body }),
            _ => None,
        },
        email: match mail {
            Some(u) => Some(UnsubscribeEmailView { email: u.path, headers: query_headers(u.query) }),
            None => None,
        },
    }
}

/// No way to unsubscribe at all.
pub open spec fn no_unsubscribe() -> UnsubscribeView {
    UnsubscribeView { get: None, post: None, email: None }
}

/// The ways to unsubscribe that the two headers of a message give.
pub open spec fn unsubscribe_of(
    list_unsubscribe: Option<Seq<char>>,
    list_unsubscribe_post: Option<Seq<char>>,
) -> UnsubscribeView {
    let header = match list_unsubscribe {
        Some(h) => trimmed(h),
        None => seq![],
    };
    if header.len() == 0 {
        no_unsubscribe()
    } else {
        selected(
            entry_urls(split_on(header, seq![','])),
            match list_unsubscribe_post {
                Some(body) => Some(trimmed(body)),
                None => None,
            },
        )
    }
}

/// The position of the first web URL.
fn first_web(urls: &Vec<UrlParts>) -> (r: Option<usize>)
    ensures
        match r {
            Some(i) => i < urls.len() && first_url(views(urls@), |u: UrlPartsView| is_web(u))
                == Some(urls@[i as int]@),
            None => first_url(views(urls@), |u: UrlPartsView| is_web(u)) is None,
        },
{
    let ghost wanted = |u: UrlPartsView| is_web(u);
    let ghost all = views(urls@);
    let mut i: usize = 0;
    assert(all.skip(0) == all);
    while i < urls.len()
        invariant
            i <= urls.len(),
            all == views(urls@),
            wanted == |u: UrlPartsView| is_web(u),
            first_url(all, wanted) == first_url(all.skip(i as int), wanted),
        decreases urls.len() - i,
    {
        let scheme = urls[i].scheme.as_str();
        assert(all.skip(i as int)[0] == urls@[i as int]@);
        if same_text(scheme, "http") || same_text(scheme, "https") {
            return Some(i);
        }
        assert(all.skip(i as int).drop_first() == all.skip(i + 1));
        i += 1;
    }
    None
}

/// The position of the first `mailto` URL.
fn first_mailto(urls: &Vec<UrlParts>) -> (r: Option<usize>)
    ensures
        match r {
            Some(i) => i < urls.len() && first_url(views(urls@), |u: UrlPartsView| is_mailto(u))
                == Some(urls@[i as int]@),
            None => first_url(views(urls@), |u: UrlPartsView| is_mailto(u)) is None,
        },
{
    let ghost wanted = |u: UrlPartsView| is_mailto(u);
    let ghost all = views(urls@);
    let mut i: usize = 0;
    assert(all.skip(0) == all);
    while i < urls.len()
        invariant
            i <= urls.len(),
            all == views(urls@),
            wanted == |u: UrlPartsView| is_mailto(u),
            first_url(all, wanted) == first_url(all.skip(i as int), wanted),
        decreases urls.len() - i,
    {
        assert(all.skip(i as int)[0] == urls@[i as int]@);
        if same_text(urls[i].scheme.as_str(), "mailto") {
            return Some(i);
        }
        assert(all.skip(i as int).drop_first() == all.skip(i + 1));
        i += 1;
    }
    None
}

/// The headers that the query of a `mailto` URL asks for.
fn headers_of_query(query: &Vec<(String, String)>) -> (out: Vec<Header>)
    ensures
        views(out@) == query_headers(pair_views(query@)),
{
    let mut out: Vec<Header> = Vec::new();
    let mut i: usize = 0;
    while i < query.len()
        invariant
            i <= query.len(),
            out@.len() == i,
            forall|k: int|
                0 <= k < i ==> (#[trigger] out@[k])@ == (HeaderView {
                    name: query@[k].0@,
                    value: query@[k].1@,
                }),
        decreases query.len() - i,
    {
        out.push(Header { name: query[i].0.clone(), value: query[i].1.clone() });
        i += 1;
    }
    assert(views(out@) =~= query_headers(pair_views(query@)));
    out
}

/// Chooses the ways to unsubscribe among the URLs of the header.
pub fn select_unsubscribe(urls: &Vec<UrlParts>, post: Option<String>) -> (r: Unsubscribe)
    ensures
        r@ == selected(views(urls@), opt_view(post)),
        !(r.get is Some && r.post is Some),
{
    let web = first_web(urls);
    let mail = first_mailto(urls);
    let email = match mail {
        Some(i) => Some(
            UnsubscribeEmail { email: urls[i].path.clone(), headers: headers_of_query(&urls[i].query) },
        ),
        None => None,
    };
    match web {
        Some(i) => match post {
            Some(body) => Unsubscribe {
                get: None,
                post: Some(UnsubscribePost { url: urls[i].text.clone(), body }),
                email,
            },
            None => Unsubscribe { get: Some(urls[i].text.clone()), post: None, email },
        },
        None => Unsubscribe { get: None, post: None, email },
    }
}

/// The URLs among the entries of the header.
fn urls_of_entries(entries: &Vec<Vec<char>>) -> (urls: Vec<UrlParts>)
    ensures
        views(urls@) == entry_urls(crate::text::rows(entries@)),
{
    let ghost all = crate::text::rows(entries@);
    let mut urls: Vec<UrlParts> = Vec::new();
    let mut i: usize = 0;
    assert(views(urls@) =~= Seq::<UrlPartsView>::empty());
    while i < entries.len()
        invariant
            i <= entries.len(),
            all == crate::text::rows(entries@),
            views(urls@) == entry_urls(all.take(i as int)),
        decreases entries.len() - i,
    {
        proof {
            assert(all.take(i + 1).drop_last() =~= all.take(i as int));
            assert(all.take(i + 1).last() == entries@[i as int]@);
        }
        let bare = strip_trailing(&strip_leading(&trim(&entries[i]), '<'), '>');
        let text = string_of(&bare);
        match parse_url(text.as_str()) {
            Some(u) => {
                proof {
                    lemma_views_push(urls@, u);
                }
                urls.push(u);
            },
            None => {},
        }
        i += 1;
    }
    assert(all.take(entries.len() as int) == all);
    urls
}

/// Reads the ways to unsubscribe from the raw `List-Unsubscribe` and
/// `List-Unsubscribe-Post` headers of a message, each absent or present.
pub fn extract_unsubscribe(list_unsubscribe: Option<&str>, list_unsubscribe_post: Option<&str>) -> (r:
    Unsubscribe)
    ensures
        r@ == unsubscribe_of(opt_view(list_unsubscribe), opt_view(list_unsubscribe_post)),
        !(r.get is Some && r.post is Some),
{
    let header: Vec<char> = match list_unsubscribe {
        Some(h) => trim(&chars_of(h)),
        None => Vec::new(),
    };
    if header.len() == 0 {
        return Unsubscribe { get: None, post: None, email: None };
    }
    let mut comma: Vec<char> = Vec::new();
    comma.push(',');
    let entries = split(&header, &comma);
    let urls = urls_of_entries(&entries);
    let post: Option<String> = match list_unsubscribe_post {
        Some(body) => Some(string_of(&trim(&chars_of(body)))),
        None => None,
    };
    select_unsubscribe(&urls, post)
}

/// Fetching and posting exclude each other, whatever the headers hold.
pub proof fn lemma_get_excludes_post(
    list_unsubscribe: Option<Seq<char>>,
    list_unsubscribe_post: Option<Seq<char>>,
)
    ensures
        !(unsubscribe_of(list_unsubscribe, list_unsubscribe_post).get is Some && unsubscribe_of(
            list_unsubscribe,
            list_unsubscribe_post,
        ).post is Some),
{
}

/// With a post header the web URL is posted to and never fetched; without
/// one it is fetched and never posted to.
pub proof fn lemma_post_header_decides(urls: Seq<UrlPartsView>, post: Option<Seq<char>>)
    ensures
        post is Some ==> selected(urls, post).get is None,
        post is None ==> selected(urls, post).post is None,
        selected(urls, post).email == selected(urls, None).email,
{
}

} // verus!
