//! The visible part of a body: what its author wrote, without the earlier
//! messages quoted below it.
use crate::model::opt_view;
use crate::reply::{has_opening, visible_text_of, Classes};
use crate::text::{
    chars_of, contains_text, find, slice_of, string_of, trim, utf8_decoded, utf8_text,
};
use vstd::prelude::*;

verus! {

/// A body: its full text and, where a quotation was found, the part before
/// it. No visible part means that the whole text is visible.
#[derive(Debug)]
pub struct EmailText {
    pub text: String,
    pub visible: Option<String>,
}

/// The content of an [`EmailText`].
pub struct EmailTextView {
    pub text: Seq<char>,
    pub visible: Option<Seq<char>>,
}

impl View for EmailText {
    type V = EmailTextView;

    open spec fn view(&self) -> EmailTextView {
        EmailTextView { text: self.text@, visible: opt_view(self.visible) }
    }
}

/// A text with its HTML character references replaced by the characters
/// they stand for.
pub uninterp spec fn entities_decoded(text: Seq<char>) -> Seq<char>;

/// What is left of a text in HTML, as bytes, once it has been streamed
/// through a rewriter that removes every element that a selector matches;
/// `None` where the selector cannot be read or the rewriter reports an
/// error.
pub uninterp spec fn html_without(html: Seq<char>, selector: Seq<char>) -> Option<Seq<u8>>;

/// `html_escape::decode_html_entities`, copied. The result depends on the
/// text alone.
#[verifier::external_body]
fn decode_entities(text: &str) -> (r: String)
    ensures
        r@ == entities_decoded(text@),
{
    html_escape::decode_html_entities(text).into_owned()
}

/// `HtmlRewriter::new` of `lol_html` with one element handler for the
/// selector, which calls `Element::remove`, and one `HtmlRewriter::write` of
/// the whole text; what the rewriter has put out by then is returned. The
/// result depends on the two texts alone.
#[verifier::external_body]
fn remove_elements(html: &str, selector: &str) -> (r: Option<Vec<u8>>)
    ensures
        match r {
            Some(bytes) => html_without(html@, selector@) == Some(bytes@),
            None => html_without(html@, selector@) is None,
        },
{
    let selector = selector.parse::<lol_html::Selector>().ok()?;
    let handlers = lol_html::ElementContentHandlers::default().element(
        |el: &mut lol_html::html_content::Element<'_, '_>| { el.remove(); Ok(()) },
    );
    let mut output = Vec::new();
    let mut rewriter = lol_html::HtmlRewriter::new(
        lol_html::Settings::new().append_element_content_handler(
            (std::borrow::Cow::Owned(selector), handlers),
        ),
        |c: &[u8]| output.extend_from_slice(c),
    );
    let written = rewriter.write(html.as_bytes()).is_ok();
    drop(rewriter);
    written.then_some(output)
}

/// The visible part of a text body.
pub fn parse_visible_text(body: &str) -> (r: Option<String>)
    ensures
        opt_view(r) == visible_text_of(body@),
{
    let chars = chars_of(body);
    if !has_opening(&chars) {
        return None;
    }
    let classes = match Classes::new() {
        Some(c) => c,
        None => {
            return None;
        },
    };
    match classes.find_intro(&chars) {
        Some(i) => {
            proof {
                crate::reply::lemma_first_intro_from(chars@, 0);
            }
            Some(string_of(&trim(&slice_of(&chars, 0, i))))
        },
        None => None,
    }
}

/// A text body with its visible part: the text is the body with its
/// character references decoded, and the visible part is taken from that.
pub open spec fn text_body_of(body: Seq<char>) -> EmailTextView {
    EmailTextView {
        text: entities_decoded(body),
        visible: visible_text_of(entities_decoded(body)),
    }
}

/// Reads a text body.
pub fn parse_text(body: String) -> (r: EmailText)
    ensures
        r@ == text_body_of(body@),
{
    let text = decode_entities(body.as_str());
    let visible = parse_visible_text(text.as_str());
    EmailText { text, visible }
}

/// The class that marks the container of a quotation.
pub open spec fn quote_marker() -> Seq<char> {
    "gmail_quote_container"@
}

/// The selector of the container of a quotation.
pub open spec fn quote_selector() -> Seq<char> {
    ".gmail_quote_container"@
}

/// The visible part of an HTML body: the body without the containers of
/// quotations, where it names such a container at all and the rewriting
/// gives a text.
pub open spec fn visible_html_of(body: Seq<char>) -> Option<Seq<char>> {
    if !contains_text(body, quote_marker()) {
        None
    } else {
        match html_without(body, quote_selector()) {
            Some(bytes) => utf8_decoded(bytes),
            None => None,
        }
    }
}

/// The visible part of an HTML body.
pub fn parse_visible_html(body: &str) -> (r: Option<String>)
    ensures
        opt_view(r) == visible_html_of(body@),
{
    let chars = chars_of(body);
    let marker = chars_of("gmail_quote_container");
    if find(&chars, &marker, 0).is_none() {
        return None;
    }
    match remove_elements(body, ".gmail_quote_container") {
        Some(bytes) => utf8_text(bytes),
        None => None,
    }
}

/// An HTML body with its visible part.
pub open spec fn html_body_of(body: Seq<char>) -> EmailTextView {
    EmailTextView { text: body, visible: visible_html_of(body) }
}

/// Reads an HTML body.
pub fn parse_html(body: String) -> (r: EmailText)
    ensures
        r@ == html_body_of(body@),
{
    let visible = parse_visible_html(body.as_str());
    EmailText { text: body, visible }
}

/// What a character becomes when it is written as HTML text.
pub open spec fn escaped_char(c: char) -> Seq<char> {
    if c == '&' {
        seq!['&', 'a', 'm', 'p', ';']
    } else if c == '<' {
        seq!['&', 'l', 't', ';']
    } else if c == '>' {
        seq!['&', 'g', 't', ';']
    } else {
        seq![c]
    }
}

/// A text written as HTML text: `&`, `<` and `>` become character
/// references, everything else stays.
pub open spec fn escaped(text: Seq<char>) -> Seq<char>
    decreases text.len(),
{
    if text.len() == 0 {
        seq![]
    } else {
        escaped(text.drop_last()) + escaped_char(text.last())
    }
}

/// Writes a plain text as HTML text.
pub fn escape_text(text: String) -> (r: String)
    ensures
        r@ == escaped(text@),
{
    let chars = chars_of(text.as_str());
    let mut out: Vec<char> = Vec::new();
    let mut i: usize = 0;
    while i < chars.len()
        invariant
            i <= chars.len(),
            out@ == escaped(chars@.take(i as int)),
        decreases chars.len() - i,
    {
        let c = chars[i];
        proof {
            assert(chars@.take(i + 1).drop_last() =~= chars@.take(i as int));
            assert(chars@.take(i + 1).last() == c);
        }
        let ghost before = out@;
        if c == '&' {
            out.push('&');
            out.push('a');
            out.push('m');
            out.push('p');
            out.push(';');
        } else if c == '<' {
            out.push('&');
            out.push('l');
            out.push('t');
            out.push(';');
        } else if c == '>' {
            out.push('&');
            out.push('g');
            out.push('t');
            out.push(';');
        } else {
            out.push(c);
        }
        assert(out@ =~= before + escaped_char(c));
        i += 1;
    }
    assert(chars@.take(chars.len() as int) == chars@);
    string_of(&out)
}

/// An HTML body that does not name the container of a quotation has no
/// visible part of its own.
pub proof fn lemma_no_marker_no_visible_part(body: Seq<char>)
    requires
        !contains_text(body, quote_marker()),
    ensures
        visible_html_of(body) is None,
{
}

} // verus!
