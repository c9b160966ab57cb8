//! Batches of API responses: a blob of sections, each of which wraps a
//! message or an error in JSON.
use crate::email::{email_of, parse_email, Email, EmailView};
use crate::json::{
    items, json_document, json_items, json_member, member, number_member, parse_json, read_number,
    read_string, read_strings, referents, string_member, strings_member,
};
use crate::model::{lemma_views_push, opt_view, views};
use crate::quote::{parse_text, text_body_of, EmailText, EmailTextView};
use crate::text::{
    chars_of, find_char, find_from, find_last_char, last_index_of, lemma_find_from,
    lemma_last_index_of, rows, slice_of, split, split_on, string_of, trim, trimmed,
};
use vstd::prelude::*;

verus! {

/// A message as the API wraps it, with the encoded message in `raw`.
#[allow(non_snake_case)]
#[derive(Debug)]
pub struct GmailMessageIn {
    pub id: String,
    pub threadId: String,
    pub labelIds: Vec<String>,
    pub snippet: String,
    pub sizeEstimate: u32,
    pub raw: String,
    pub historyId: String,
    pub internalDate: String,
}

/// The content of a [`GmailMessageIn`].
#[allow(non_snake_case)]
pub struct GmailMessageInView {
    pub id: Seq<char>,
    pub threadId: Seq<char>,
    pub labelIds: Seq<Seq<char>>,
    pub snippet: Seq<char>,
    pub sizeEstimate: u32,
    pub raw: Seq<char>,
    pub historyId: Seq<char>,
    pub internalDate: Seq<char>,
}

impl View for GmailMessageIn {
    type V = GmailMessageInView;

    open spec fn view(&self) -> GmailMessageInView {
        GmailMessageInView {
            id: self.id@,
            threadId: self.threadId@,
            labelIds: views(self.labelIds@),
            snippet: self.snippet@,
            sizeEstimate: self.sizeEstimate,
            raw: self.raw@,
            historyId: self.historyId@,
            internalDate: self.internalDate@,
        }
    }
}

/// A message of the API with the record of the message it wraps.
#[allow(non_snake_case)]
#[derive(Debug)]
pub struct GmailMessage {
    pub id: String,
    pub threadId: String,
    pub labelIds: Vec<String>,
    pub snippet: EmailText,
    pub sizeEstimate: u32,
    pub data: Email,
    pub historyId: String,
    pub internalDate: String,
}

/// The content of a [`GmailMessage`].
#[allow(non_snake_case)]
pub struct GmailMessageView {
    pub id: Seq<char>,
    pub threadId: Seq<char>,
    pub labelIds: Seq<Seq<char>>,
    pub snippet: EmailTextView,
    pub sizeEstimate: u32,
    pub data: EmailView,
    pub historyId: Seq<char>,
    pub internalDate: Seq<char>,
}

impl View for GmailMessage {
    type V = GmailMessageView;

    open spec fn view(&self) -> GmailMessageView {
        GmailMessageView {
            id: self.id@,
            threadId: self.threadId@,
            labelIds: views(self.labelIds@),
            snippet: self.snippet@,
            sizeEstimate: self.sizeEstimate,
            data: self.data@,
            historyId: self.historyId@,
            internalDate: self.internalDate@,
        }
    }
}

/// One of the errors that an error of the API lists.
#[derive(Debug)]
pub struct GmailErrorItem {
    pub message: String,
    pub domain: String,
    pub reason: String,
}

/// The content of a [`GmailErrorItem`].
pub struct GmailErrorItemView {
    pub message: Seq<char>,
    pub domain: Seq<char>,
    pub reason: Seq<char>,
}

impl View for GmailErrorItem {
    type V = GmailErrorItemView;

    open spec fn view(&self) -> GmailErrorItemView {
        GmailErrorItemView { message: self.message@, domain: self.domain@, reason: self.reason@ }
    }
}

/// An error of the API.
#[derive(Debug)]
pub struct GmailError {
    pub code: u32,
    pub message: String,
    pub status: String,
    pub errors: Vec<GmailErrorItem>,
}

/// The content of a [`GmailError`].
pub struct GmailErrorView {
    pub code: u32,
    pub message: Seq<char>,
    pub status: Seq<char>,
    pub errors: Seq<GmailErrorItemView>,
}

impl View for GmailError {
    type V = GmailErrorView;

    open spec fn view(&self) -> GmailErrorView {
        GmailErrorView {
            code: self.code,
            message: self.message@,
            status: self.status@,
            errors: views(self.errors@),
        }
    }
}

/// What a section of a batch holds.
#[allow(clippy::large_enum_variant)]
#[derive(Debug)]
pub enum BatchResponse {
    Success(GmailMessage),
    Error(GmailError),
}

/// The content of a [`BatchResponse`].
pub enum BatchResponseView {
    Success(GmailMessageView),
    Error(GmailErrorView),
}

impl View for BatchResponse {
    type V = BatchResponseView;

    open spec fn view(&self) -> BatchResponseView {
        match *self {
            BatchResponse::Success(m) => BatchResponseView::Success(m@),
            BatchResponse::Error(e) => BatchResponseView::Error(e@),
        }
    }
}

/// A section of a batch: its name and what it holds.
#[derive(Debug)]
pub struct BatchSection {
    pub batch_name: String,
    pub response: BatchResponse,
}

/// The content of a [`BatchSection`].
pub struct BatchSectionView {
    pub batch_name: Seq<char>,
    pub response: BatchResponseView,
}

impl View for BatchSection {
    type V = BatchSectionView;

    open spec fn view(&self) -> BatchSectionView {
        BatchSectionView { batch_name: self.batch_name@, response: self.response@ }
    }
}

/// The message that a JSON value wraps: an object with all eight members,
/// each of its kind. Further members are passed over.
///
/// The value is read member by member. Where a member is written twice,
/// the later one counts, since that is the one `serde_json` keeps in the
/// value. A record written as an array of its members in order is not
/// read. A reader that `serde` derives for the record differs in both: it
/// refuses the repeated member and reads the array.
pub open spec fn message_envelope(value: serde_json::Value) -> Option<GmailMessageInView> {
    match (
        string_member(value, "id"@),
        string_member(value, "threadId"@),
        strings_member(value, "labelIds"@),
        string_member(value, "snippet"@),
        number_member(value, "sizeEstimate"@),
        string_member(value, "raw"@),
        string_member(value, "historyId"@),
        string_member(value, "internalDate"@),
    ) {
        (
            Some(id),
            Some(threadId),
            Some(labelIds),
            Some(snippet),
            Some(sizeEstimate),
            Some(raw),
            Some(historyId),
            Some(internalDate),
        ) => Some(
            GmailMessageInView {
                id,
                threadId,
                labelIds,
                snippet,
                sizeEstimate,
                raw,
                historyId,
                internalDate,
            },
        ),
        _ => None,
    }
}

/// One listed error that a JSON value states: an object with the three
/// members, each a string. As with [`message_envelope`], the later of two
/// members of one name counts, and a listed error written as an array of
/// its three members is not read.
pub open spec fn error_item(value: serde_json::Value) -> Option<GmailErrorItemView> {
    match (
        string_member(value, "message"@),
        string_member(value, "domain"@),
        string_member(value, "reason"@),
    ) {
        (Some(message), Some(domain), Some(reason)) => Some(
            GmailErrorItemView { message, domain, reason },
        ),
        _ => None,
    }
}

/// The listed errors that a list of JSON values states, where each of them
/// states one.
pub open spec fn error_items(values: Seq<serde_json::Value>) -> Option<Seq<GmailErrorItemView>>
    decreases values.len(),
{
    if values.len() == 0 {
        Some(seq![])
    } else {
        match (error_items(values.drop_last()), error_item(values.last())) {
            (Some(before), Some(item)) => Some(before.push(item)),
            _ => None,
        }
    }
}

/// The error that a JSON value states: an object with the four members,
/// each of its kind. As with [`message_envelope`], the later of two members
/// of one name counts, and an array in place of the object is not read.
pub open spec fn error_envelope(value: serde_json::Value) -> Option<GmailErrorView> {
    match (
        number_member(value, "code"@),
        string_member(value, "message"@),
        string_member(value, "status"@),
        match json_member(value, "errors"@) {
            Some(list) => match json_items(list) {
                Some(values) => error_items(values),
                None => None,
            },
            None => None,
        },
    ) {
        (Some(code), Some(message), Some(status), Some(errors)) => Some(
            GmailErrorView { code, message, status, errors },
        ),
        _ => None,
    }
}

/// The message of the API with the record of the message it wraps; `None`
/// where the wrapped message has no record.
pub open spec fn gmail_of(message: GmailMessageInView) -> Option<GmailMessageView> {
    match email_of(message.raw) {
        Ok(data) => Some(
            GmailMessageView {
                id: message.id,
                threadId: message.threadId,
                labelIds: message.labelIds,
                snippet: text_body_of(message.snippet),
                sizeEstimate: message.sizeEstimate,
                data,
                historyId: message.historyId,
                internalDate: message.internalDate,
            },
        ),
        Err(_) => None,
    }
}

/// What a payload holds: the message it wraps, where it wraps one that has
/// a record; else the error it states, where it states one.
pub open spec fn response_of(payload: Seq<char>) -> Option<BatchResponseView> {
    match json_document(payload) {
        None => None,
        Some(value) => {
            let success = match message_envelope(value) {
                Some(message) => gmail_of(message),
                None => None,
            };
            match success {
                Some(message) => Some(BatchResponseView::Success(message)),
                None => match error_envelope(value) {
                    Some(error) => Some(BatchResponseView::Error(error)),
                    None => None,
                },
            }
        },
    }
}

/// The first line of a section, without its line break.
pub open spec fn first_line(section: Seq<char>) -> Seq<char> {
    match find_from(section, seq!['\n'], 0) {
        Some(i) if 0 <= i <= section.len() => section.subrange(0, i),
        _ => section,
    }
}

/// The payload of a section: its text from the first `{` to the last `}`;
/// `None` where either is missing or the last `}` stands before the first
/// `{`.
pub open spec fn payload_of(section: Seq<char>) -> Option<Seq<char>> {
    match (find_from(section, seq!['{'], 0), last_index_of(section, '}')) {
        (Some(open), Some(close)) if 0 <= open <= close < section.len() => Some(
            section.subrange(open, close + 1),
        ),
        _ => None,
    }
}

/// What a section gives: its name, which is its first line trimmed, and
/// what its payload holds. An empty section, one without payload and one
/// whose payload holds neither message nor error give nothing.
pub open spec fn section_of(section: Seq<char>) -> Option<BatchSectionView> {
    if section.len() == 0 {
        None
    } else {
        match payload_of(section) {
            None => None,
            Some(payload) => match response_of(payload) {
                Some(response) => Some(
                    BatchSectionView { batch_name: trimmed(first_line(section)), response },
                ),
                None => None,
            },
        }
    }
}

/// What a run of sections gives, section after section.
pub open spec fn sections_of(sections: Seq<Seq<char>>) -> Seq<BatchSectionView>
    decreases sections.len(),
{
    if sections.len() == 0 {
        seq![]
    } else {
        let before = sections_of(sections.drop_last());
        match section_of(sections.last()) {
            Some(s) => before.push(s),
            None => before,
        }
    }
}

/// The delimiter of sections.
pub open spec fn delimiter() -> Seq<char> {
    "--"@
}

/// What a batch gives: what its sections give, in order.
pub open spec fn batch_of(body: Seq<char>) -> Seq<BatchSectionView> {
    sections_of(split_on(body, delimiter()))
}

/// Reads the record of the message that a message of the API wraps.
pub fn parse_gmail(message: GmailMessageIn) -> (r: Option<GmailMessage>)
    ensures
        opt_view(r) == gmail_of(message@),
{
    let snippet = parse_text(message.snippet);
    match parse_email(message.raw) {
        Ok(data) => Some(
            GmailMessage {
                id: message.id,
                threadId: message.threadId,
                labelIds: message.labelIds,
                snippet,
                sizeEstimate: message.sizeEstimate,
                data,
                historyId: message.historyId,
                internalDate: message.internalDate,
            },
        ),
        Err(_) => None,
    }
}

fn read_message_envelope(value: &serde_json::Value) -> (r: Option<GmailMessageIn>)
    ensures
        opt_view(r) == message_envelope(*value),
{
    let id = read_string(value, "id");
    let thread = read_string(value, "threadId");
    let labels = read_strings(value, "labelIds");
    let snippet = read_string(value, "snippet");
    let size = read_number(value, "sizeEstimate");
    let raw = read_string(value, "raw");
    let history = read_string(value, "historyId");
    let date = read_string(value, "internalDate");
    match (id, thread, labels, snippet, size, raw, history, date) {
        (
            Some(id),
            Some(thread),
            Some(labels),
            Some(snippet),
            Some(size),
            Some(raw),
            Some(history),
            Some(date),
        ) => Some(
            GmailMessageIn {
                id,
                threadId: thread,
                labelIds: labels,
                snippet,
                sizeEstimate: size,
                raw,
                historyId: history,
                internalDate: date,
            },
        ),
        _ => None,
    }
}

fn read_error_item(value: &serde_json::Value) -> (r: Option<GmailErrorItem>)
    ensures
        opt_view(r) == error_item(*value),
{
    let message = read_string(value, "message");
    let domain = read_string(value, "domain");
    let reason = read_string(value, "reason");
    match (message, domain, reason) {
        (Some(message), Some(domain), Some(reason)) => Some(
            GmailErrorItem { message, domain, reason },
        ),
        _ => None,
    }
}

/// Once a listed error cannot be read, the whole list cannot.
proof fn lemma_error_items_fail(values: Seq<serde_json::Value>, n: int)
    requires
        0 <= n <= values.len(),
        error_items(values.take(n)) is None,
    ensures
        error_items(values) is None,
    decreases values.len() - n,
{
    if n < values.len() {
        assert(values.take(n + 1).drop_last() =~= values.take(n));
        lemma_error_items_fail(values, n + 1);
    } else {
        assert(values.take(n) == values);
    }
}

fn read_error_items(list: &Vec<&serde_json::Value>) -> (r: Option<Vec<GmailErrorItem>>)
    ensures
        match r {
            Some(out) => error_items(referents(list@)) == Some(views(out@)),
            None => error_items(referents(list@)) is None,
        },
{
    let ghost all = referents(list@);
    let mut out: Vec<GmailErrorItem> = Vec::new();
    let mut i: usize = 0;
    assert(views(out@) =~= Seq::<GmailErrorItemView>::empty());
    while i < list.len()
        invariant
            i <= list.len(),
            all == referents(list@),
            error_items(all.take(i as int)) == Some(views(out@)),
        decreases list.len() - i,
    {
        proof {
            assert(all.take(i + 1).drop_last() =~= all.take(i as int));
            assert(all.take(i + 1).last() == *list@[i as int]);
        }
        match read_error_item(list[i]) {
            Some(item) => {
                proof {
                    lemma_views_push(out@, item);
                }
                out.push(item);
            },
            None => {
                proof {
                    assert(error_items(all.take(i + 1)) is None);
                    lemma_error_items_fail(all, i + 1);
                }
                return None;
            },
        }
        i += 1;
    }
    assert(all.take(list.len() as int) == all);
    Some(out)
}

fn read_error_envelope(value: &serde_json::Value) -> (r: Option<GmailError>)
    ensures
        opt_view(r) == error_envelope(*value),
{
    let code = read_number(value, "code");
    let message = read_string(value, "message");
    let status = read_string(value, "status");
    let errors = match member(value, "errors") {
        Some(list) => match items(list) {
            Some(values) => read_error_items(&values),
            None => None,
        },
        None => None,
    };
    match (code, message, status, errors) {
        (Some(code), Some(message), Some(status), Some(errors)) => Some(
            GmailError { code, message, status, errors },
        ),
        _ => None,
    }
}

/// Reads what a payload holds.
pub fn parse_payload(payload: &str) -> (r: Option<BatchResponse>)
    ensures
        opt_view(r) == response_of(payload@),
{
    let value = match parse_json(payload) {
        Some(v) => v,
        None => {
            return None;
        },
    };
    let success = match read_message_envelope(&value) {
        Some(message) => parse_gmail(message),
        None => None,
    };
    match success {
        Some(message) => Some(BatchResponse::Success(message)),
        None => match read_error_envelope(&value) {
            Some(error) => Some(BatchResponse::Error(error)),
            None => None,
        },
    }
}

/// Reads one section of a batch.
pub fn parse_section(section: &Vec<char>) -> (r: Option<BatchSection>)
    ensures
        opt_view(r) == section_of(section@),
{
    if section.len() == 0 {
        return None;
    }
    proof {
        lemma_find_from(section@, seq!['\n'], 0);
        lemma_find_from(section@, seq!['{'], 0);
        lemma_last_index_of(section@, '}');
    }
    let line_end: usize = match find_char(section, '\n', 0) {
        Some(i) => i,
        None => section.len(),
    };
    assert(section@.subrange(0, section@.len() as int) == section@);
    let name = trim(&slice_of(section, 0, line_end));
    let open = match find_char(section, '{', 0) {
        Some(i) => i,
        None => {
            return None;
        },
    };
    let close = match find_last_char(section, '}') {
        Some(i) => i,
        None => {
            return None;
        },
    };
    if close < open {
        return None;
    }
    let payload = string_of(&slice_of(section, open, close + 1));
    match parse_payload(payload.as_str()) {
        Some(response) => Some(BatchSection { batch_name: string_of(&name), response }),
        None => None,
    }
}

/// The sections of a batch: the pieces of its text between the delimiters.
pub fn batch_sections(body: &str) -> (sections: Vec<Vec<char>>)
    ensures
        rows(sections@) == split_on(body@, delimiter()),
{
    let chars = chars_of(body);
    let delimiter = chars_of("--");
    proof {
        reveal_strlit("--");
    }
    split(&chars, &delimiter)
}

/// Reads a batch of responses: every section that holds a message with a
/// record or an error, in the order of the batch. Sections that hold
/// neither are left out; nothing makes the whole batch fail.
pub fn parse_batch_response(body: String) -> (out: Vec<BatchSection>)
    ensures
        views(out@) == batch_of(body@),
{
    let sections = batch_sections(body.as_str());
    let ghost all = rows(sections@);
    let mut out: Vec<BatchSection> = Vec::new();
    let mut i: usize = 0;
    assert(views(out@) =~= Seq::<BatchSectionView>::empty());
    while i < sections.len()
        invariant
            i <= sections.len(),
            all == rows(sections@),
            views(out@) == sections_of(all.take(i as int)),
        decreases sections.len() - i,
    {
        proof {
            assert(all.take(i + 1).drop_last() =~= all.take(i as int));
            assert(all.take(i + 1).last() == sections@[i as int]@);
        }
        match parse_section(&sections[i]) {
            Some(section) => {
                proof {
                    lemma_views_push(out@, section);
                }
                out.push(section);
            },
            None => {},
        }
        i += 1;
    }
    assert(all.take(sections.len() as int) == all);
    out
}

/// Each section is read by itself: what two runs of sections joined give
/// is what the one gives followed by what the other gives, so a section
/// that gives nothing changes nothing for the others.
pub proof fn lemma_sections_are_independent(a: Seq<Seq<char>>, b: Seq<Seq<char>>)
    ensures
        sections_of(a + b) == sections_of(a) + sections_of(b),
    decreases b.len(),
{
    if b.len() == 0 {
        assert(a + b =~= a);
        assert(sections_of(a) + sections_of(b) =~= sections_of(a));
    } else {
        lemma_sections_are_independent(a, b.drop_last());
        assert((a + b).drop_last() =~= a + b.drop_last());
        assert((a + b).last() == b.last());
        match section_of(b.last()) {
            Some(s) => {
                assert(sections_of(a) + sections_of(b.drop_last()).push(s) =~= (sections_of(a)
                    + sections_of(b.drop_last())).push(s));
            },
            None => {},
        }
    }
}

/// A section without `{` or without `}` gives nothing, and neither does
/// one whose payload holds neither message nor error.
pub proof fn lemma_sections_without_payload(section: Seq<char>)
    ensures
        find_from(section, seq!['{'], 0) is None ==> section_of(section) is None,
        last_index_of(section, '}') is None ==> section_of(section) is None,
        payload_of(section) matches Some(p) ==> (response_of(p) is None ==> section_of(section) is None),
{
}

} // verus!
