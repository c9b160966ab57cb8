//! Text as sequences of characters: conversions, trimming, searching and
//! splitting.
//!
//! Every function here is stated over `Seq<char>`, the view of a string.
//! The executable versions work on `Vec<char>`, where a position is found in
//! constant time.
use vstd::prelude::*;

verus! {

/// `String::push` appends one character.
pub assume_specification[ String::push ](s: &mut String, c: char)
    ensures
        final(s)@ == old(s)@.push(c),
;

/// The characters of a string, in order.
pub fn chars_of(s: &str) -> (v: Vec<char>)
    ensures
        v@ == s@,
{
    let mut v: Vec<char> = Vec::new();
    for c in it: s.chars()
        invariant
            v@ == it.seq().take(it.index()),
            it.seq() == s@,
    {
        v.push(c);
    }
    v
}

/// The string made of the given characters.
pub fn string_of(chars: &Vec<char>) -> (s: String)
    ensures
        s@ == chars@,
{
    let mut s = String::new();
    let mut i: usize = 0;
    while i < chars.len()
        invariant
            i <= chars.len(),
            s@ == chars@.take(i as int),
        decreases chars.len() - i,
    {
        s.push(chars[i]);
        i += 1;
    }
    s
}

/// The characters from `start` up to `end`.
pub fn slice_of(chars: &Vec<char>, start: usize, end: usize) -> (out: Vec<char>)
    requires
        start <= end <= chars.len(),
    ensures
        out@ == chars@.subrange(start as int, end as int),
{
    let mut out: Vec<char> = Vec::new();
    let mut i: usize = start;
    while i < end
        invariant
            start <= i <= end <= chars.len(),
            out@ == chars@.subrange(start as int, i as int),
        decreases end - i,
    {
        out.push(chars[i]);
        i += 1;
    }
    out
}

/// Whether two runs of characters are the same.
pub fn same_chars(a: &Vec<char>, b: &Vec<char>) -> (same: bool)
    ensures
        same == (a@ == b@),
{
    if a.len() != b.len() {
        return false;
    }
    let mut i: usize = 0;
    while i < a.len()
        invariant
            i <= a.len(),
            a.len() == b.len(),
            a@.take(i as int) == b@.take(i as int),
        decreases a.len() - i,
    {
        if a[i] != b[i] {
            return false;
        }
        assert(a@.take(i + 1) == a@.take(i as int).push(a@[i as int]));
        assert(b@.take(i + 1) == b@.take(i as int).push(b@[i as int]));
        i += 1;
    }
    assert(a@.take(a.len() as int) == a@);
    assert(b@.take(b.len() as int) == b@);
    true
}

/// The characters with the Unicode property `White_Space`.
pub open spec fn is_white_space(c: char) -> bool {
    ||| '\u{9}' <= c <= '\u{d}'
    ||| c == ' '
    ||| c == '\u{85}'
    ||| c == '\u{a0}'
    ||| c == '\u{1680}'
    ||| '\u{2000}' <= c <= '\u{200a}'
    ||| c == '\u{2028}'
    ||| c == '\u{2029}'
    ||| c == '\u{202f}'
    ||| c == '\u{205f}'
    ||| c == '\u{3000}'
}

/// Whether a character is white space.
pub fn white_space(c: char) -> (b: bool)
    ensures
        b == is_white_space(c),
{
    ('\u{9}' <= c && c <= '\u{d}') || c == ' ' || c == '\u{85}' || c == '\u{a0}' || c
        == '\u{1680}' || ('\u{2000}' <= c && c <= '\u{200a}') || c == '\u{2028}' || c
        == '\u{2029}' || c == '\u{202f}' || c == '\u{205f}' || c == '\u{3000}'
}

/// `s` without its longest prefix of characters that satisfy `p`.
pub open spec fn skip_leading(s: Seq<char>, p: spec_fn(char) -> bool) -> Seq<char>
    decreases s.len(),
{
    if s.len() > 0 && p(s[0]) {
        skip_leading(s.drop_first(), p)
    } else {
        s
    }
}

/// `s` without its longest suffix of characters that satisfy `p`.
pub open spec fn skip_trailing(s: Seq<char>, p: spec_fn(char) -> bool) -> Seq<char>
    decreases s.len(),
{
    if s.len() > 0 && p(s.last()) {
        skip_trailing(s.drop_last(), p)
    } else {
        s
    }
}

/// The test for white space, as a predicate.
pub open spec fn white() -> spec_fn(char) -> bool {
    |c: char| is_white_space(c)
}

/// The test for one character, as a predicate.
pub open spec fn exactly(c: char) -> spec_fn(char) -> bool {
    |x: char| x == c
}

/// `s` without the white space at its two ends.
pub open spec fn trimmed(s: Seq<char>) -> Seq<char> {
    skip_trailing(skip_leading(s, white()), white())
}

/// `s` without the copies of `c` that it starts with.
pub open spec fn without_leading(s: Seq<char>, c: char) -> Seq<char> {
    skip_leading(s, exactly(c))
}

/// `s` without the copies of `c` that it ends with.
pub open spec fn without_trailing(s: Seq<char>, c: char) -> Seq<char> {
    skip_trailing(s, exactly(c))
}

/// Skipping a prefix of matching characters changes nothing of the result.
pub proof fn lemma_skip_leading_step(s: Seq<char>, p: spec_fn(char) -> bool, i: int)
    requires
        0 <= i <= s.len(),
        forall|k: int| 0 <= k < i ==> p(#[trigger] s[k]),
    ensures
        skip_leading(s, p) == skip_leading(s.subrange(i, s.len() as int), p),
    decreases i,
{
    if i == 0 {
        assert(s.subrange(0, s.len() as int) == s);
    } else {
        lemma_skip_leading_step(s, p, i - 1);
        let t = s.subrange(i - 1, s.len() as int);
        assert(t[0] == s[i - 1]);
        assert(t.drop_first() == s.subrange(i, s.len() as int));
    }
}

/// Dropping a suffix of matching characters changes nothing of the result.
pub proof fn lemma_skip_trailing_step(s: Seq<char>, p: spec_fn(char) -> bool, j: int)
    requires
        0 <= j <= s.len(),
        forall|k: int| j <= k < s.len() ==> p(#[trigger] s[k]),
    ensures
        skip_trailing(s, p) == skip_trailing(s.subrange(0, j), p),
    decreases s.len() - j,
{
    if j == s.len() {
        assert(s.subrange(0, j) == s);
    } else {
        lemma_skip_trailing_step(s, p, j + 1);
        let t = s.subrange(0, j + 1);
        assert(t.last() == s[j]);
        assert(t.drop_last() == s.subrange(0, j));
    }
}

/// What is left after skipping a prefix is the end of the text.
pub proof fn lemma_skip_leading_is_suffix(s: Seq<char>, p: spec_fn(char) -> bool)
    ensures
        skip_leading(s, p).len() <= s.len(),
        skip_leading(s, p) == s.subrange(s.len() - skip_leading(s, p).len(), s.len() as int),
    decreases s.len(),
{
    if s.len() > 0 && p(s[0]) {
        let rest = s.drop_first();
        lemma_skip_leading_is_suffix(rest, p);
        let kept = skip_leading(rest, p).len();
        assert(rest.subrange(rest.len() - kept, rest.len() as int) =~= s.subrange(
            s.len() - kept,
            s.len() as int,
        ));
    } else {
        assert(s.subrange(0, s.len() as int) =~= s);
    }
}

/// What is left after dropping a suffix is the start of the text.
pub proof fn lemma_skip_trailing_is_prefix(s: Seq<char>, p: spec_fn(char) -> bool)
    ensures
        skip_trailing(s, p).len() <= s.len(),
        skip_trailing(s, p) == s.subrange(0, skip_trailing(s, p).len() as int),
    decreases s.len(),
{
    if s.len() > 0 && p(s.last()) {
        let rest = s.drop_last();
        lemma_skip_trailing_is_prefix(rest, p);
        let kept = skip_trailing(rest, p).len();
        assert(rest.subrange(0, kept as int) =~= s.subrange(0, kept as int));
    } else {
        assert(s.subrange(0, s.len() as int) =~= s);
    }
}

/// A trimmed text is a piece of the text: it starts where the leading white
/// space ends.
pub proof fn lemma_trimmed_is_a_piece(s: Seq<char>)
    ensures
        ({
            let start = s.len() - skip_leading(s, white()).len();
            &&& 0 <= start <= start + trimmed(s).len() <= s.len()
            &&& trimmed(s) == s.subrange(start, start + trimmed(s).len())
        }),
{
    lemma_skip_leading_is_suffix(s, white());
    let middle = skip_leading(s, white());
    lemma_skip_trailing_is_prefix(middle, white());
    let start = s.len() - middle.len();
    assert(middle.subrange(0, trimmed(s).len() as int) =~= s.subrange(
        start,
        start + trimmed(s).len(),
    ));
}

/// The bounds of `chars` without the white space at its two ends.
fn trim_bounds(chars: &Vec<char>) -> (r: (usize, usize))
    ensures
        r.0 <= r.1 <= chars.len(),
        chars@.subrange(r.0 as int, r.1 as int) == trimmed(chars@),
{
    let ghost ws = white();
    let mut start: usize = 0;
    while start < chars.len() && white_space(chars[start])
        invariant
            start <= chars.len(),
            forall|k: int| 0 <= k < start ==> is_white_space(#[trigger] chars@[k]),
        decreases chars.len() - start,
    {
        start += 1;
    }
    let mut end: usize = chars.len();
    while end > start && white_space(chars[end - 1])
        invariant
            start <= end <= chars.len(),
            forall|k: int| end <= k < chars.len() ==> is_white_space(#[trigger] chars@[k]),
        decreases end,
    {
        end -= 1;
    }
    proof {
        let s = chars@;
        let rest = s.subrange(start as int, s.len() as int);
        assert forall|k: int| 0 <= k < start implies ws(#[trigger] s[k]) by {}
        lemma_skip_leading_step(s, ws, start as int);
        assert(skip_leading(rest, ws) == rest);
        let kept = rest.subrange(0, end - start);
        assert forall|k: int| end - start <= k < rest.len() implies ws(#[trigger] rest[k]) by {
            assert(rest[k] == s[k + start]);
        }
        lemma_skip_trailing_step(rest, ws, end - start);
        assert(skip_trailing(kept, ws) == kept) by {
            if kept.len() > 0 {
                assert(kept.last() == s[end - 1]);
            }
        }
        assert(kept == s.subrange(start as int, end as int));
    }
    (start, end)
}

/// The text without the white space at its two ends.
pub fn trim(chars: &Vec<char>) -> (out: Vec<char>)
    ensures
        out@ == trimmed(chars@),
{
    let (start, end) = trim_bounds(chars);
    slice_of(chars, start, end)
}

/// The text without the copies of `c` at its start.
pub fn strip_leading(chars: &Vec<char>, c: char) -> (out: Vec<char>)
    ensures
        out@ == without_leading(chars@, c),
{
    let ghost p = exactly(c);
    let mut start: usize = 0;
    while start < chars.len() && chars[start] == c
        invariant
            start <= chars.len(),
            forall|k: int| 0 <= k < start ==> #[trigger] chars@[k] == c,
        decreases chars.len() - start,
    {
        start += 1;
    }
    proof {
        assert forall|k: int| 0 <= k < start implies p(#[trigger] chars@[k]) by {}
        lemma_skip_leading_step(chars@, p, start as int);
        let rest = chars@.subrange(start as int, chars@.len() as int);
        assert(skip_leading(rest, p) == rest);
    }
    slice_of(chars, start, chars.len())
}

/// The text without the copies of `c` at its end.
pub fn strip_trailing(chars: &Vec<char>, c: char) -> (out: Vec<char>)
    ensures
        out@ == without_trailing(chars@, c),
{
    let ghost p = exactly(c);
    let mut end: usize = chars.len();
    while end > 0 && chars[end - 1] == c
        invariant
            end <= chars.len(),
            forall|k: int| end <= k < chars.len() ==> #[trigger] chars@[k] == c,
        decreases end,
    {
        end -= 1;
    }
    proof {
        assert forall|k: int| end <= k < chars@.len() implies p(#[trigger] chars@[k]) by {}
        lemma_skip_trailing_step(chars@, p, end as int);
        let kept = chars@.subrange(0, end as int);
        assert(skip_trailing(kept, p) == kept) by {
            if kept.len() > 0 {
                assert(kept.last() == chars@[end - 1]);
            }
        }
    }
    slice_of(chars, 0, end)
}

/// Whether `needle` stands in `s` at position `i`.
pub open spec fn occurs_at(s: Seq<char>, needle: Seq<char>, i: int) -> bool {
    0 <= i && i + needle.len() <= s.len() && s.subrange(i, i + needle.len()) == needle
}

/// The first position at or after `from` where `needle` stands in `s`.
pub open spec fn find_from(s: Seq<char>, needle: Seq<char>, from: int) -> Option<int>
    decreases s.len() - from + 1,
{
    if from < 0 || from + needle.len() > s.len() {
        None
    } else if occurs_at(s, needle, from) {
        Some(from)
    } else {
        find_from(s, needle, from + 1)
    }
}

/// Whether `needle` stands somewhere in `s`.
pub open spec fn contains_text(s: Seq<char>, needle: Seq<char>) -> bool {
    find_from(s, needle, 0) is Some
}

/// `find_from` gives the least position at or after `from` where the needle
/// stands, and `None` only where it stands at none.
pub proof fn lemma_find_from(s: Seq<char>, needle: Seq<char>, from: int)
    requires
        0 <= from,
    ensures
        match find_from(s, needle, from) {
            Some(i) => from <= i && occurs_at(s, needle, i) && forall|j: int|
                from <= j < i ==> !occurs_at(s, needle, j),
            None => forall|j: int| from <= j ==> !occurs_at(s, needle, j),
        },
    decreases s.len() - from + 1,
{
    if from + needle.len() > s.len() {
    } else if occurs_at(s, needle, from) {
    } else {
        lemma_find_from(s, needle, from + 1);
    }
}

/// Whether `needle` stands in `chars` at position `i`.
fn stands_at(chars: &Vec<char>, needle: &Vec<char>, i: usize) -> (b: bool)
    requires
        i + needle.len() <= chars.len(),
    ensures
        b == occurs_at(chars@, needle@, i as int),
{
    let mut k: usize = 0;
    while k < needle.len()
        invariant
            k <= needle.len(),
            i + needle.len() <= chars.len(),
            forall|j: int| 0 <= j < k ==> chars@[i + j] == #[trigger] needle@[j],
        decreases needle.len() - k,
    {
        if chars[i + k] != needle[k] {
            proof {
                let window = chars@.subrange(i as int, i + needle.len());
                assert(window[k as int] == chars@[i + k]);
            }
            return false;
        }
        k += 1;
    }
    assert(chars@.subrange(i as int, i + needle.len()) =~= needle@);
    true
}

/// The first position at or after `from` where `needle` stands in `chars`.
pub fn find(chars: &Vec<char>, needle: &Vec<char>, from: usize) -> (r: Option<usize>)
    ensures
        match r {
            Some(i) => find_from(chars@, needle@, from as int) == Some(i as int),
            None => find_from(chars@, needle@, from as int) is None,
        },
{
    if needle.len() > chars.len() {
        return None;
    }
    let last: usize = chars.len() - needle.len();
    let mut i: usize = from;
    while i <= last
        invariant
            from <= i,
            last + needle.len() == chars.len(),
            find_from(chars@, needle@, from as int) == find_from(chars@, needle@, i as int),
        decreases last - i,
    {
        if stands_at(chars, needle, i) {
            return Some(i);
        }
        if i == last {
            assert(find_from(chars@, needle@, i + 1) is None);
            return None;
        }
        i += 1;
    }
    None
}

/// The first position at or after `from` where the character `c` stands.
pub fn find_char(chars: &Vec<char>, c: char, from: usize) -> (r: Option<usize>)
    ensures
        match r {
            Some(i) => find_from(chars@, seq![c], from as int) == Some(i as int),
            None => find_from(chars@, seq![c], from as int) is None,
        },
{
    let mut i: usize = from;
    while i < chars.len()
        invariant
            from <= i,
            find_from(chars@, seq![c], from as int) == find_from(chars@, seq![c], i as int),
        decreases chars.len() - i,
    {
        if chars[i] == c {
            assert(chars@.subrange(i as int, i + 1) =~= seq![c]);
            return Some(i);
        }
        proof {
            let window = chars@.subrange(i as int, i + 1);
            assert(window[0] == chars@[i as int]);
        }
        i += 1;
    }
    None
}

/// The last position where the character `c` stands in `s`.
pub open spec fn last_index_of(s: Seq<char>, c: char) -> Option<int>
    decreases s.len(),
{
    if s.len() == 0 {
        None
    } else if s.last() == c {
        Some(s.len() - 1)
    } else {
        last_index_of(s.drop_last(), c)
    }
}

/// `last_index_of` gives the greatest position where the character stands.
pub proof fn lemma_last_index_of(s: Seq<char>, c: char)
    ensures
        match last_index_of(s, c) {
            Some(i) => 0 <= i < s.len() && s[i] == c && forall|j: int|
                i < j < s.len() ==> s[j] != c,
            None => forall|j: int| 0 <= j < s.len() ==> s[j] != c,
        },
    decreases s.len(),
{
    if s.len() > 0 && s.last() != c {
        let t = s.drop_last();
        lemma_last_index_of(t, c);
        assert forall|j: int| 0 <= j < t.len() implies t[j] == s[j] by {}
    }
}

/// The last position where the character `c` stands.
pub fn find_last_char(chars: &Vec<char>, c: char) -> (r: Option<usize>)
    ensures
        match r {
            Some(i) => last_index_of(chars@, c) == Some(i as int),
            None => last_index_of(chars@, c) is None,
        },
{
    let mut end: usize = chars.len();
    assert(chars@.take(end as int) == chars@);
    while end > 0
        invariant
            end <= chars.len(),
            last_index_of(chars@, c) == last_index_of(chars@.take(end as int), c),
        decreases end,
    {
        if chars[end - 1] == c {
            return Some(end - 1);
        }
        assert(chars@.take(end as int).drop_last() == chars@.take(end - 1));
        end -= 1;
    }
    None
}

/// The pieces of `s` from position `from` on, cut at each place where `sep`
/// stands; a separator begins where the one before it ended.
pub open spec fn split_from(s: Seq<char>, sep: Seq<char>, from: int) -> Seq<Seq<char>>
    decreases s.len() - from,
{
    match find_from(s, sep, from) {
        Some(i) if from <= i && i + sep.len() <= s.len() && sep.len() > 0 => seq![
            s.subrange(from, i),
        ] + split_from(s, sep, i + sep.len()),
        _ => seq![s.subrange(from, s.len() as int)],
    }
}

/// The pieces of `s` between the places where `sep` stands.
pub open spec fn split_on(s: Seq<char>, sep: Seq<char>) -> Seq<Seq<char>> {
    split_from(s, sep, 0)
}

/// The runs of characters that a table of characters holds.
pub open spec fn rows(table: Seq<Vec<char>>) -> Seq<Seq<char>> {
    table.map_values(|row: Vec<char>| row@)
}

/// The pieces of the text between the places where `sep` stands.
pub fn split(chars: &Vec<char>, sep: &Vec<char>) -> (pieces: Vec<Vec<char>>)
    requires
        sep.len() > 0,
    ensures
        rows(pieces@) == split_on(chars@, sep@),
{
    let mut pieces: Vec<Vec<char>> = Vec::new();
    let mut from: usize = 0;
    loop
        invariant
            sep.len() > 0,
            from <= chars.len(),
            split_on(chars@, sep@) == rows(pieces@) + split_from(chars@, sep@, from as int),
        decreases chars.len() - from,
    {
        proof {
            lemma_find_from(chars@, sep@, from as int);
        }
        match find(chars, sep, from) {
            Some(i) => {
                let ghost before = rows(pieces@);
                pieces.push(slice_of(chars, from, i));
                assert(rows(pieces@) =~= before + seq![chars@.subrange(from as int, i as int)]);
                from = i + sep.len();
            },
            None => {
                let ghost before = rows(pieces@);
                pieces.push(slice_of(chars, from, chars.len()));
                assert(rows(pieces@) =~= before + seq![
                    chars@.subrange(from as int, chars@.len() as int),
                ]);
                return pieces;
            },
        }
    }
}


/// `String::from_utf8`: the text that the bytes encode in UTF-8, and `None`
/// exactly where they are no valid UTF-8.
#[verifier::external_body]
pub(crate) fn utf8_text(bytes: Vec<u8>) -> (r: Option<String>)
    ensures
        r is Some <==> vstd::utf8::valid_utf8(bytes@),
        r matches Some(s) ==> s@ == vstd::utf8::decode_utf8(bytes@),
{
    String::from_utf8(bytes).ok()
}

/// The text that the bytes encode in UTF-8, if they encode one.
pub open spec fn utf8_decoded(bytes: Seq<u8>) -> Option<Seq<char>> {
    if vstd::utf8::valid_utf8(bytes) {
        Some(vstd::utf8::decode_utf8(bytes))
    } else {
        None
    }
}


/// Whether two strings hold the same text.
pub fn same_text(a: &str, b: &str) -> (same: bool)
    ensures
        same == (a@ == b@),
{
    let left = chars_of(a);
    let right = chars_of(b);
    same_chars(&left, &right)
}

} // verus!
