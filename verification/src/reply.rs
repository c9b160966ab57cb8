//! The line that introduces a quoted reply, such as
//! `On Mon, Jan 1, 2024 at 10:30`.
//!
//! Its shape is `On`, a weekday of three letters and a comma, then day and
//! month in either order (one or two digits, or three letters), an optional
//! comma, a year of four digits, `at`, and a time of day; white space stands
//! between the parts. What counts as white space, as a letter and as a digit
//! is what the classes `\s`, `\w` and `\d` of the `regex` crate match.
use crate::text::{contains_text, find, lemma_find_from, lemma_trimmed_is_a_piece, occurs_at, trimmed};
use vstd::prelude::*;

verus! {

/// `regex::Regex`, a compiled regular expression.
#[verifier::external_type_specification]
#[verifier::external_body]
pub struct ExRegex(regex::Regex);

/// The regular expression that a pattern describes, where it describes one.
pub uninterp spec fn regex_of(pattern: Seq<char>) -> Option<regex::Regex>;

/// Whether a regular expression matches somewhere in a text.
pub uninterp spec fn regex_matches(re: regex::Regex, text: Seq<char>) -> bool;

/// `Regex::new`: the compiled expression, `None` for a pattern that is
/// refused. The result depends on the pattern alone.
#[verifier::external_body]
fn compile(pattern: &str) -> (r: Option<regex::Regex>)
    ensures
        r == regex_of(pattern@),
{
    regex::Regex::new(pattern).ok()
}

/// `Regex::is_match` on the text that is the one character `c`.
#[verifier::external_body]
fn matches_char(re: &regex::Regex, c: char) -> (r: bool)
    ensures
        r == regex_matches(*re, seq![c]),
{
    re.is_match(c.encode_utf8(&mut [0; 4]))
}

/// The three classes of characters that the shape speaks of.
#[derive(Clone, Copy, Debug, PartialEq, Eq, Structural)]
pub enum CharClass {
    Space,
    Word,
    Digit,
}

/// The pattern of a class.
pub open spec fn class_pattern(class: CharClass) -> Seq<char> {
    match class {
        CharClass::Space => "\\s"@,
        CharClass::Word => "\\w"@,
        CharClass::Digit => "\\d"@,
    }
}

/// Whether the patterns of all three classes describe a regular
/// expression.
pub open spec fn classes_available() -> bool {
    &&& regex_of(class_pattern(CharClass::Space)) is Some
    &&& regex_of(class_pattern(CharClass::Word)) is Some
    &&& regex_of(class_pattern(CharClass::Digit)) is Some
}

/// Whether a character belongs to a class.
pub open spec fn in_class(class: CharClass, c: char) -> bool {
    match regex_of(class_pattern(class)) {
        Some(re) => regex_matches(re, seq![c]),
        None => false,
    }
}

/// The character `c` stands at position `p`.
pub open spec fn lit(s: Seq<char>, p: int, c: char) -> bool {
    0 <= p < s.len() && s[p] == c
}

/// A character of the class stands at position `p`.
pub open spec fn cls(s: Seq<char>, p: int, class: CharClass) -> bool {
    0 <= p < s.len() && in_class(class, s[p])
}

/// A day or a month of `n` characters stands at position `p`: one or two
/// digits, or three letters.
pub open spec fn token(s: Seq<char>, p: int, n: int) -> bool {
    if n == 1 {
        cls(s, p, CharClass::Digit)
    } else if n == 2 {
        cls(s, p, CharClass::Digit) && cls(s, p + 1, CharClass::Digit)
    } else {
        cls(s, p, CharClass::Word) && cls(s, p + 1, CharClass::Word) && cls(
            s,
            p + 2,
            CharClass::Word,
        )
    }
}

/// A colon and two digits stand at position `p`.
pub open spec fn minutes_at(s: Seq<char>, p: int) -> bool {
    lit(s, p, ':') && cls(s, p + 1, CharClass::Digit) && cls(s, p + 2, CharClass::Digit)
}

/// A time of day stands at position `p`: one or two digits, a colon and
/// two digits.
pub open spec fn time_at(s: Seq<char>, p: int) -> bool {
    ||| cls(s, p, CharClass::Digit) && minutes_at(s, p + 1)
    ||| cls(s, p, CharClass::Digit) && cls(s, p + 1, CharClass::Digit) && minutes_at(s, p + 2)
}

/// White space, a year of four digits, white space, `at`, white space and
/// a time of day stand at position `p`.
pub open spec fn year_and_time_at(s: Seq<char>, p: int) -> bool {
    &&& cls(s, p, CharClass::Space)
    &&& cls(s, p + 1, CharClass::Digit)
    &&& cls(s, p + 2, CharClass::Digit)
    &&& cls(s, p + 3, CharClass::Digit)
    &&& cls(s, p + 4, CharClass::Digit)
    &&& cls(s, p + 5, CharClass::Space)
    &&& lit(s, p + 6, 'a')
    &&& lit(s, p + 7, 't')
    &&& cls(s, p + 8, CharClass::Space)
    &&& time_at(s, p + 9)
}

/// An optional comma and what follows it stand at position `p`.
pub open spec fn after_second_at(s: Seq<char>, p: int) -> bool {
    ||| lit(s, p, ',') && year_and_time_at(s, p + 1)
    ||| year_and_time_at(s, p)
}

/// The second of day and month and what follows it stand at position `p`.
pub open spec fn second_at(s: Seq<char>, p: int) -> bool {
    ||| token(s, p, 1) && after_second_at(s, p + 1)
    ||| token(s, p, 2) && after_second_at(s, p + 2)
    ||| token(s, p, 3) && after_second_at(s, p + 3)
}

/// The first of day and month, white space and what follows stand at
/// position `p`.
pub open spec fn first_at(s: Seq<char>, p: int) -> bool {
    ||| token(s, p, 1) && cls(s, p + 1, CharClass::Space) && second_at(s, p + 2)
    ||| token(s, p, 2) && cls(s, p + 2, CharClass::Space) && second_at(s, p + 3)
    ||| token(s, p, 3) && cls(s, p + 3, CharClass::Space) && second_at(s, p + 4)
}

/// A line that introduces a quoted reply starts at position `i`.
pub open spec fn intro_at(s: Seq<char>, i: int) -> bool {
    &&& lit(s, i, 'O')
    &&& lit(s, i + 1, 'n')
    &&& cls(s, i + 2, CharClass::Space)
    &&& token(s, i + 3, 3)
    &&& lit(s, i + 6, ',')
    &&& cls(s, i + 7, CharClass::Space)
    &&& first_at(s, i + 8)
}

/// The first position from `i` on at which such a line starts.
pub open spec fn first_intro_from(s: Seq<char>, i: int) -> Option<int>
    decreases s.len() - i,
{
    if i < 0 || i >= s.len() {
        None
    } else if intro_at(s, i) {
        Some(i)
    } else {
        first_intro_from(s, i + 1)
    }
}

/// The first position at which such a line starts.
pub open spec fn first_intro(s: Seq<char>) -> Option<int> {
    first_intro_from(s, 0)
}

/// `first_intro_from` gives the least position from `i` on at which such a
/// line starts.
pub proof fn lemma_first_intro_from(s: Seq<char>, i: int)
    requires
        0 <= i,
    ensures
        match first_intro_from(s, i) {
            Some(k) => i <= k < s.len() && intro_at(s, k) && forall|j: int|
                i <= j < k ==> !intro_at(s, j),
            None => forall|j: int| i <= j ==> !intro_at(s, j),
        },
    decreases s.len() - i,
{
    if i < s.len() && !intro_at(s, i) {
        lemma_first_intro_from(s, i + 1);
    }
}

/// The compiled classes.
pub(crate) struct Classes {
    space: regex::Regex,
    word: regex::Regex,
    digit: regex::Regex,
}

impl Classes {
    /// Each expression is the one that the pattern of its class describes.
    pub(crate) closed spec fn ready(&self) -> bool {
        &&& regex_of(class_pattern(CharClass::Space)) == Some(self.space)
        &&& regex_of(class_pattern(CharClass::Word)) == Some(self.word)
        &&& regex_of(class_pattern(CharClass::Digit)) == Some(self.digit)
    }

    /// Compiles the three classes.
    pub(crate) fn new() -> (r: Option<Classes>)
        ensures
            r is Some == classes_available(),
            r matches Some(c) ==> c.ready(),
    {
        let space = compile("\\s");
        let word = compile("\\w");
        let digit = compile("\\d");
        match (space, word, digit) {
            (Some(space), Some(word), Some(digit)) => Some(Classes { space, word, digit }),
            _ => None,
        }
    }

    /// Whether a character of the class stands at position `p`.
    fn class_at(&self, chars: &Vec<char>, p: usize, class: CharClass) -> (b: bool)
        requires
            self.ready(),
        ensures
            b == cls(chars@, p as int, class),
    {
        if p >= chars.len() {
            return false;
        }
        match class {
            CharClass::Space => matches_char(&self.space, chars[p]),
            CharClass::Word => matches_char(&self.word, chars[p]),
            CharClass::Digit => matches_char(&self.digit, chars[p]),
        }
    }

    fn token_at(&self, chars: &Vec<char>, p: usize, n: usize) -> (b: bool)
        requires
            self.ready(),
            1 <= n <= 3,
            p <= chars.len(),
        ensures
            b == token(chars@, p as int, n as int),
            b ==> p + n <= chars.len(),
    {
        if n == 1 {
            self.class_at(chars, p, CharClass::Digit)
        } else if n == 2 {
            self.class_at(chars, p, CharClass::Digit) && self.class_at(
                chars,
                p + 1,
                CharClass::Digit,
            )
        } else {
            self.class_at(chars, p, CharClass::Word) && self.class_at(chars, p + 1, CharClass::Word)
                && self.class_at(chars, p + 2, CharClass::Word)
        }
    }

    fn minutes(&self, chars: &Vec<char>, p: usize) -> (b: bool)
        requires
            self.ready(),
            p <= chars.len(),
        ensures
            b == minutes_at(chars@, p as int),
    {
        literal_at(chars, p, ':') && self.class_at(chars, p + 1, CharClass::Digit)
            && self.class_at(chars, p + 2, CharClass::Digit)
    }

    fn time(&self, chars: &Vec<char>, p: usize) -> (b: bool)
        requires
            self.ready(),
            p <= chars.len(),
        ensures
            b == time_at(chars@, p as int),
    {
        if !self.class_at(chars, p, CharClass::Digit) {
            return false;
        }
        if self.minutes(chars, p + 1) {
            return true;
        }
        self.class_at(chars, p + 1, CharClass::Digit) && self.minutes(chars, p + 2)
    }

    fn year_and_time(&self, chars: &Vec<char>, p: usize) -> (b: bool)
        requires
            self.ready(),
            p <= chars.len(),
        ensures
            b == year_and_time_at(chars@, p as int),
    {
        self.class_at(chars, p, CharClass::Space) && self.class_at(chars, p + 1, CharClass::Digit)
            && self.class_at(chars, p + 2, CharClass::Digit) && self.class_at(
            chars,
            p + 3,
            CharClass::Digit,
        ) && self.class_at(chars, p + 4, CharClass::Digit) && self.class_at(
            chars,
            p + 5,
            CharClass::Space,
        ) && literal_at(chars, p + 6, 'a') && literal_at(chars, p + 7, 't') && self.class_at(
            chars,
            p + 8,
            CharClass::Space,
        ) && self.time(chars, p + 9)
    }

    fn after_second(&self, chars: &Vec<char>, p: usize) -> (b: bool)
        requires
            self.ready(),
            p <= chars.len(),
        ensures
            b == after_second_at(chars@, p as int),
    {
        if literal_at(chars, p, ',') && self.year_and_time(chars, p + 1) {
            return true;
        }
        self.year_and_time(chars, p)
    }

    fn second(&self, chars: &Vec<char>, p: usize) -> (b: bool)
        requires
            self.ready(),
            p <= chars.len(),
        ensures
            b == second_at(chars@, p as int),
    {
        if self.token_at(chars, p, 1) && self.after_second(chars, p + 1) {
            return true;
        }
        if self.token_at(chars, p, 2) && self.after_second(chars, p + 2) {
            return true;
        }
        self.token_at(chars, p, 3) && self.after_second(chars, p + 3)
    }

    fn first(&self, chars: &Vec<char>, p: usize) -> (b: bool)
        requires
            self.ready(),
            p <= chars.len(),
        ensures
            b == first_at(chars@, p as int),
    {
        if self.token_at(chars, p, 1) && self.class_at(chars, p + 1, CharClass::Space)
            && self.second(chars, p + 2) {
            return true;
        }
        if self.token_at(chars, p, 2) && self.class_at(chars, p + 2, CharClass::Space)
            && self.second(chars, p + 3) {
            return true;
        }
        self.token_at(chars, p, 3) && self.class_at(chars, p + 3, CharClass::Space) && self.second(
            chars,
            p + 4,
        )
    }

    /// Whether a line that introduces a quoted reply starts at position
    /// `i`.
    fn intro(&self, chars: &Vec<char>, i: usize) -> (b: bool)
        requires
            self.ready(),
            i <= chars.len(),
        ensures
            b == intro_at(chars@, i as int),
    {
        literal_at(chars, i, 'O') && literal_at(chars, i + 1, 'n') && self.class_at(
            chars,
            i + 2,
            CharClass::Space,
        ) && self.token_at(chars, i + 3, 3) && literal_at(chars, i + 6, ',') && self.class_at(
            chars,
            i + 7,
            CharClass::Space,
        ) && self.first(chars, i + 8)
    }

    /// The first position at which a line that introduces a quoted reply
    /// starts.
    pub(crate) fn find_intro(&self, chars: &Vec<char>) -> (r: Option<usize>)
        requires
            self.ready(),
        ensures
            match r {
                Some(i) => first_intro(chars@) == Some(i as int),
                None => first_intro(chars@) is None,
            },
    {
        let mut i: usize = 0;
        while i < chars.len()
            invariant
                i <= chars.len(),
                self.ready(),
                first_intro(chars@) == first_intro_from(chars@, i as int),
            decreases chars.len() - i,
        {
            if self.intro(chars, i) {
                return Some(i);
            }
            i += 1;
        }
        None
    }
}

/// Whether the character `c` stands at position `p`.
fn literal_at(chars: &Vec<char>, p: usize, c: char) -> (b: bool)
    ensures
        b == lit(chars@, p as int, c),
{
    p < chars.len() && chars[p] == c
}

/// Whether the two letters that every such line starts with stand
/// somewhere in the text. Where they stand nowhere, no such line starts
/// anywhere.
pub(crate) fn has_opening(chars: &Vec<char>) -> (b: bool)
    ensures
        b == contains_text(chars@, opening()),
        !b ==> first_intro(chars@) is None,
{
    let mut letters: Vec<char> = Vec::new();
    letters.push('O');
    letters.push('n');
    proof {
        assert(letters@ =~= opening());
        lemma_find_from(chars@, opening(), 0);
        lemma_first_intro_from(chars@, 0);
        assert forall|j: int| intro_at(chars@, j) implies occurs_at(chars@, opening(), j) by {
            assert(chars@.subrange(j, j + 2) =~= opening());
        }
    }
    find(chars, &letters, 0).is_some()
}

/// The two letters that every line that introduces a quoted reply starts
/// with.
pub open spec fn opening() -> Seq<char> {
    seq!['O', 'n']
}

/// A line that starts inside a piece of a text starts in the text too, and
/// it starts before the end of the piece.
pub proof fn lemma_intro_in_a_piece(s: Seq<char>, from: int, to: int, j: int)
    requires
        0 <= from <= to <= s.len(),
        intro_at(s.subrange(from, to), j),
    ensures
        intro_at(s, from + j),
        from + j < to,
{
    let t = s.subrange(from, to);
    assert forall|p: int, c: char| lit(t, p, c) implies lit(s, from + p, c) by {
        assert(t[p] == s[from + p]);
    }
    assert forall|p: int, k: CharClass| cls(t, p, k) implies cls(s, from + p, k) by {
        assert(t[p] == s[from + p]);
    }
    lemma_first_in_a_piece(s, t, from, j + 8);
}

proof fn lemma_time_in_a_piece(s: Seq<char>, t: Seq<char>, from: int, p: int)
    requires
        forall|q: int, c: char| lit(t, q, c) ==> lit(s, from + q, c),
        forall|q: int, k: CharClass| cls(t, q, k) ==> cls(s, from + q, k),
        year_and_time_at(t, p),
    ensures
        year_and_time_at(s, from + p),
{
}

proof fn lemma_second_in_a_piece(s: Seq<char>, t: Seq<char>, from: int, p: int)
    requires
        forall|q: int, c: char| lit(t, q, c) ==> lit(s, from + q, c),
        forall|q: int, k: CharClass| cls(t, q, k) ==> cls(s, from + q, k),
        second_at(t, p),
    ensures
        second_at(s, from + p),
{
    if token(t, p, 1) && after_second_at(t, p + 1) {
        lemma_after_second_in_a_piece(s, t, from, p + 1);
    } else if token(t, p, 2) && after_second_at(t, p + 2) {
        lemma_after_second_in_a_piece(s, t, from, p + 2);
    } else {
        lemma_after_second_in_a_piece(s, t, from, p + 3);
    }
}

proof fn lemma_after_second_in_a_piece(s: Seq<char>, t: Seq<char>, from: int, p: int)
    requires
        forall|q: int, c: char| lit(t, q, c) ==> lit(s, from + q, c),
        forall|q: int, k: CharClass| cls(t, q, k) ==> cls(s, from + q, k),
        after_second_at(t, p),
    ensures
        after_second_at(s, from + p),
{
    if lit(t, p, ',') && year_and_time_at(t, p + 1) {
        lemma_time_in_a_piece(s, t, from, p + 1);
    } else {
        lemma_time_in_a_piece(s, t, from, p);
    }
}

proof fn lemma_first_in_a_piece(s: Seq<char>, t: Seq<char>, from: int, p: int)
    requires
        forall|q: int, c: char| lit(t, q, c) ==> lit(s, from + q, c),
        forall|q: int, k: CharClass| cls(t, q, k) ==> cls(s, from + q, k),
        first_at(t, p),
    ensures
        first_at(s, from + p),
{
    if token(t, p, 1) && cls(t, p + 1, CharClass::Space) && second_at(t, p + 2) {
        lemma_second_in_a_piece(s, t, from, p + 2);
    } else if token(t, p, 2) && cls(t, p + 2, CharClass::Space) && second_at(t, p + 3) {
        lemma_second_in_a_piece(s, t, from, p + 3);
    } else {
        lemma_second_in_a_piece(s, t, from, p + 4);
    }
}

/// The visible part of a text body: what stands before the first line that
/// introduces a quoted reply, trimmed; `None` where there is no such line.
pub open spec fn visible_text_of(body: Seq<char>) -> Option<Seq<char>> {
    if !classes_available() {
        None
    } else {
        match first_intro(body) {
            Some(i) => Some(trimmed(body.subrange(0, i))),
            None => None,
        }
    }
}

/// The visible part of a text has no visible part of its own: no line that
/// introduces a quoted reply is left in it.
pub proof fn lemma_visible_text_is_idempotent(body: Seq<char>)
    ensures
        visible_text_of(body) matches Some(visible) ==> visible_text_of(visible) is None,
{
    if let Some(visible) = visible_text_of(body) {
        lemma_first_intro_from(body, 0);
        let i = first_intro(body).unwrap();
        let head = body.subrange(0, i);
        lemma_trimmed_is_a_piece(head);
        let start = head.len() - crate::text::skip_leading(head, crate::text::white()).len();
        let end = start + visible.len();
        assert(visible == body.subrange(start, end)) by {
            assert(head.subrange(start, end) =~= body.subrange(start, end));
        }
        lemma_first_intro_from(visible, 0);
        if let Some(j) = first_intro(visible) {
            lemma_intro_in_a_piece(body, start, end, j);
            assert(false);
        }
    }
}

/// A text without a line that introduces a quoted reply has no visible
/// part of its own: all of it is visible.
pub proof fn lemma_no_intro_no_visible_part(body: Seq<char>)
    requires
        first_intro(body) is None,
    ensures
        visible_text_of(body) is None,
{
}

} // verus!
