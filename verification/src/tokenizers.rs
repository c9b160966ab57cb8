//! A thin tokenizer front end: parameter records, the token records handed
//! back to callers, and the projection of an encoding into those records.
//!
//! The tokenizer itself is the `tokenizers` crate. Everything it computes is
//! taken on trust; what this module proves is how its results are turned into
//! the records below.
use vstd::prelude::*;

verus! {

/// One token of an encoded input.
#[derive(Debug)]
pub struct Token {
    pub id: u32,
    pub token: String,
    pub start: u32,
    pub end: u32,
}

/// The mathematical content of a [`Token`].
pub struct TokenView {
    pub id: u32,
    pub token: Seq<char>,
    pub start: u32,
    pub end: u32,
}

impl View for Token {
    type V = TokenView;

    open spec fn view(&self) -> TokenView {
        TokenView { id: self.id, token: self.token@, start: self.start, end: self.end }
    }
}

/// The columns of a batch of encodings, one row per input.
#[derive(Debug)]
pub struct TokenizedBatch {
    pub token_ids: Vec<Vec<u32>>,
    pub attention_mask: Vec<Vec<u32>>,
    pub type_ids: Vec<Vec<u32>>,
}

/// Whether special tokens are added while encoding.
#[derive(Clone, Copy, Debug, PartialEq, Eq, Structural)]
pub enum SpecialTokens {
    Yes,
    No,
}

impl SpecialTokens {
    /// The choice as a flag: `Yes` is `true`.
    pub open spec fn flag(self) -> bool {
        self is Yes
    }
}

impl vstd::std_specs::convert::FromSpecImpl<SpecialTokens> for bool {
    open spec fn obeys_from_spec() -> bool {
        true
    }

    open spec fn from_spec(value: SpecialTokens) -> bool {
        value.flag()
    }
}

impl From<SpecialTokens> for bool {
    fn from(value: SpecialTokens) -> (b: bool) {
        match value {
            SpecialTokens::Yes => true,
            SpecialTokens::No => false,
        }
    }
}

/// How a batch is padded.
#[derive(Debug)]
pub struct PaddingParams {
    pub strategy: PaddingStrategy,
    pub direction: PaddingDirection,
    pub pad_to_multiple_of: Option<u32>,
    pub pad_id: u32,
    pub pad_type_id: u32,
    pub pad_token: String,
}

/// How far a batch is padded.
#[derive(Clone, Copy, Debug, PartialEq, Eq, Structural)]
pub enum PaddingStrategy {
    BatchLongest,
    Fixed(u32),
}

/// On which side padding is added.
#[derive(Clone, Copy, Debug, PartialEq, Eq, Structural)]
pub enum PaddingDirection {
    Left,
    Right,
}

/// How an over-long input is cut.
#[derive(Clone, Copy, Debug, PartialEq, Eq, Structural)]
pub struct TruncationParams {
    pub direction: TruncationDirection,
    pub max_length: u32,
    pub strategy: TruncationStrategy,
    pub stride: u32,
}

/// On which side an input is cut.
#[derive(Clone, Copy, Debug, PartialEq, Eq, Structural)]
pub enum TruncationDirection {
    Left,
    Right,
}

/// Which of two sequences is cut.
#[derive(Clone, Copy, Debug, PartialEq, Eq, Structural)]
pub enum TruncationStrategy {
    LongestFirst,
    OnlyFirst,
    OnlySecond,
}

/// Why a tokenizer could not be made or used.
#[derive(Clone, Copy, Debug, PartialEq, Eq, Structural)]
pub enum TokenizeError {
    TokenizerCreationFailed,
    InputEncodingFailed,
    InvalidTruncationParams,
}

impl TokenizeError {
    /// The text shown for each error.
    pub open spec fn text(self) -> Seq<char> {
        match self {
            TokenizeError::TokenizerCreationFailed => "Tokenizer creation failed"@,
            TokenizeError::InputEncodingFailed => "Input encoding failed"@,
            TokenizeError::InvalidTruncationParams => "Invalid truncation params"@,
        }
    }

    /// The text shown for the error.
    pub fn message(&self) -> (s: String)
        ensures
            s@ == self.text(),
    {
        match self {
            TokenizeError::TokenizerCreationFailed => "Tokenizer creation failed".to_owned(),
            TokenizeError::InputEncodingFailed => "Input encoding failed".to_owned(),
            TokenizeError::InvalidTruncationParams => "Invalid truncation params".to_owned(),
        }
    }
}

/// The columns of one encoding, as plain values.
#[derive(Debug)]
pub struct Encoded {
    pub tokens: Vec<String>,
    pub ids: Vec<u32>,
    pub offsets: Vec<(usize, usize)>,
    pub attention_mask: Vec<u32>,
    pub type_ids: Vec<u32>,
}

/// The least of three lengths.
pub open spec fn least_of(a: nat, b: nat, c: nat) -> nat {
    if a <= b && a <= c {
        a
    } else if b <= c {
        b
    } else {
        c
    }
}

impl Encoded {
    /// How many tokens the encoding yields: its columns are walked in step,
    /// so the shortest one decides.
    pub open spec fn token_count(&self) -> nat {
        least_of(self.tokens@.len(), self.ids@.len(), self.offsets@.len())
    }

    /// The token at position `i`. Offsets are cut to 32 bits.
    pub open spec fn token_at(&self, i: int) -> TokenView {
        TokenView {
            id: self.ids@[i],
            token: self.tokens@[i]@,
            start: self.offsets@[i].0 as u32,
            end: self.offsets@[i].1 as u32,
        }
    }

    /// The tokens of the encoding, in order.
    pub open spec fn token_views(&self) -> Seq<TokenView> {
        Seq::new(self.token_count(), |i: int| self.token_at(i))
    }

    /// Joins the token, id and offset columns into token records.
    pub fn tokens(&self) -> (out: Vec<Token>)
        ensures
            token_views_of(out@) == self.token_views(),
    {
        let mut n: usize = self.tokens.len();
        if self.ids.len() < n {
            n = self.ids.len();
        }
        if self.offsets.len() < n {
            n = self.offsets.len();
        }
        let mut out: Vec<Token> = Vec::new();
        let mut i: usize = 0;
        while i < n
            invariant
                i <= n,
                n == self.token_count(),
                out@.len() == i,
                forall|k: int| 0 <= k < i ==> (#[trigger] out@[k])@ == self.token_at(k),
            decreases n - i,
        {
            let span = self.offsets[i];
            out.push(
                Token {
                    id: self.ids[i],
                    token: self.tokens[i].clone(),
                    start: span.0 as u32,
                    end: span.1 as u32,
                },
            );
            i += 1;
        }
        assert(token_views_of(out@) =~= self.token_views());
        out
    }
}

/// The views of a run of tokens.
pub open spec fn token_views_of(tokens: Seq<Token>) -> Seq<TokenView> {
    tokens.map_values(|t: Token| t@)
}

/// The id, attention-mask and type-id columns of a batch, row by row.
pub open spec fn batch_columns(batch: Seq<Encoded>) -> (Seq<Seq<u32>>, Seq<Seq<u32>>, Seq<Seq<u32>>) {
    (
        batch.map_values(|e: Encoded| e.ids@),
        batch.map_values(|e: Encoded| e.attention_mask@),
        batch.map_values(|e: Encoded| e.type_ids@),
    )
}

/// The rows of a table of numbers.
pub open spec fn rows_of(table: Seq<Vec<u32>>) -> Seq<Seq<u32>> {
    table.map_values(|row: Vec<u32>| row@)
}

/// Gathers the columns of a batch of encodings.
pub fn batch_of(encodings: &Vec<Encoded>) -> (batch: TokenizedBatch)
    ensures
        (rows_of(batch.token_ids@), rows_of(batch.attention_mask@), rows_of(batch.type_ids@))
            == batch_columns(encodings@),
{
    let mut token_ids: Vec<Vec<u32>> = Vec::new();
    let mut attention_mask: Vec<Vec<u32>> = Vec::new();
    let mut type_ids: Vec<Vec<u32>> = Vec::new();
    let mut i: usize = 0;
    while i < encodings.len()
        invariant
            i <= encodings.len(),
            token_ids@.len() == i,
            attention_mask@.len() == i,
            type_ids@.len() == i,
            forall|k: int| 0 <= k < i ==> (#[trigger] token_ids@[k])@ == encodings@[k].ids@,
            forall|k: int|
                0 <= k < i ==> (#[trigger] attention_mask@[k])@ == encodings@[k].attention_mask@,
            forall|k: int| 0 <= k < i ==> (#[trigger] type_ids@[k])@ == encodings@[k].type_ids@,
        decreases encodings.len() - i,
    {
        token_ids.push(encodings[i].ids.clone());
        attention_mask.push(encodings[i].attention_mask.clone());
        type_ids.push(encodings[i].type_ids.clone());
        i += 1;
    }
    assert(rows_of(token_ids@) =~= batch_columns(encodings@).0);
    assert(rows_of(attention_mask@) =~= batch_columns(encodings@).1);
    assert(rows_of(type_ids@) =~= batch_columns(encodings@).2);
    TokenizedBatch { token_ids, attention_mask, type_ids }
}

/// `tokenizers::Tokenizer`. Nothing inside it is seen here.
#[verifier::external_type_specification]
#[verifier::external_body]
pub struct ExTokenizer(::tokenizers::Tokenizer);

/// The tokenizer that a dictionary in JSON describes, if it describes one.
pub uninterp spec fn loaded_tokenizer(dictionary: Seq<char>) -> Option<::tokenizers::Tokenizer>;

/// How many special tokens a tokenizer adds round a single sequence.
pub uninterp spec fn added_token_count(tokenizer: ::tokenizers::Tokenizer) -> nat;

/// The maximum length and the stride of the truncation that a tokenizer
/// holds, where it holds one.
pub uninterp spec fn stored_limits(tokenizer: ::tokenizers::Tokenizer) -> Option<(usize, usize)>;

/// The id that a tokenizer's vocabulary gives a token.
pub uninterp spec fn vocabulary_id(tokenizer: ::tokenizers::Tokenizer, token: Seq<char>) -> Option<u32>;

/// The token that a tokenizer's vocabulary holds under an id.
pub uninterp spec fn vocabulary_token(tokenizer: ::tokenizers::Tokenizer, id: u32) -> Option<Seq<char>>;

/// `Tokenizer::from_str`: reads a tokenizer from its JSON description.
/// The result depends on the text alone; a text that does not describe a
/// tokenizer gives `None`.
#[verifier::external_body]
fn load_tokenizer(dictionary: &str) -> (r: Option<::tokenizers::Tokenizer>)
    ensures
        r == loaded_tokenizer(dictionary@),
{
    dictionary.parse::<::tokenizers::Tokenizer>().ok()
}

/// `PostProcessor::added_tokens` on the tokenizer's post-processor, where it
/// has one: the number of special tokens it adds (`pair` says whether round
/// a pair of sequences or a single one).
#[verifier::external_body]
fn count_added_tokens(tokenizer: &::tokenizers::Tokenizer, pair: bool) -> (n: Option<usize>)
    ensures
        !pair ==> n.unwrap_or(0) == added_token_count(*tokenizer),
{
    tokenizer.get_post_processor().map(|p| ::tokenizers::PostProcessor::added_tokens(p, pair))
}

/// `Tokenizer::get_truncation`, with the fields `max_length` and `stride`
/// copied.
#[verifier::external_body]
fn read_limits(tokenizer: &::tokenizers::Tokenizer) -> (r: Option<(usize, usize)>)
    ensures
        r == stored_limits(*tokenizer),
{
    tokenizer.get_truncation().map(|p| (p.max_length, p.stride))
}

/// `Tokenizer::with_padding`: stores the padding parameters. The special
/// tokens, the truncation and the vocabulary stay as they are.
#[verifier::external_body]
fn apply_padding(tokenizer: &mut ::tokenizers::Tokenizer, padding: PaddingParams)
    ensures
        added_token_count(*final(tokenizer)) == added_token_count(*old(tokenizer)),
        stored_limits(*final(tokenizer)) == stored_limits(*old(tokenizer)),
        forall|t: Seq<char>| vocabulary_id(*final(tokenizer), t) == vocabulary_id(*old(tokenizer), t),
        forall|i: u32| vocabulary_token(*final(tokenizer), i) == vocabulary_token(*old(tokenizer), i),
{
    tokenizer.with_padding(Some(::tokenizers::PaddingParams {
        strategy: match padding.strategy {
            PaddingStrategy::BatchLongest => ::tokenizers::PaddingStrategy::BatchLongest,
            PaddingStrategy::Fixed(n) => ::tokenizers::PaddingStrategy::Fixed(n as usize),
        },
        direction: match padding.direction {
            PaddingDirection::Left => ::tokenizers::PaddingDirection::Left,
            PaddingDirection::Right => ::tokenizers::PaddingDirection::Right,
        },
        pad_to_multiple_of: padding.pad_to_multiple_of.map(|n| n as usize),
        pad_id: padding.pad_id,
        pad_type_id: padding.pad_type_id,
        pad_token: padding.pad_token,
    }));
}

/// `Tokenizer::with_truncation`: stores the truncation parameters unless the
/// stride exceeds what is left of the maximum length once the special tokens
/// are taken off; it says whether it stored them, and where it did not, the
/// truncation stays as it was. The subtraction there is unchecked, so the
/// maximum length must cover the special tokens.
#[verifier::external_body]
fn apply_truncation(tokenizer: &mut ::tokenizers::Tokenizer, truncation: TruncationParams) -> (stored: bool)
    requires
        added_token_count(*old(tokenizer)) <= truncation.max_length,
    ensures
        stored == (truncation.stride <= truncation.max_length - added_token_count(*old(tokenizer))),
        stored_limits(*final(tokenizer)) == (if stored {
            Some((truncation.max_length as usize, truncation.stride as usize))
        } else {
            stored_limits(*old(tokenizer))
        }),
        added_token_count(*final(tokenizer)) == added_token_count(*old(tokenizer)),
        forall|t: Seq<char>| vocabulary_id(*final(tokenizer), t) == vocabulary_id(*old(tokenizer), t),
        forall|i: u32| vocabulary_token(*final(tokenizer), i) == vocabulary_token(*old(tokenizer), i),
{
    tokenizer.with_truncation(Some(::tokenizers::TruncationParams {
        direction: match truncation.direction {
            TruncationDirection::Left => ::tokenizers::TruncationDirection::Left,
            TruncationDirection::Right => ::tokenizers::TruncationDirection::Right,
        },
        max_length: truncation.max_length as usize,
        strategy: match truncation.strategy {
            TruncationStrategy::LongestFirst => ::tokenizers::TruncationStrategy::LongestFirst,
            TruncationStrategy::OnlyFirst => ::tokenizers::TruncationStrategy::OnlyFirst,
            TruncationStrategy::OnlySecond => ::tokenizers::TruncationStrategy::OnlySecond,
        },
        stride: truncation.stride as usize,
    })).is_ok()
}

/// Whether a truncation can cut every encoding: the special tokens fit
/// within the maximum length, and the stride is less than the length that is
/// cut to, with or without the special tokens taken off. A length of zero
/// needs no stride.
pub open spec fn limits_are_safe(max_length: nat, stride: nat, added: nat) -> bool {
    &&& added <= max_length
    &&& (max_length == added || stride < max_length - added)
    &&& (max_length == 0 || stride < max_length)
}

/// Whether a tokenizer can cut every encoding with the truncation that it
/// holds.
pub open spec fn encodes_safely(tokenizer: ::tokenizers::Tokenizer) -> bool {
    match stored_limits(tokenizer) {
        Some((max_length, stride)) => limits_are_safe(
            max_length as nat,
            stride as nat,
            added_token_count(tokenizer),
        ),
        None => true,
    }
}

/// `Tokenizer::encode` on one text, with the columns of the encoding copied
/// out. A model may sample while it encodes, so nothing is promised of the
/// result. Where the encoding is longer than the maximum length,
/// `Encoding::truncate` asserts that the stride is less than the length it
/// cuts to, and the special tokens are taken off the maximum length
/// unchecked: the truncation must be safe.
#[verifier::external_body]
fn encode_text(tokenizer: &::tokenizers::Tokenizer, input: &str, special: bool) -> (r: Option<Encoded>)
    requires
        encodes_safely(*tokenizer),
{
    tokenizer.encode(input, special).ok().map(|e| Encoded {
        tokens: e.get_tokens().to_vec(),
        ids: e.get_ids().to_vec(),
        offsets: e.get_offsets().to_vec(),
        attention_mask: e.get_attention_mask().to_vec(),
        type_ids: e.get_type_ids().to_vec(),
    })
}

/// `Tokenizer::encode_batch` on a list of texts, with the columns of each
/// encoding copied out. It encodes every text or fails as a whole, so a
/// result has one encoding for each input. Each text is encoded as
/// `Tokenizer::encode` does, so the truncation must be safe.
#[verifier::external_body]
fn encode_texts(tokenizer: &::tokenizers::Tokenizer, input: Vec<String>, special: bool) -> (r: Option<Vec<Encoded>>)
    requires
        encodes_safely(*tokenizer),
    ensures
        r matches Some(batch) ==> batch@.len() == input@.len(),
{
    tokenizer.encode_batch(input, special).ok().map(|batch| batch.iter().map(|e| Encoded {
        tokens: e.get_tokens().to_vec(),
        ids: e.get_ids().to_vec(),
        offsets: e.get_offsets().to_vec(),
        attention_mask: e.get_attention_mask().to_vec(),
        type_ids: e.get_type_ids().to_vec(),
    }).collect())
}

/// `Tokenizer::token_to_id`: looks a token up in the vocabulary.
#[verifier::external_body]
fn lookup_id(tokenizer: &::tokenizers::Tokenizer, token: &str) -> (r: Option<u32>)
    ensures
        r == vocabulary_id(*tokenizer, token@),
{
    tokenizer.token_to_id(token)
}

/// `Tokenizer::id_to_token`: looks an id up in the vocabulary.
#[verifier::external_body]
fn lookup_token(tokenizer: &::tokenizers::Tokenizer, id: u32) -> (r: Option<String>)
    ensures
        r.is_some() == vocabulary_token(*tokenizer, id).is_some(),
        r matches Some(s) ==> vocabulary_token(*tokenizer, id) == Some(s@),
{
    tokenizer.id_to_token(id)
}

/// A tokenizer read from a dictionary, with its padding and truncation set.
/// The truncation that it holds can cut every encoding.
pub struct CustomTokenizerInner {
    tokenizer: ::tokenizers::Tokenizer,
}

impl CustomTokenizerInner {
    #[verifier::type_invariant]
    spec fn cuts_safely(self) -> bool {
        encodes_safely(self.tokenizer)
    }

    /// The tokenizer inside.
    pub closed spec fn model(&self) -> ::tokenizers::Tokenizer {
        self.tokenizer
    }

    /// Whether `truncation` can be set on a tokenizer that adds `added`
    /// special tokens: the special tokens must fit within the maximum
    /// length, and the stride must be less than what is left of it; where
    /// nothing is left, there is no stride.
    pub open spec fn truncation_fits(truncation: TruncationParams, added: nat) -> bool {
        &&& added <= truncation.max_length
        &&& (truncation.stride < truncation.max_length - added || (truncation.max_length == added
            && truncation.stride == 0))
    }

    /// What `new` returns for a dictionary and a choice of truncation. A
    /// truncation that is given must fit; where none is given, the one that
    /// the dictionary states, if it states one, must be safe.
    pub open spec fn creation_outcome(
        dictionary: Seq<char>,
        truncation: Option<TruncationParams>,
    ) -> Option<TokenizeError> {
        match loaded_tokenizer(dictionary) {
            None => Some(TokenizeError::TokenizerCreationFailed),
            Some(t) => {
                let fit = match truncation {
                    Some(p) => Self::truncation_fits(p, added_token_count(t)),
                    None => encodes_safely(t),
                };
                if fit {
                    None
                } else {
                    Some(TokenizeError::InvalidTruncationParams)
                }
            },
        }
    }

    /// Reads a tokenizer from its dictionary and sets padding and truncation
    /// where they are given. A truncation that could not cut every encoding
    /// is refused with `InvalidTruncationParams`, whether it is given or
    /// stated by the dictionary.
    pub fn new(
        dictionary: &str,
        padding: Option<PaddingParams>,
        truncation: Option<TruncationParams>,
    ) -> (r: Result<Self, TokenizeError>)
        ensures
            Self::creation_outcome(dictionary@, truncation) matches Some(e) ==> r == Err::<Self, _>(e),
            Self::creation_outcome(dictionary@, truncation) is None ==> r is Ok,
            r matches Ok(t) ==> {
                let loaded = loaded_tokenizer(dictionary@).unwrap();
                &&& forall|s: Seq<char>| vocabulary_id(t.model(), s) == vocabulary_id(loaded, s)
                &&& forall|i: u32| vocabulary_token(t.model(), i) == vocabulary_token(loaded, i)
            },
    {
        let mut tokenizer = match load_tokenizer(dictionary) {
            Some(t) => t,
            None => {
                return Err(TokenizeError::TokenizerCreationFailed);
            },
        };
        if let Some(padding) = padding {
            apply_padding(&mut tokenizer, padding);
        }
        let added: usize = match count_added_tokens(&tokenizer, false) {
            Some(n) => n,
            None => 0,
        };
        if let Some(truncation) = truncation {
            let max_length: usize = truncation.max_length as usize;
            let stride: usize = truncation.stride as usize;
            if added > max_length {
                return Err(TokenizeError::InvalidTruncationParams);
            }
            if !(stride < max_length - added || (max_length == added && stride == 0)) {
                return Err(TokenizeError::InvalidTruncationParams);
            }
            if !apply_truncation(&mut tokenizer, truncation) {
                return Err(TokenizeError::InvalidTruncationParams);
            }
        } else if !limits_fit(read_limits(&tokenizer), added) {
            return Err(TokenizeError::InvalidTruncationParams);
        }
        Ok(CustomTokenizerInner { tokenizer })
    }

    /// Encodes a text and returns its tokens: those that [`Encoded::tokens`]
    /// makes of whatever encoding the tokenizer hands back. An input that it
    /// cannot encode gives `InputEncodingFailed`.
    pub fn tokenize(&self, input: &str, special_tokens: SpecialTokens) -> (r: Result<
        Vec<Token>,
        TokenizeError,
    >)
        ensures
            r matches Err(e) ==> e == TokenizeError::InputEncodingFailed,
    {
        proof { use_type_invariant(self); }
        let outcome = encode_text(&self.tokenizer, input, bool::from(special_tokens));
        tokens_of_outcome(outcome)
    }

    /// Encodes a list of texts and returns the columns of the batch, one row
    /// for each input.
    pub fn tokenize_batch(&self, input: Vec<String>, special_tokens: SpecialTokens) -> (r: Result<
        TokenizedBatch,
        TokenizeError,
    >)
        ensures
            r matches Err(e) ==> e == TokenizeError::InputEncodingFailed,
            r matches Ok(batch) ==> {
                &&& batch.token_ids@.len() == input@.len()
                &&& batch.attention_mask@.len() == input@.len()
                &&& batch.type_ids@.len() == input@.len()
            },
    {
        let ghost rows = input@.len();
        proof {
            use_type_invariant(self);
        }
        match encode_texts(&self.tokenizer, input, bool::from(special_tokens)) {
            Some(encodings) => {
                let batch = batch_of(&encodings);
                proof {
                    assert(rows_of(batch.token_ids@).len() == rows);
                    assert(rows_of(batch.attention_mask@).len() == rows);
                    assert(rows_of(batch.type_ids@).len() == rows);
                }
                Ok(batch)
            },
            None => Err(TokenizeError::InputEncodingFailed),
        }
    }

    /// Encodes a text and returns the ids of its tokens.
    pub fn get_ids(&self, input: &str, special_tokens: SpecialTokens) -> (r: Result<
        Vec<u32>,
        TokenizeError,
    >)
        ensures
            r matches Err(e) ==> e == TokenizeError::InputEncodingFailed,
    {
        proof { use_type_invariant(self); }
        let outcome = encode_text(&self.tokenizer, input, bool::from(special_tokens));
        ids_of_outcome(outcome)
    }

    /// Encodes a text and returns the text of its tokens.
    pub fn get_tokens(&self, input: &str, special_tokens: SpecialTokens) -> (r: Result<
        Vec<String>,
        TokenizeError,
    >)
        ensures
            r matches Err(e) ==> e == TokenizeError::InputEncodingFailed,
    {
        proof { use_type_invariant(self); }
        let outcome = encode_text(&self.tokenizer, input, bool::from(special_tokens));
        texts_of_outcome(outcome)
    }

    /// The id of a token in the vocabulary.
    pub fn token_to_id(&self, token: &str) -> (r: Option<u32>)
        ensures
            r == vocabulary_id(self.model(), token@),
    {
        lookup_id(&self.tokenizer, token)
    }

    /// The token that the vocabulary holds under an id.
    pub fn id_to_token(&self, id: u32) -> (r: Option<String>)
        ensures
            r.is_some() == vocabulary_token(self.model(), id).is_some(),
            r matches Some(s) ==> vocabulary_token(self.model(), id) == Some(s@),
    {
        lookup_token(&self.tokenizer, id)
    }
}

/// Whether the truncation that a tokenizer holds, if it holds one, can cut
/// every encoding, given the number of special tokens that the tokenizer
/// adds.
pub fn limits_fit(limits: Option<(usize, usize)>, added: usize) -> (fit: bool)
    ensures
        fit == match limits {
            Some((max_length, stride)) => limits_are_safe(
                max_length as nat,
                stride as nat,
                added as nat,
            ),
            None => true,
        },
{
    match limits {
        Some((max_length, stride)) => added <= max_length && (max_length == added || stride
            < max_length - added) && (max_length == 0 || stride < max_length),
        None => true,
    }
}

/// What `tokenize` returns for what the tokenizer handed back: the tokens
/// of the encoding, or `InputEncodingFailed` where it handed back none.
pub fn tokens_of_outcome(outcome: Option<Encoded>) -> (r: Result<Vec<Token>, TokenizeError>)
    ensures
        match outcome {
            Some(encoding) => r is Ok && token_views_of(r.unwrap()@) == encoding.token_views(),
            None => r == Err::<Vec<Token>, TokenizeError>(TokenizeError::InputEncodingFailed),
        },
{
    match outcome {
        Some(encoding) => Ok(encoding.tokens()),
        None => Err(TokenizeError::InputEncodingFailed),
    }
}

/// What `get_ids` returns for what the tokenizer handed back: the id
/// column of the encoding, or `InputEncodingFailed` where it handed back
/// none.
pub fn ids_of_outcome(outcome: Option<Encoded>) -> (r: Result<Vec<u32>, TokenizeError>)
    ensures
        match outcome {
            Some(encoding) => r == Ok::<Vec<u32>, TokenizeError>(encoding.ids),
            None => r == Err::<Vec<u32>, TokenizeError>(TokenizeError::InputEncodingFailed),
        },
{
    match outcome {
        Some(encoding) => Ok(encoding.ids),
        None => Err(TokenizeError::InputEncodingFailed),
    }
}

/// What `get_tokens` returns for what the tokenizer handed back: the token
/// column of the encoding, or `InputEncodingFailed` where it handed back
/// none.
pub fn texts_of_outcome(outcome: Option<Encoded>) -> (r: Result<Vec<String>, TokenizeError>)
    ensures
        match outcome {
            Some(encoding) => r == Ok::<Vec<String>, TokenizeError>(encoding.tokens),
            None => r == Err::<Vec<String>, TokenizeError>(TokenizeError::InputEncodingFailed),
        },
{
    match outcome {
        Some(encoding) => Ok(encoding.tokens),
        None => Err(TokenizeError::InputEncodingFailed),
    }
}

} // verus!
