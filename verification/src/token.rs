//! The tokenizer: from the bytes of one read to a sequence of tokens.

use crate::text::{char_is_separator, is_separator};
use vstd::prelude::*;
use vstd::string::{StrSliceExecFns, StringExecFns, StringSliceAdditionalSpecFns};
use vstd::utf8::{decode_utf8, valid_utf8};

verus! {

broadcast use vstd::utf8::encode_utf8_decode_utf8;

/// A lexical unit of a command: one of the three keywords, or literal text.
#[derive(Debug, PartialEq)]
pub enum Token {
    /// The keyword `PING`.
    Ping,
    /// The keyword `GET`.
    Get,
    /// The keyword `SET`.
    Put,
    /// Any other word, as it was written.
    Operand(String),
}

/// What a `Token` stands for, with text as a sequence of characters.
pub enum TokenModel {
    Ping,
    Get,
    Put,
    Operand(Seq<char>),
}

impl View for Token {
    type V = TokenModel;

    open spec fn view(&self) -> TokenModel {
        match self {
            Token::Ping => TokenModel::Ping,
            Token::Get => TokenModel::Get,
            Token::Put => TokenModel::Put,
            Token::Operand(text) => TokenModel::Operand(text@),
        }
    }
}

/// The models of a run of tokens, in order.
pub open spec fn token_models(tokens: Seq<Token>) -> Seq<TokenModel> {
    Seq::new(tokens.len(), |i: int| tokens[i]@)
}

/// The upper-case form of a text under Unicode's case mapping, as
/// `str::to_uppercase` computes it.
pub uninterp spec fn uppercase(text: Seq<char>) -> Seq<char>;

/// `str::to_uppercase`: the result is the upper-case form of `word`, a function
/// of the characters of `word` alone.
#[verifier::external_body]
fn to_uppercase(word: &str) -> (upper: String)
    ensures
        upper@ == uppercase(word@),
{
    word.to_uppercase()
}

/// `std::str::from_utf8`: succeeds exactly on well-formed UTF-8, and the text
/// it yields is made of the very bytes it was given.
#[verifier::external_body]
fn from_utf8(bytes: &[u8]) -> (text: Option<&str>)
    ensures
        text is Some <==> valid_utf8(bytes@),
        text matches Some(t) ==> t.spec_bytes() == bytes@,
{
    std::str::from_utf8(bytes).ok()
}

/// The keyword `PING`, in upper case.
pub open spec fn keyword_ping() -> Seq<char> {
    seq!['P', 'I', 'N', 'G']
}

/// The keyword `GET`, in upper case.
pub open spec fn keyword_get() -> Seq<char> {
    seq!['G', 'E', 'T']
}

/// The keyword `SET`, in upper case.
pub open spec fn keyword_set() -> Seq<char> {
    seq!['S', 'E', 'T']
}

/// The token for `word`, given the upper-case form `upper` of `word`: a keyword
/// where `upper` spells one, else an operand that keeps `word` as written.
pub open spec fn token_given(word: Seq<char>, upper: Seq<char>) -> TokenModel {
    if upper == keyword_ping() {
        TokenModel::Ping
    } else if upper == keyword_get() {
        TokenModel::Get
    } else if upper == keyword_set() {
        TokenModel::Put
    } else {
        TokenModel::Operand(word)
    }
}

/// The token for `word`: keywords are matched without regard to case.
pub open spec fn token_of(word: Seq<char>) -> TokenModel {
    token_given(word, uppercase(word))
}

/// The length of the word at the start of `s`: the characters before the first
/// separator.
pub open spec fn word_len(s: Seq<char>) -> nat
    decreases s.len(),
{
    if s.len() == 0 || is_separator(s[0]) {
        0
    } else {
        1 + word_len(s.skip(1))
    }
}

/// The tokens of a text: its maximal runs of non-separator characters, each
/// turned into a token, in the order in which they occur.
pub open spec fn tokens_of(s: Seq<char>) -> Seq<TokenModel>
    decreases s.len(),
    via tokens_of_decreases
{
    if s.len() == 0 {
        Seq::empty()
    } else if is_separator(s[0]) {
        tokens_of(s.skip(1))
    } else {
        let n = word_len(s) as int;
        seq![token_of(s.take(n))] + tokens_of(s.skip(n))
    }
}

#[via_fn]
proof fn tokens_of_decreases(s: Seq<char>) {
    if s.len() > 0 && !is_separator(s[0]) {
        lemma_word_is_maximal(s);
    }
}

/// A run of `m` non-separators that ends at a separator, or at the end of the
/// text, is the word at the start.
proof fn lemma_word_len_is(s: Seq<char>, m: int)
    requires
        0 <= m <= s.len(),
        forall|k: int| 0 <= k < m ==> !is_separator(#[trigger] s[k]),
        m == s.len() || is_separator(s[m]),
    ensures
        word_len(s) == m,
    decreases m,
{
    if m > 0 {
        let rest = s.skip(1);
        assert forall|k: int| 0 <= k < m - 1 implies !is_separator(#[trigger] rest[k]) by {
            assert(rest[k] == s[k + 1]);
        }
        lemma_word_len_is(rest, m - 1);
    }
}

/// The word at the start of a text holds no separator, and ends at a
/// separator or with the text.
pub proof fn lemma_word_is_maximal(s: Seq<char>)
    ensures
        word_len(s) <= s.len(),
        forall|k: int| 0 <= k < word_len(s) ==> !is_separator(#[trigger] s[k]),
        word_len(s) == s.len() || is_separator(s[word_len(s) as int]),
    decreases s.len(),
{
    if s.len() > 0 && !is_separator(s[0]) {
        let rest = s.skip(1);
        lemma_word_is_maximal(rest);
        assert forall|k: int| 0 <= k < word_len(s) implies !is_separator(#[trigger] s[k]) by {
            if k > 0 {
                assert(s[k] == rest[k - 1]);
            }
        }
        if word_len(s) < s.len() {
            assert(s[word_len(s) as int] == rest[word_len(rest) as int]);
        }
    }
}

/// Tokenizing goes word by word: the tokens of two texts joined by a
/// separator are the tokens of the first, then those of the second.
pub proof fn lemma_tokens_split_at_separator(a: Seq<char>, c: char, b: Seq<char>)
    requires
        is_separator(c),
    ensures
        tokens_of(a.push(c) + b) == tokens_of(a) + tokens_of(b),
    decreases a.len(),
{
    let s = a.push(c) + b;
    if a.len() == 0 {
        assert(s.skip(1) =~= b);
        assert(tokens_of(a) + tokens_of(b) =~= tokens_of(b));
    } else if is_separator(a[0]) {
        lemma_tokens_split_at_separator(a.skip(1), c, b);
        assert(s.skip(1) =~= a.skip(1).push(c) + b);
    } else {
        lemma_word_is_maximal(a);
        let n = word_len(a) as int;
        assert forall|k: int| 0 <= k < n implies !is_separator(#[trigger] s[k]) by {
            assert(s[k] == a[k]);
        }
        if n < a.len() {
            assert(s[n] == a[n]);
        } else {
            assert(s[n] == c);
        }
        lemma_word_len_is(s, n);
        lemma_tokens_split_at_separator(a.skip(n), c, b);
        assert(s.take(n) =~= a.take(n));
        assert(s.skip(n) =~= a.skip(n).push(c) + b);
        assert(tokens_of(s) =~= tokens_of(a) + tokens_of(b));
    }
}

/// Every operand among the tokens of a text is a word of it: it is not empty
/// and holds no separator.
pub proof fn lemma_operands_are_words(s: Seq<char>, i: int)
    requires
        0 <= i < tokens_of(s).len(),
    ensures
        tokens_of(s)[i] matches TokenModel::Operand(text) ==> text.len() > 0 && forall|k: int|
            0 <= k < text.len() ==> !is_separator(#[trigger] text[k]),
    decreases s.len(),
{
    if s.len() == 0 {
    } else if is_separator(s[0]) {
        lemma_operands_are_words(s.skip(1), i);
    } else {
        lemma_word_is_maximal(s);
        let n = word_len(s) as int;
        if i == 0 {
            let word = s.take(n);
            assert forall|k: int| 0 <= k < word.len() implies !is_separator(#[trigger] word[k]) by {
                assert(word[k] == s[k]);
            }
        } else {
            lemma_operands_are_words(s.skip(n), i - 1);
        }
    }
}

/// Keywords are matched without regard to case: two words with the same
/// upper-case form are the same keyword, or are both operands.
pub proof fn lemma_keywords_ignore_case(a: Seq<char>, b: Seq<char>)
    requires
        uppercase(a) == uppercase(b),
    ensures
        token_of(a) is Ping <==> token_of(b) is Ping,
        token_of(a) is Get <==> token_of(b) is Get,
        token_of(a) is Put <==> token_of(b) is Put,
        token_of(a) is Operand <==> token_of(b) is Operand,
{
}

/// An operand carries its word exactly as it was written.
pub proof fn lemma_operand_keeps_text(word: Seq<char>)
    ensures
        token_of(word) matches TokenModel::Operand(text) ==> text == word,
{
}

/// A text made of separators alone has no tokens.
pub proof fn lemma_blank_text_has_no_tokens(text: Seq<char>)
    requires
        forall|i: int| 0 <= i < text.len() ==> is_separator(#[trigger] text[i]),
    ensures
        tokens_of(text) == Seq::<TokenModel>::empty(),
    decreases text.len(),
{
    if text.len() > 0 {
        let rest = text.skip(1);
        assert forall|i: int| 0 <= i < rest.len() implies is_separator(#[trigger] rest[i]) by {
            assert(rest[i] == text[i + 1]);
        }
        lemma_blank_text_has_no_tokens(rest);
    }
}

/// Turns one word into its token, given the word's upper-case form.
pub fn token_from(word: &str, upper: &String) -> (token: Token)
    ensures
        token@ == token_given(word@, upper@),
{
    proof {
        reveal_strlit("PING");
        reveal_strlit("GET");
        reveal_strlit("SET");
    }
    assert("PING"@ =~= keyword_ping());
    assert("GET"@ =~= keyword_get());
    assert("SET"@ =~= keyword_set());
    if *upper == String::from_str("PING") {
        Token::Ping
    } else if *upper == String::from_str("GET") {
        Token::Get
    } else if *upper == String::from_str("SET") {
        Token::Put
    } else {
        Token::Operand(String::from_str(word))
    }
}

/// Turns one word into its token.
pub fn classify(word: &str) -> (token: Token)
    ensures
        token@ == token_of(word@),
{
    let upper = to_uppercase(word);
    token_from(word, &upper)
}

/// Splits a text into tokens.
///
/// Characters are looked up by position, each lookup walking the text from its
/// start: fit for the short reads of this protocol, not for long texts.
pub fn tokenize_text(text: &str) -> (tokens: Vec<Token>)
    ensures
        token_models(tokens@) == tokens_of(text@),
{
    let n: usize = text.unicode_len();
    let mut tokens: Vec<Token> = Vec::new();
    let mut i: usize = 0;
    assert(text@.skip(0) =~= text@);
    while i < n
        invariant
            n == text@.len(),
            i <= n,
            token_models(tokens@) + tokens_of(text@.skip(i as int)) =~= tokens_of(text@),
        decreases n - i,
    {
        let ghost rest = text@.skip(i as int);
        if char_is_separator(text.get_char(i)) {
            assert(rest.skip(1) =~= text@.skip(i + 1));
            i = i + 1;
        } else {
            let start: usize = i;
            i = i + 1;
            while i < n && !char_is_separator(text.get_char(i))
                invariant
                    n == text@.len(),
                    start < i <= n,
                    forall|k: int| start <= k < i ==> !is_separator(#[trigger] text@[k]),
                decreases n - i,
            {
                i = i + 1;
            }
            let word = text.substring_char(start, i);
            let token = classify(word);
            proof {
                let m = i - start;
                assert forall|k: int| 0 <= k < m implies !is_separator(#[trigger] rest[k]) by {
                    assert(rest[k] == text@[start + k]);
                }
                lemma_word_len_is(rest, m);
                assert(rest.take(m) =~= word@);
                assert(rest.skip(m) =~= text@.skip(i as int));
                assert(token_models(tokens@.push(token)) =~= token_models(tokens@) + seq![
                    token_of(word@),
                ]);
            }
            tokens.push(token);
        }
    }
    assert(text@.skip(n as int) =~= Seq::<char>::empty());
    tokens
}

/// Whether the bytes are text: well-formed UTF-8.
pub fn is_text(bytes: &[u8]) -> (yes: bool)
    ensures
        yes == valid_utf8(bytes@),
{
    from_utf8(bytes).is_some()
}

/// Splits the bytes of one read into tokens. The bytes must be text.
pub fn tokenize(bytes: &[u8]) -> (tokens: Vec<Token>)
    requires
        valid_utf8(bytes@),
    ensures
        token_models(tokens@) == tokens_of(decode_utf8(bytes@)),
{
    let text = from_utf8(bytes).unwrap();
    tokenize_text(text)
}

} // verus!
