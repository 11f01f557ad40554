//! Requests, and the parser that builds them from tokens.

use crate::text::{decimal, decimal_string, is_separator};
use crate::token::{
    lemma_blank_text_has_no_tokens, token_models, tokenize, tokens_of, Token, TokenModel,
};
use vstd::prelude::*;
use vstd::string::StringExecFns;
use vstd::utf8::{decode_utf8, valid_utf8};

verus! {

/// One command of a client.
#[derive(Debug, PartialEq)]
pub enum Request {
    /// Asks for a sign of life.
    Ping,
    /// Asks for the value bound to `key`.
    Get { key: String },
    /// The command `SET`: binds `key` to `val`.
    Put { key: String, val: String },
    /// What an empty read amounts to.
    NoOp,
    /// A command that could not be parsed, with the reason.
    Invalid { error: String },
}

/// What a `Request` stands for, with text as sequences of characters.
pub enum RequestModel {
    Ping,
    Get { key: Seq<char> },
    Put { key: Seq<char>, val: Seq<char> },
    NoOp,
    Invalid { error: Seq<char> },
}

impl View for Request {
    type V = RequestModel;

    open spec fn view(&self) -> RequestModel {
        match self {
            Request::Ping => RequestModel::Ping,
            Request::Get { key } => RequestModel::Get { key: key@ },
            Request::Put { key, val } => RequestModel::Put { key: key@, val: val@ },
            Request::NoOp => RequestModel::NoOp,
            Request::Invalid { error } => RequestModel::Invalid { error: error@ },
        }
    }
}

/// Why a run of tokens is no command.
#[derive(Debug)]
pub struct ParserError(pub String);

impl View for ParserError {
    type V = Seq<char>;

    open spec fn view(&self) -> Seq<char> {
        self.0@
    }
}

/// The complaint about a `PING` followed by `given` operands.
pub open spec fn ping_arity_message(given: nat) -> Seq<char> {
    "Ping op expected no operands, got "@ + decimal(given)
}

/// The complaint about a `GET` followed by `given` operands.
pub open spec fn get_arity_message(given: nat) -> Seq<char> {
    "Get op expected exactly 1 operand, got "@ + decimal(given)
}

/// The complaint about a `SET` followed by `given` operands.
pub open spec fn set_arity_message(given: nat) -> Seq<char> {
    "Set op expected 2 operands, got "@ + decimal(given)
}

/// The complaint about a keyword in the place of the operand of a `GET`.
pub open spec fn get_operand_message() -> Seq<char> {
    "Get operands cannot be op types"@
}

/// The complaint about a keyword in the place of an operand of a `SET`.
pub open spec fn set_operand_message() -> Seq<char> {
    "Set operands cannot be op types"@
}

/// The complaint about a command that starts with an operand.
pub open spec fn invalid_op_message() -> Seq<char> {
    "Invalid op token"@
}

/// The request that a run of tokens spells, or the reason why it spells none.
/// The first token is the operator and fixes how many operands must follow.
pub open spec fn parse(tokens: Seq<TokenModel>) -> Result<RequestModel, Seq<char>> {
    if tokens.len() == 0 {
        Ok(RequestModel::NoOp)
    } else {
        let given = (tokens.len() - 1) as nat;
        match tokens[0] {
            TokenModel::Ping => if given == 0 {
                Ok(RequestModel::Ping)
            } else {
                Err(ping_arity_message(given))
            },
            TokenModel::Get => if given != 1 {
                Err(get_arity_message(given))
            } else {
                match tokens[1] {
                    TokenModel::Operand(key) => Ok(RequestModel::Get { key }),
                    _ => Err(get_operand_message()),
                }
            },
            TokenModel::Put => if given != 2 {
                Err(set_arity_message(given))
            } else {
                match (tokens[1], tokens[2]) {
                    (TokenModel::Operand(key), TokenModel::Operand(val)) => Ok(
                        RequestModel::Put { key, val },
                    ),
                    _ => Err(set_operand_message()),
                }
            },
            TokenModel::Operand(_) => Err(invalid_op_message()),
        }
    }
}

/// The request that a text amounts to on the wire: what its tokens spell, and
/// for tokens that spell nothing an `Invalid` that carries the reason.
pub open spec fn request_of(text: Seq<char>) -> RequestModel {
    match parse(tokens_of(text)) {
        Ok(request) => request,
        Err(error) => RequestModel::Invalid { error },
    }
}

/// Whether `outcome` is the parser's answer `expected`, success or failure.
pub open spec fn parsed_as(
    outcome: Result<Request, ParserError>,
    expected: Result<RequestModel, Seq<char>>,
) -> bool {
    match expected {
        Ok(request) => outcome matches Ok(r) && r@ == request,
        Err(error) => outcome matches Err(e) && e@ == error,
    }
}

fn arity_error(prefix: &str, given: usize) -> (error: ParserError)
    ensures
        error@ == prefix@ + decimal(given as nat),
{
    let count = decimal_string(given);
    ParserError(String::from_str(prefix).concat(count.as_str()))
}

/// Parses a run of tokens into a request.
pub fn parse_tokens(tokens: Vec<Token>) -> (outcome: Result<Request, ParserError>)
    ensures
        parsed_as(outcome, parse(token_models(tokens@))),
{
    let argc: usize = tokens.len();
    if argc == 0 {
        return Ok(Request::NoOp);
    }
    match &tokens[0] {
        Token::Ping => {
            if argc != 1 {
                return Err(arity_error("Ping op expected no operands, got ", argc - 1));
            }
            Ok(Request::Ping)
        },
        Token::Get => {
            if argc != 2 {
                return Err(arity_error("Get op expected exactly 1 operand, got ", argc - 1));
            }
            match &tokens[1] {
                Token::Operand(k) => Ok(Request::Get { key: k.clone() }),
                _ => Err(ParserError(String::from_str("Get operands cannot be op types"))),
            }
        },
        Token::Put => {
            if argc != 3 {
                return Err(arity_error("Set op expected 2 operands, got ", argc - 1));
            }
            let key = match &tokens[1] {
                Token::Operand(k) => k.clone(),
                _ => {
                    return Err(ParserError(String::from_str("Set operands cannot be op types")));
                },
            };
            let val = match &tokens[2] {
                Token::Operand(v) => v.clone(),
                _ => {
                    return Err(ParserError(String::from_str("Set operands cannot be op types")));
                },
            };
            Ok(Request::Put { key, val })
        },
        Token::Operand(_) => Err(ParserError(String::from_str("Invalid op token"))),
    }
}

/// Tokenizes and parses the bytes of one read. The bytes must be text.
pub fn parse_request(bytes: &[u8]) -> (outcome: Result<Request, ParserError>)
    requires
        valid_utf8(bytes@),
    ensures
        parsed_as(outcome, parse(tokens_of(decode_utf8(bytes@)))),
{
    let tokens = tokenize(bytes);
    parse_tokens(tokens)
}

/// The request that the bytes of one read amount to: a parse failure becomes
/// an `Invalid` request that carries the parser's message. The bytes must be
/// text.
pub fn read_request(bytes: &[u8]) -> (request: Request)
    requires
        valid_utf8(bytes@),
    ensures
        request@ == request_of(decode_utf8(bytes@)),
{
    match parse_request(bytes) {
        Ok(request) => request,
        Err(e) => Request::Invalid { error: e.0 },
    }
}

/// A text without a word has no tokens, and no tokens parse to `NoOp`.
pub proof fn lemma_blank_text_is_no_op(text: Seq<char>)
    requires
        forall|i: int| 0 <= i < text.len() ==> is_separator(#[trigger] text[i]),
    ensures
        tokens_of(text) == Seq::<TokenModel>::empty(),
        parse(tokens_of(text)) == Ok::<RequestModel, Seq<char>>(RequestModel::NoOp),
        request_of(text) == RequestModel::NoOp,
{
    lemma_blank_text_has_no_tokens(text);
}

/// A byte that stands for a separator by itself: ASCII white space, or NUL.
pub open spec fn is_blank_byte(b: u8) -> bool {
    b == 0 || 9 <= b <= 13 || b == 32
}

/// A read buffer that holds nothing but blank bytes, such as the zero padding
/// of an empty read, is text and amounts to `NoOp`.
pub proof fn lemma_blank_buffer_is_no_op(bytes: Seq<u8>)
    requires
        forall|i: int| 0 <= i < bytes.len() ==> is_blank_byte(#[trigger] bytes[i]),
    ensures
        valid_utf8(bytes),
        tokens_of(decode_utf8(bytes)) == Seq::<TokenModel>::empty(),
        request_of(decode_utf8(bytes)) == RequestModel::NoOp,
{
    let chars = Seq::new(bytes.len(), |i: int| bytes[i] as char);
    assert forall|i: int| 0 <= i < chars.len() implies '\0' <= #[trigger] chars[i] <= '\u{7f}'
        && is_separator(chars[i]) && chars[i] as u8 == bytes[i] by {
        assert(is_blank_byte(bytes[i]));
    }
    vstd::utf8::is_ascii_chars_encode_utf8(chars);
    assert(vstd::utf8::encode_utf8(chars) =~= bytes);
    vstd::utf8::encode_utf8_valid_utf8(chars);
    vstd::utf8::encode_utf8_decode_utf8(chars);
    lemma_blank_text_is_no_op(chars);
}

/// A command that starts with an operand is refused, whatever follows.
pub proof fn lemma_leading_operand_is_refused(tokens: Seq<TokenModel>)
    requires
        tokens.len() > 0,
        tokens[0] is Operand,
    ensures
        parse(tokens) == Err::<RequestModel, Seq<char>>(invalid_op_message()),
{
}

} // verus!
