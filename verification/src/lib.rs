//! A small key-value service: a line-oriented text protocol, its tokenizer and
//! parser, and the store that requests are executed against.

pub mod request;
pub mod service;
pub mod store;
pub mod text;
pub mod token;

pub use request::{parse_request, parse_tokens, read_request, ParserError, Request};
pub use service::{exec_request, Response};
pub use store::{HashStore, OperationalError, Store, TextStore};
pub use token::{is_text, tokenize, Token};
