use kiva::{parse_request, parse_tokens, read_request, Request, Token};

fn operand(text: &str) -> Token {
    Token::Operand(text.to_string())
}

fn failure(tokens: Vec<Token>) -> String {
    match parse_tokens(tokens) {
        Ok(request) => panic!("parsed as {:?}", request),
        Err(e) => e.0,
    }
}

#[test]
fn test_valid_parse_tokens() {
    assert_eq!(parse_tokens(vec![Token::Ping]).unwrap(), Request::Ping);
    assert_eq!(
        parse_tokens(vec![Token::Get, Token::Operand("foo".to_string())]).unwrap(),
        Request::Get {
            key: "foo".to_string()
        }
    );
    assert_eq!(
        parse_tokens(vec![
            Token::Put,
            Token::Operand("foo".to_string()),
            Token::Operand("bar".to_string())
        ])
        .unwrap(),
        Request::Put {
            key: "foo".to_string(),
            val: "bar".to_string()
        }
    );
    assert_eq!(parse_tokens(vec![]).unwrap(), Request::NoOp);
}

#[test]
#[should_panic]
fn test_invalid_ping() {
    parse_tokens(vec![Token::Ping, Token::Operand("foo".to_string())]).unwrap();
}

#[test]
#[should_panic]
fn test_invalid_get() {
    parse_tokens(vec![Token::Get]).unwrap();
}

#[test]
#[should_panic]
fn test_invalid_set() {
    parse_tokens(vec![
        Token::Put,
        Token::Operand("baz".to_string()),
        Token::Operand("bar".to_string()),
        Token::Operand("foo".to_string()),
    ])
    .unwrap();
}

#[test]
fn ping_arity_messages() {
    assert_eq!(
        failure(vec![Token::Ping, operand("foo")]),
        "Ping op expected no operands, got 1"
    );
    assert_eq!(
        failure(vec![Token::Ping, Token::Ping, Token::Get]),
        "Ping op expected no operands, got 2"
    );
}

#[test]
fn get_arity_messages() {
    assert_eq!(
        failure(vec![Token::Get]),
        "Get op expected exactly 1 operand, got 0"
    );
    assert_eq!(
        failure(vec![Token::Get, operand("a"), operand("b")]),
        "Get op expected exactly 1 operand, got 2"
    );
}

#[test]
fn set_arity_messages() {
    assert_eq!(failure(vec![Token::Put]), "Set op expected 2 operands, got 0");
    assert_eq!(
        failure(vec![Token::Put, operand("a")]),
        "Set op expected 2 operands, got 1"
    );
    assert_eq!(
        failure(vec![Token::Put, operand("baz"), operand("bar"), operand("foo")]),
        "Set op expected 2 operands, got 3"
    );
}

#[test]
fn arity_message_with_many_operands() {
    let mut tokens = vec![Token::Ping];
    for _ in 0..12 {
        tokens.push(operand("x"));
    }
    assert_eq!(failure(tokens), "Ping op expected no operands, got 12");
}

#[test]
fn keyword_operands_are_refused() {
    assert_eq!(
        failure(vec![Token::Get, Token::Ping]),
        "Get operands cannot be op types"
    );
    assert_eq!(
        failure(vec![Token::Get, Token::Get]),
        "Get operands cannot be op types"
    );
    assert_eq!(
        failure(vec![Token::Put, Token::Get, operand("v")]),
        "Set operands cannot be op types"
    );
    assert_eq!(
        failure(vec![Token::Put, operand("k"), Token::Put]),
        "Set operands cannot be op types"
    );
}

#[test]
fn leading_operand_is_refused() {
    assert_eq!(failure(vec![operand("foo")]), "Invalid op token");
    assert_eq!(
        failure(vec![operand("is"), operand("invalid"), operand("request")]),
        "Invalid op token"
    );
    assert_eq!(failure(vec![operand("foo"), Token::Ping]), "Invalid op token");
}

#[test]
fn parse_request_from_bytes() {
    assert_eq!(parse_request(b"PING").unwrap(), Request::Ping);
    assert_eq!(parse_request(b"   ").unwrap(), Request::NoOp);
    assert_eq!(parse_request(b"").unwrap(), Request::NoOp);
    assert_eq!(
        parse_request(b"get Foo\n").unwrap(),
        Request::Get {
            key: "Foo".to_string()
        }
    );
    assert_eq!(
        parse_request(b"set a B\0\0\0").unwrap(),
        Request::Put {
            key: "a".to_string(),
            val: "B".to_string()
        }
    );
    assert_eq!(
        parse_request(b"is invalid request").unwrap_err().0,
        "Invalid op token"
    );
}

#[test]
fn read_request_wraps_the_parser_message() {
    assert_eq!(read_request(b"ping\r\n"), Request::Ping);
    assert_eq!(read_request(&[0u8; 128]), Request::NoOp);
    assert_eq!(
        read_request(b"GET"),
        Request::Invalid {
            error: "Get op expected exactly 1 operand, got 0".to_string()
        }
    );
    assert_eq!(
        read_request(b"hello"),
        Request::Invalid {
            error: "Invalid op token".to_string()
        }
    );
}
