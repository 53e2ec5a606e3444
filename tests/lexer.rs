use abby_vm::lexer::{Lexer, TokenType};

#[test]
fn test_simple_tokens() {
    let mut lexer = Lexer::new("+ - * / % ( ) { } ; ,");
    let tokens = lexer.tokenize().unwrap();

    assert_eq!(tokens.len(), 12);
    assert_eq!(tokens[0].token_type, TokenType::Plus);
    assert_eq!(tokens[1].token_type, TokenType::Minus);
    assert_eq!(tokens[2].token_type, TokenType::Star);
    assert_eq!(tokens[3].token_type, TokenType::Slash);
    assert_eq!(tokens[4].token_type, TokenType::Percent);
}

#[test]
fn test_numbers() {
    let mut lexer = Lexer::new("42 0xFF 123");
    let tokens = lexer.tokenize().unwrap();

    assert_eq!(tokens[0].token_type, TokenType::Number(42));
    assert_eq!(tokens[1].token_type, TokenType::Number(255));
    assert_eq!(tokens[2].token_type, TokenType::Number(123));
}

#[test]
fn test_keywords() {
    let mut lexer = Lexer::new("let function if else return");
    let tokens = lexer.tokenize().unwrap();

    assert_eq!(tokens[0].token_type, TokenType::Let);
    assert_eq!(tokens[1].token_type, TokenType::Function);
    assert_eq!(tokens[2].token_type, TokenType::If);
    assert_eq!(tokens[3].token_type, TokenType::Else);
    assert_eq!(tokens[4].token_type, TokenType::Return);
    assert_eq!(tokens[5].token_type, TokenType::Eof);
    assert_eq!(tokens.len(), 6);
}

#[test]
fn test_identifiers() {
    let mut lexer = Lexer::new("variable_name myFunc _private");
    let tokens = lexer.tokenize().unwrap();

    match &tokens[0].token_type {
        TokenType::Identifier(name) => assert_eq!(name, "variable_name"),
        _ => panic!("Expected identifier"),
    }
}

#[test]
fn test_operators() {
    let mut lexer = Lexer::new("== != >= <= && ||");
    let tokens = lexer.tokenize().unwrap();

    assert_eq!(tokens[0].token_type, TokenType::EqualEqual);
    assert_eq!(tokens[1].token_type, TokenType::BangEqual);
    assert_eq!(tokens[2].token_type, TokenType::GreaterEqual);
    assert_eq!(tokens[3].token_type, TokenType::LessEqual);
    assert_eq!(tokens[4].token_type, TokenType::AmpersandAmpersand);
    assert_eq!(tokens[5].token_type, TokenType::PipePipe);
}

#[test]
fn lexes_all_reserved_words() {
    let mut lexer = Lexer::new("const while for true false storage memory keccak256 assert");
    let tokens = lexer.tokenize().unwrap();
    let kinds: Vec<TokenType> = tokens.into_iter().map(|t| t.token_type).collect();
    assert_eq!(
        kinds,
        vec![
            TokenType::Const,
            TokenType::While,
            TokenType::For,
            TokenType::True,
            TokenType::False,
            TokenType::Storage,
            TokenType::Memory,
            TokenType::Keccak256,
            TokenType::Assert,
            TokenType::Eof
        ]
    );
}

#[test]
fn lexes_strings_comments_and_lines() {
    let mut lexer = Lexer::new("\"hi there\" // a comment\nx");
    let tokens = lexer.tokenize().unwrap();
    assert_eq!(tokens[0].token_type, TokenType::String("hi there".to_string()));
    assert_eq!(tokens[0].lexeme, "\"hi there\"");
    assert_eq!(tokens[1].token_type, TokenType::Identifier("x".to_string()));
    assert_eq!(tokens[1].line, 2);
    assert_eq!(tokens[2].token_type, TokenType::Eof);
}

#[test]
fn lexes_largest_numbers() {
    let mut lexer = Lexer::new("18446744073709551615 0xffffffffffffffff");
    let tokens = lexer.tokenize().unwrap();
    assert_eq!(tokens[0].token_type, TokenType::Number(u64::MAX));
    assert_eq!(tokens[1].token_type, TokenType::Number(u64::MAX));
}

#[test]
fn rejects_number_overflow() {
    assert!(Lexer::new("18446744073709551616").tokenize().is_err());
    assert!(Lexer::new("0x10000000000000000").tokenize().is_err());
}

#[test]
fn rejects_malformed_input() {
    let e = Lexer::new("\"open").tokenize().unwrap_err();
    assert_eq!(e.message, "Unterminated string");
    let e = Lexer::new("0x").tokenize().unwrap_err();
    assert_eq!(e.message, "Invalid hex literal");
    let e = Lexer::new("a & b").tokenize().unwrap_err();
    assert_eq!(e.message, "Unexpected character '&'");
    assert_eq!(e.column, 3);
    let e = Lexer::new("a | b").tokenize().unwrap_err();
    assert_eq!(e.message, "Unexpected character '|'");
    let e = Lexer::new("#").tokenize().unwrap_err();
    assert_eq!(e.message, "Unexpected character '#'");
}

#[test]
fn empty_input_is_just_eof() {
    let tokens = Lexer::new("").tokenize().unwrap();
    assert_eq!(tokens.len(), 1);
    assert_eq!(tokens[0].token_type, TokenType::Eof);
}

#[test]
fn comments_and_whitespace_give_no_tokens() {
    let tokens = Lexer::new("  // only a comment\n\t ").tokenize().unwrap();
    assert_eq!(tokens.len(), 1);
    assert_eq!(tokens[0].token_type, TokenType::Eof);
}
