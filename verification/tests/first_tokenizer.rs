//! Tests of the simple tokenizer.
use sysdc::tokenize::token::{Token, TokenKind};
use sysdc::tokenize::tokenizer::Tokenizer;

#[test]
fn create_token_from_string() {
    let str_kind_mapping = [
        ("layer", TokenKind::Layer),
        ("ref", TokenKind::Ref),
        ("data", TokenKind::Data),
        ("module", TokenKind::Module),
        ("use", TokenKind::Use),
        ("modify", TokenKind::Modify),
        ("link", TokenKind::Link),
        ("branch", TokenKind::Branch),
        ("chain", TokenKind::Chain),
        ("->", TokenKind::Allow),
        (":", TokenKind::Mapping),
        ("=", TokenKind::Equal),
        (".", TokenKind::Accessor),
        ("::", TokenKind::PAccessor),
        (",", TokenKind::Separater),
        (";", TokenKind::Semicolon),
        ("(", TokenKind::ParenthesisBegin),
        (")", TokenKind::ParenthesisEnd),
        ("{", TokenKind::BracketBegin),
        ("}", TokenKind::BracketEnd),
    ];
    for (s, kind) in str_kind_mapping {
        assert_eq!(Token::from_string(s.to_string()).kind, kind);
    }
}

#[test]
fn get_number_from_number_token() {
    let number = Token::from_i32(1204).get_number();
    assert_eq!(number, 1204);
}

#[test]
fn tokenizer_create_tokenizer() {
    let text = "cocoa 410 cappuccino 1204".to_string();
    Tokenizer::new(&text);
}

#[test]
fn expect_kind_all_ok() {
    let text = "layer 0; data User { id: int32, name: String } module UserModule binds User as this { greet() -> None { use = this.name } }".to_string();
    let correct_token_kinds = [
            TokenKind::Layer,
            TokenKind::Number,
            TokenKind::Semicolon,
            TokenKind::Data,
            TokenKind::Identifier,
            TokenKind::BracketBegin,
            TokenKind::Identifier,
            TokenKind::Mapping,
            TokenKind::Identifier,
            TokenKind::Separater,
            TokenKind::Identifier,
            TokenKind::Mapping,
            TokenKind::Identifier,
            TokenKind::BracketEnd,
            TokenKind::Module,
            TokenKind::Identifier,
            TokenKind::Binds,
            TokenKind::Identifier,
            TokenKind::As,
            TokenKind::Identifier,
            TokenKind::BracketBegin,
            TokenKind::Identifier,
            TokenKind::ParenthesisBegin,
            TokenKind::ParenthesisEnd,
            TokenKind::Allow,
            TokenKind::Identifier,
            TokenKind::BracketBegin,
            TokenKind::Use,
            TokenKind::Equal,
            TokenKind::Identifier,
            TokenKind::Accessor,
            TokenKind::Identifier,
            TokenKind::BracketEnd,
            TokenKind::BracketEnd
        ];

    let mut tokenizer = Tokenizer::new(&text);
    for token_kind in correct_token_kinds {
        match tokenizer.expect_kind(token_kind) {
            Some(_) => {}
            None => assert!(false, "{:?}", token_kind),
        }
    }
    assert!(!tokenizer.has_token());
}

#[test]
fn expect_kind_all_ng() {
    let text = "data".to_string();

    let mut tokenizer = Tokenizer::new(&text);
    for token_kind in [TokenKind::Layer, TokenKind::Ref, TokenKind::Data] {
        match tokenizer.expect_kind(token_kind) {
            Some(_) => assert_eq!(token_kind, TokenKind::Data),
            None => assert_ne!(token_kind, TokenKind::Data),
        }
    }
    assert!(!tokenizer.has_token());
}

#[test]
#[should_panic]
fn get_number_from_reserved_token() {
    Token::from_string("->".to_string()).get_number();
}

#[test]
#[should_panic]
fn get_number_from_identifer_token() {
    Token::from_string("test".to_string()).get_number();
}

#[test]
#[should_panic]
fn get_identifer_from_number_token() {
    Token::from_i32(1204).get_id();
}
