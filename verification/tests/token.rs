//! The tokenizer's tests.
use sysdc::lang::token::{Token, TokenKind, Tokenizer};
use sysdc::compiler::token::{Token as CToken, TokenKind as CTokenKind, Tokenizer as CTokenizer};

#[test]
fn token_create_token_from() {
    let str_kind_mapping = [
        ("unit", TokenKind::Unit),
        ("from", TokenKind::From),
        ("import", TokenKind::Import),
        ("data", TokenKind::Data),
        ("module", TokenKind::Module),
        ("return", TokenKind::Return),
        ("let", TokenKind::Let),
        ("spawn", TokenKind::Spawn),
        ("use", TokenKind::Use),
        ("->", TokenKind::Allow),
        (":", TokenKind::Mapping),
        ("=", TokenKind::Equal),
        (".", TokenKind::Accessor),
        (",", TokenKind::Separater),
        (";", TokenKind::Semicolon),
        ("(", TokenKind::ParenthesisBegin),
        (")", TokenKind::ParenthesisEnd),
        ("{", TokenKind::BracketBegin),
        ("}", TokenKind::BracketEnd),
        ("@", TokenKind::AtMark),
        ("+", TokenKind::Plus),
    ];
    for (s, kind) in str_kind_mapping {
        assert_eq!(Token::new(s.to_string(), 0, 0).kind, kind);
    }
    let compiler_mapping = [
        ("unit", CTokenKind::Unit),
        ("from", CTokenKind::From),
        ("import", CTokenKind::Import),
        ("data", CTokenKind::Data),
        ("module", CTokenKind::Module),
        ("return", CTokenKind::Return),
        ("let", CTokenKind::Let),
        ("spawn", CTokenKind::Spawn),
        ("use", CTokenKind::Use),
        ("->", CTokenKind::Allow),
        (":", CTokenKind::Mapping),
        ("=", CTokenKind::Equal),
        (".", CTokenKind::Accessor),
        (",", CTokenKind::Separater),
        (";", CTokenKind::Semicolon),
        ("(", CTokenKind::ParenthesisBegin),
        (")", CTokenKind::ParenthesisEnd),
        ("{", CTokenKind::BracketBegin),
        ("}", CTokenKind::BracketEnd),
        ("@", CTokenKind::AtMark),
        ("+", CTokenKind::Plus),
    ];
    for (s, kind) in compiler_mapping {
        assert_eq!(CToken::from(s.to_string(), 0, 0).kind, kind);
    }
}

#[test]
fn token_get_identifer_from_identifer_token() {
    let id = Token::new("test".to_string(), 0, 0).orig;
    assert_eq!(id, "test");
    let _ = Token::new("test".to_string(), 0, 0).orig;

    let id = CToken::from("test".to_string(), 0, 0).get_id().unwrap();
    assert_eq!(id, "test");
    CToken::from("test".to_string(), 0, 0).get_id().unwrap();

    let id = sysdc::tokenize::token::Token::from_string("test".to_string()).get_id();
    assert_eq!(id, "test");
}

#[test]
#[should_panic]
fn token_get_identifer_from_reserved_token() {
    CToken::from("->".to_string(), 0, 0).get_id().unwrap();
}

#[test]
fn token_create_tokenizer() {
    let text = "cocoa 410 cappuccino 1204".to_string();
    Tokenizer::new("test.def".to_string(), &text);
    CTokenizer::new(&text);
}

#[test]
fn token_expect_all_ok() {
    let text = r#"
                unit box;

                from square import Square;

                data Box {
                    x: i32,
                    y: i32  % Single Comment %
                }

                module BoxModule {
                    func move(box: Box, dx: i32, dy: i32) -> Box {
                        @return movedBox

                        %
                            MultiLine
                            Comment
                            あああ？
                        %

                        @modify box {
                            use dx, dy;
                        }

                        @spawn movedBox: Box {
                            use box.x, box.y;
                        }
                    }
                }"#.to_string();
    let correct_token_kinds = [
                TokenKind::Unit,
                TokenKind::Identifier,
                TokenKind::Semicolon,
                TokenKind::From,
                TokenKind::Identifier,
                TokenKind::Import,
                TokenKind::Identifier,
                TokenKind::Semicolon,
                TokenKind::Data,
                TokenKind::Identifier,
                TokenKind::BracketBegin,
                TokenKind::Identifier,
                TokenKind::Mapping,
                TokenKind::Identifier,
                TokenKind::Separater,
                TokenKind::Identifier,
                TokenKind::Mapping,
                TokenKind::Identifier,
                TokenKind::BracketEnd,
                TokenKind::Module,
                TokenKind::Identifier,
                TokenKind::BracketBegin,
                TokenKind::Func,
                TokenKind::Identifier,
                TokenKind::ParenthesisBegin,
                TokenKind::Identifier,
                TokenKind::Mapping,
                TokenKind::Identifier,
                TokenKind::Separater,
                TokenKind::Identifier,
                TokenKind::Mapping,
                TokenKind::Identifier,
                TokenKind::Separater,
                TokenKind::Identifier,
                TokenKind::Mapping,
                TokenKind::Identifier,
                TokenKind::ParenthesisEnd,
                TokenKind::Allow,
                TokenKind::Identifier,
                TokenKind::BracketBegin,
                TokenKind::AtMark,
                TokenKind::Return,
                TokenKind::Identifier,
                TokenKind::AtMark,
                TokenKind::Modify,
                TokenKind::Identifier,
                TokenKind::BracketBegin,
                TokenKind::Use,
                TokenKind::Identifier,
                TokenKind::Separater,
                TokenKind::Identifier,
                TokenKind::Semicolon,
                TokenKind::BracketEnd,
                TokenKind::AtMark,
                TokenKind::Spawn,
                TokenKind::Identifier,
                TokenKind::Mapping,
                TokenKind::Identifier,
                TokenKind::BracketBegin,
                TokenKind::Use,
                TokenKind::Identifier,
                TokenKind::Accessor,
                TokenKind::Identifier,
                TokenKind::Separater,
                TokenKind::Identifier,
                TokenKind::Accessor,
                TokenKind::Identifier,
                TokenKind::Semicolon,
                TokenKind::BracketEnd,
                TokenKind::BracketEnd,
                TokenKind::BracketEnd
            ];

    let mut tokenizer = Tokenizer::new("test.def".to_string(), &text);
    for token_kind in correct_token_kinds {
        match tokenizer.expect(token_kind).unwrap() {
            Some(_) => {}
            None => assert!(false, "{:?}", token_kind),
        }
    }

    let text = r#"
                unit box;

                from square import Square;

                data Box {
                    x: i32,
                    y: i32
                }

                module BoxModule {
                    move(box: Box, dx: i32, dy: i32) -> Box {
                        @return movedBox

                        @spawn movedBox: Box {
                            use box.x, box.y;
                        }
                    }
                }"#.to_string();
    let correct_token_kinds = [
                CTokenKind::Unit,
                CTokenKind::Identifier,
                CTokenKind::Semicolon,
                CTokenKind::From,
                CTokenKind::Identifier,
                CTokenKind::Import,
                CTokenKind::Identifier,
                CTokenKind::Semicolon,
                CTokenKind::Data,
                CTokenKind::Identifier,
                CTokenKind::BracketBegin,
                CTokenKind::Identifier,
                CTokenKind::Mapping,
                CTokenKind::Identifier,
                CTokenKind::Separater,
                CTokenKind::Identifier,
                CTokenKind::Mapping,
                CTokenKind::Identifier,
                CTokenKind::BracketEnd,
                CTokenKind::Module,
                CTokenKind::Identifier,
                CTokenKind::BracketBegin,
                CTokenKind::Identifier,
                CTokenKind::ParenthesisBegin,
                CTokenKind::Identifier,
                CTokenKind::Mapping,
                CTokenKind::Identifier,
                CTokenKind::Separater,
                CTokenKind::Identifier,
                CTokenKind::Mapping,
                CTokenKind::Identifier,
                CTokenKind::Separater,
                CTokenKind::Identifier,
                CTokenKind::Mapping,
                CTokenKind::Identifier,
                CTokenKind::ParenthesisEnd,
                CTokenKind::Allow,
                CTokenKind::Identifier,
                CTokenKind::BracketBegin,
                CTokenKind::AtMark,
                CTokenKind::Return,
                CTokenKind::Identifier,
                CTokenKind::AtMark,
                CTokenKind::Spawn,
                CTokenKind::Identifier,
                CTokenKind::Mapping,
                CTokenKind::Identifier,
                CTokenKind::BracketBegin,
                CTokenKind::Use,
                CTokenKind::Identifier,
                CTokenKind::Accessor,
                CTokenKind::Identifier,
                CTokenKind::Separater,
                CTokenKind::Identifier,
                CTokenKind::Accessor,
                CTokenKind::Identifier,
                CTokenKind::Semicolon,
                CTokenKind::BracketEnd,
                CTokenKind::BracketEnd,
                CTokenKind::BracketEnd
            ];
    let mut tokenizer = CTokenizer::new(&text);
    for token_kind in correct_token_kinds {
        match tokenizer.expect(token_kind).unwrap() {
            Some(_) => {}
            None => assert!(false, "{:?}", token_kind),
        }
    }
}

#[test]
fn token_expect_all_ng() {
    let text = "data".to_string();
    let mut tokenizer = Tokenizer::new("test.def".to_string(), &text);
    assert!(tokenizer.expect(TokenKind::Allow).unwrap().is_none());

    let mut tokenizer = CTokenizer::new(&text);
    assert!(tokenizer.expect(CTokenKind::Allow).unwrap().is_none());
}

#[test]
fn token_request_all_ok() {
    let text = "data module cocoa @".to_string();
    let correct_token_kinds = [TokenKind::Data, TokenKind::Module, TokenKind::Identifier, TokenKind::AtMark];

    let mut tokenizer = Tokenizer::new("test.def".to_string(), &text);
    for token_kind in correct_token_kinds {
        let token = tokenizer.request(token_kind).unwrap();
        assert_eq!(token.kind, token_kind);
    }
    assert!(!tokenizer.exists_next());

    let correct_token_kinds = [CTokenKind::Data, CTokenKind::Module, CTokenKind::Identifier, CTokenKind::AtMark];
    let mut tokenizer = CTokenizer::new(&text);
    for token_kind in correct_token_kinds {
        let token = tokenizer.request(token_kind).unwrap();
        assert_eq!(token.kind, token_kind);
    }
    assert!(!tokenizer.has_token());
}

#[test]
#[should_panic]
fn token_request_ng() {
    let text = "data".to_string();
    let mut tokenizer = Tokenizer::new("test.def".to_string(), &text);
    let lang_refused = tokenizer.request(TokenKind::AtMark).is_err();
    let mut tokenizer = CTokenizer::new(&text);
    let compiler_refused = tokenizer.request(CTokenKind::AtMark).is_err();
    if lang_refused && compiler_refused {
        panic!("refused");
    }
}

/// The row and column of each token of `text`, taken one after another.
fn token_coords(text: &str) -> Vec<(String, Option<(i32, i32)>)> {
    let kinds = [
        TokenKind::Identifier, TokenKind::Unit, TokenKind::Data, TokenKind::Accessor,
        TokenKind::Semicolon, TokenKind::BracketBegin, TokenKind::BracketEnd, TokenKind::Mapping,
        TokenKind::Allow,
    ];
    let mut tokenizer = Tokenizer::new("loc.def".to_string(), text);
    let mut found = vec![];
    'outer: loop {
        for kind in kinds {
            if let Some(token) = tokenizer.expect(kind).unwrap() {
                assert_eq!(token.location.filename, None);
                found.push((token.orig, token.location.coord));
                continue 'outer;
            }
        }
        break;
    }
    found
}

#[test]
fn token_locations_follow_the_counter() {
    let found = token_coords("unit a.b;");
    let expected = vec![
        ("unit", (1, 4)),
        ("a", (1, 8)),
        (".", (1, 9)),
        ("b", (1, 10)),
        (";", (1, 13)),
    ];
    assert_eq!(found, expected.iter().map(|(o, c)| (o.to_string(), Some(*c))).collect::<Vec<_>>());

    let found = token_coords("data  X {\n  x: i32 % c %\n}");
    let expected = vec![
        ("data", (1, 6)),
        ("X", (1, 12)),
        ("{", (2, 5)),
        ("x", (2, 6)),
        (":", (2, 9)),
        ("i32", (3, -1)),
        ("}", (3, 4)),
    ];
    assert_eq!(found, expected.iter().map(|(o, c)| (o.to_string(), Some(*c))).collect::<Vec<_>>());

    let found = token_coords("a ->");
    assert_eq!(found, vec![("a".to_string(), Some((1, 4))), ("->".to_string(), Some((1, 6)))]);
}

#[test]
fn token_columns_count_bytes() {
    let text = "a é\nb";
    let mut tokenizer = Tokenizer::new("loc.def".to_string(), text);
    let a = tokenizer.expect(TokenKind::Identifier).unwrap().unwrap();
    assert_eq!(a.location.coord, Some((1, 4)));
    let other = tokenizer.expect(TokenKind::Identifier).unwrap().unwrap();
    assert_eq!(other.orig, "é");
    assert_eq!(other.location.coord, Some((2, 0)));
    let b = tokenizer.expect(TokenKind::Identifier).unwrap().unwrap();
    assert_eq!(b.location.coord, Some((2, 4)));

    assert_eq!(Token::new("é".to_string(), 3, 10).location.coord, Some((3, 8)));
    assert_eq!(CToken::from("é".to_string(), 3, 10).col, 8);
}

#[test]
fn locations_past_the_end() {
    let mut tokenizer = Tokenizer::new("loc.def".to_string(), "unit");
    let unit = tokenizer.request(TokenKind::Unit).unwrap();
    assert_eq!(unit.location.coord, Some((1, 4)));
    let err = tokenizer.request(TokenKind::Semicolon).unwrap_err();
    assert_eq!(err.happen_at.coord, Some((1, 9)));
    assert_eq!(err.happen_at.filename, None);
    assert!(!tokenizer.exists_next());
    assert_eq!(tokenizer.get_now_ref_loc().coord, Some((1, 10)));

    let mut tokenizer = Tokenizer::new("loc.def".to_string(), "a -b");
    tokenizer.request(TokenKind::Identifier).unwrap();
    let err = tokenizer.expect(TokenKind::Allow).unwrap_err();
    assert_eq!(err.happen_at.coord, Some((1, 6)));
}
