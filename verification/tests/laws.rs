//! Properties that hold of every input, tried on a few.
use sysdc::cli::interactive::InteractiveCmd;
use sysdc::lang::name::Name;
use sysdc::lang::types::{Type, TypeKind};
use sysdc::lang::token::{TokenKind, Tokenizer};
use sysdc::lang::Parser;

#[test]
fn parent_of_a_child_is_its_base() {
    let root = Name::new_root();
    let unit = Name::new(&root, "unit".to_string());
    let module = Name::new(&unit, "Module".to_string());
    let func = Name::new(&module, "func".to_string());
    assert_eq!(func.get_par_name(false), module);
    assert_eq!(module.get_par_name(false), unit);
    assert_eq!(unit.get_par_name(false), root);
}

#[test]
fn written_kinds_are_read_back() {
    let kinds = vec![
        TypeKind::Int32,
        TypeKind::UInt32,
        TypeKind::Float32,
        TypeKind::Boolean,
        TypeKind::Char,
        TypeKind::Data,
        TypeKind::Void,
    ];
    for kind in kinds {
        let written = kind.serialized_name().unwrap();
        assert_eq!(TypeKind::from_serialized(written), kind);
    }
    assert_eq!(TypeKind::Unsolved("A".to_string()).serialized_name(), None);
    assert_eq!(TypeKind::UnsolvedNoHint.serialized_name(), None);
}

#[test]
fn checking_keeps_the_shape() {
    let mut parser = Parser::new();
    parser
        .parse(
            "shape.def".to_string(),
            r#"
            unit shape;

            data P { x: i32, y: i32 }

            module Geometry {
                func origin() -> P {
                    @return p
                    @spawn p: P
                }

                proc show(p: P) {}
            }
        "#,
        )
        .unwrap();
    let system = parser.check().unwrap();
    assert_eq!(system.units.len(), 1);
    let unit = &system.units[0];
    assert_eq!(unit.name.get_full_name(), ".0.shape");
    assert_eq!(unit.data.len(), 1);
    assert_eq!(unit.data[0].name.get_full_name(), ".0.shape.P");
    assert_eq!(unit.data[0].members.len(), 2);
    assert_eq!(unit.modules.len(), 1);
    let module = &unit.modules[0];
    assert_eq!(module.name.get_full_name(), ".0.shape.Geometry");
    let names: Vec<String> = module.functions.iter().map(|f| f.name.get_full_name()).collect();
    assert_eq!(names, vec![".0.shape.Geometry.origin", ".0.shape.Geometry.show"]);
    assert_eq!(module.functions[0].args.len(), 0);
    assert_eq!(module.functions[1].args.len(), 1);
}

#[test]
fn words_of_a_line_join_back() {
    for line in ["in files a.def b.def", "out json", "a  b", "exit"] {
        let (c, s, a) = InteractiveCmd::parse_input(line.to_string()).unwrap();
        if line.contains(' ') {
            let mut words = vec![c, s];
            words.extend(a);
            assert_eq!(words.join(" "), line);
        } else {
            assert_eq!(c, line);
        }
    }
}

/// Takes the next token, whatever its kind.
fn take_any(t: &mut Tokenizer) -> Option<String> {
    let kinds = [
        TokenKind::Identifier, TokenKind::Unit, TokenKind::From, TokenKind::Import,
        TokenKind::Data, TokenKind::Module, TokenKind::Func, TokenKind::Proc,
        TokenKind::Return, TokenKind::Spawn, TokenKind::Modify, TokenKind::Affect,
        TokenKind::Let, TokenKind::Use, TokenKind::Allow, TokenKind::Mapping,
        TokenKind::Equal, TokenKind::Accessor, TokenKind::Separater, TokenKind::Semicolon,
        TokenKind::ParenthesisBegin, TokenKind::ParenthesisEnd, TokenKind::BracketBegin,
        TokenKind::BracketEnd, TokenKind::AtMark, TokenKind::Plus,
    ];
    for kind in kinds {
        if let Some(tok) = t.expect(kind).unwrap() {
            return Some(tok.orig);
        }
    }
    None
}

#[test]
fn tokens_spell_the_text_without_blanks_and_comments() {
    let text = "unit a.b; % a comment\n with ; symbols %\n\tdata  X{x:i32}\n% open to the end";
    let mut t = Tokenizer::new("spell.def".to_string(), text);
    let mut joined = String::new();
    let mut count = 0;
    while let Some(orig) = take_any(&mut t) {
        assert!(!orig.is_empty());
        joined.push_str(&orig);
        count += 1;
    }
    assert!(!t.exists_next());
    assert_eq!(joined, "unita.b;dataX{x:i32}");
    assert_eq!(count, 12);
}

#[test]
fn namespace_is_the_parent_of_the_parent() {
    let x = Name { name: "x".to_string(), namespace: ".0.a.b".to_string() };
    for u in [false, true] {
        let ns = x.get_namespace(u);
        assert_eq!(ns, Name { name: "a".to_string(), namespace: ".0".to_string() });
        assert_eq!(ns, x.get_par_name(u).get_par_name(u));
    }
    let y = Name { name: "y".to_string(), namespace: ".0._.m._.f".to_string() };
    assert_eq!(y.get_namespace(true), y.get_par_name(true).get_par_name(true));
    assert_eq!(y.get_namespace(false), y.get_par_name(false).get_par_name(false));
}

fn is_solved(t: &Type) -> bool {
    !matches!(t.kind, TypeKind::Unsolved(_) | TypeKind::UnsolvedNoHint)
}

#[test]
fn checking_leaves_no_type_unsolved() {
    let mut parser = Parser::new();
    parser
        .parse(
            "solved.def".to_string(),
            r#"
            unit solved;

            data P { x: i32, next: P }

            module Geometry {
                func origin(q: P) -> P {
                    @return p
                    @spawn p: P {
                        use q;
                        let n = Geometry.size(q.next);
                        return q;
                    }
                }

                func size(p: P) -> i32 {
                    @return s
                    @spawn s: i32
                }

                proc show(p: P) {
                    @affect size(p.next)
                }
            }
        "#,
        )
        .unwrap();
    let system = parser.check().unwrap();
    for unit in &system.units {
        for data in &unit.data {
            assert!(data.members.iter().all(|(_, t)| is_solved(t)));
        }
        for module in &unit.modules {
            for f in &module.functions {
                assert!(is_solved(&f.returns.1));
                assert!(f.args.iter().all(|(_, t)| is_solved(t)));
                assert!(!format!("{:?}", f.annotations).contains("Unsolved"));
            }
        }
    }
}
