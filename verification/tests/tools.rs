//! The tools that read a checked system: listing, tracing and advice.
use sysdc::lang::structure::SysDCSystem;
use sysdc::lang::Parser;
use sysdc::tool::check::{flistup, trace};
use sysdc::tool::eval::duplication::{eval_duplication_stat, kind_name_of, IdIssuer};
use sysdc::tool::eval::{eval_basic_stat, eval_complex_stat, Advice, AdviceLevel};
use sysdc::lang::types::TypeKind;

fn system_of(program: &str) -> SysDCSystem {
    let mut parser = Parser::new();
    parser.parse("test.def".to_string(), program).unwrap();
    parser.check().unwrap()
}

const SAMPLE: &str = r#"
    unit test;

    data A {}

    module M {
        proc p(a: A) {}
        proc q(b: A) {}
        func r(a: A) -> i32 {
            @return x
            @spawn x: i32
        }
    }
"#;

#[test]
fn flistup_lists_every_function() {
    let system = system_of(SAMPLE);
    assert_eq!(
        flistup(&system),
        vec![
            ("Proc".to_string(), ".0.test.M.p".to_string()),
            ("Proc".to_string(), ".0.test.M.q".to_string()),
            ("Func".to_string(), ".0.test.M.r".to_string()),
        ]
    );
}

#[test]
fn trace_finds_a_function_by_full_name() {
    let system = system_of(SAMPLE);
    let f = trace(&system, ".0.test.M.q".to_string()).unwrap();
    assert_eq!(f.name.get_full_name(), ".0.test.M.q");
    assert!(trace(&system, ".0.test.M.zzz".to_string()).is_none());
    assert!(trace(&system, ".0.other.M.q".to_string()).is_none());
}

#[test]
fn sample_and_basic_advice() {
    let advice = sysdc::tool::eval::test();
    assert_eq!(advice.len(), 3);
    assert_eq!(advice[0].title, "Warning 1");
    assert_eq!(advice[1].level, AdviceLevel::Warning);
    assert_eq!(advice[2].level, AdviceLevel::Info);
    assert_eq!(advice[2].title, "Info 1");
    assert_eq!(advice[2].messages, vec!["AAAAAAAAAA".to_string(); 4]);

    let system = system_of(SAMPLE);
    assert_eq!(
        eval_basic_stat(&system),
        vec![Advice::new(AdviceLevel::Info, "基本情報".to_string(), vec!["aaa".to_string()])]
    );
}

#[test]
fn complex_advice() {
    assert_eq!(eval_complex_stat(&system_of(SAMPLE)), None);

    let mut program = String::from("unit big;\nmodule Many {\n");
    for i in 0..13 {
        program.push_str(&format!("    proc p{}() {{}}\n", i));
    }
    program.push_str("    proc wide(a: i32, b: i32, c: i32, d: i32, e: i32, f: i32, g: i32) {}\n");
    program.push_str("    func spawner() -> i32 {\n        @return a\n");
    for v in ["a", "b", "c", "d", "e", "f", "g"] {
        program.push_str(&format!("        @spawn {}: i32\n", v));
    }
    program.push_str("    }\n}\n");
    let advice = eval_complex_stat(&system_of(&program)).unwrap();
    assert_eq!(advice.level, AdviceLevel::Warning);
    assert_eq!(advice.title, "分割可能な処理");
    assert_eq!(
        advice.messages,
        vec![
            ".0.big.Many : 1つのモジュールに属する関数が多すぎる可能性があります".to_string(),
            ".0.big.Many.wide : 引数が多すぎる可能性があります".to_string(),
            ".0.big.Many.spawner : 1つの関数内で作成する変数が多すぎる可能性があります".to_string(),
        ]
    );
}

#[test]
fn duplication_advice() {
    let advice = eval_duplication_stat(&system_of(SAMPLE)).unwrap();
    assert_eq!(advice.level, AdviceLevel::Warning);
    assert_eq!(advice.title, "統合可能な処理");
    assert_eq!(advice.messages, vec![".0.test.M.p / .0.test.M.q".to_string()]);

    let distinct = system_of(
        r#"
        unit test;
        data A {}
        module M {
            proc p(a: A) {}
            proc q() {}
        }
    "#,
    );
    assert_eq!(eval_duplication_stat(&distinct), None);
}

#[test]
fn id_issuer_gives_stable_distinct_ids() {
    let mut issuer: IdIssuer<String> = IdIssuer::new();
    assert_eq!(issuer.get_id("a".to_string()), 0);
    assert_eq!(issuer.get_id("b".to_string()), 1);
    assert_eq!(issuer.get_id("a".to_string()), 0);
    assert_eq!(issuer.get_id("c".to_string()), 2);
    assert_eq!(issuer.get_id("b".to_string()), 1);
}

#[test]
fn kind_names() {
    assert_eq!(kind_name_of(&TypeKind::Int32), "i32");
    assert_eq!(kind_name_of(&TypeKind::Void), "Void");
    assert_eq!(kind_name_of(&TypeKind::Unsolved("x".to_string())), "x");
}
