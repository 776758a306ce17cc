//! The flow of a system drawn as a graph.
use sysdc::lang::name::Name;
use sysdc::lang::structure::SysDCSystem;
use sysdc::lang::types::{Type, TypeKind};
use sysdc::lang::Parser;
use sysdc::tool::view::{
    flow_ready, gen_annotation_affect_flow, gen_annotation_spawn_flow, gen_flow, has_parent, ReactFlowNodeKind,
};

fn system_of(program: &str) -> SysDCSystem {
    let mut parser = Parser::new();
    parser.parse("test.def".to_string(), program).unwrap();
    parser.check().unwrap()
}

fn name(parts: &[&str]) -> Name {
    let mut n = Name::new_root();
    for p in parts {
        n = Name::new(&n, p.to_string());
    }
    n
}

fn i32_type() -> Type {
    Type::from("i32".to_string())
}

#[test]
fn spawn_flow_nodes_and_edges() {
    let result = (name(&["u", "M", "f", "v"]), i32_type());
    let func = name(&["u", "M", "g"]);
    let args = vec![(name(&["u", "M", "f", "a"]), i32_type())];
    let (nodes, edges) = gen_annotation_spawn_flow(&result, &func, &args);

    let ids: Vec<&str> = nodes.iter().map(|n| n.id.as_str()).collect();
    assert_eq!(ids, vec![".0.u.M.f.v:inner", ".0.u.M.f.v:outer", ".0.u.M.f.v"]);
    assert_eq!(nodes[0].kind, ReactFlowNodeKind::SpawnInner);
    assert_eq!(nodes[0].parent.as_deref(), Some(".0.u.M.f.v:outer"));
    assert_eq!(nodes[1].kind, ReactFlowNodeKind::SpawnOuter);
    assert_eq!(nodes[1].parent.as_deref(), Some(".0.u.M.f"));
    assert_eq!(nodes[2].kind, ReactFlowNodeKind::Var);
    assert!(nodes[2].data.types.is_some());

    let pairs: Vec<(&str, &str)> = edges.iter().map(|e| (e.source.as_str(), e.target.as_str())).collect();
    assert_eq!(
        pairs,
        vec![
            (".0.u.M.f.a", ".0.u.M.f.v:outer"),
            (".0.u.M.f.v:inner", ".0.u.M.g"),
            (".0.u.M.g", ".0.u.M.f.v:inner"),
            (".0.u.M.f.v:outer", ".0.u.M.f.v"),
        ]
    );
}

#[test]
fn affect_flow_nodes_and_edges() {
    let func = name(&["u", "M", "f"]);
    let afunc = name(&["u", "M", "g"]);
    let args = vec![(name(&["u", "M", "f", "a"]), i32_type()), (name(&["u", "M", "f", "b"]), i32_type())];
    let (nodes, edges) = gen_annotation_affect_flow(&func, &afunc, &args);

    let ids: Vec<&str> = nodes.iter().map(|n| n.id.as_str()).collect();
    assert_eq!(
        ids,
        vec![".0.u.M.f:.0.u.M.g:affect:inner", ".0.u.M.f:.0.u.M.g:affect:outer"]
    );
    assert_eq!(nodes[0].kind, ReactFlowNodeKind::AffectInner);
    assert_eq!(nodes[1].kind, ReactFlowNodeKind::AffectOuter);
    assert_eq!(nodes[1].parent.as_deref(), Some(".0.u.M.f"));

    let pairs: Vec<(&str, &str)> = edges.iter().map(|e| (e.source.as_str(), e.target.as_str())).collect();
    assert_eq!(
        pairs,
        vec![
            (".0.u.M.f.a", ".0.u.M.f:.0.u.M.g:affect:outer"),
            (".0.u.M.f.b", ".0.u.M.f:.0.u.M.g:affect:outer"),
            (".0.u.M.f:.0.u.M.g:affect:inner", ".0.u.M.g"),
        ]
    );
}

#[test]
fn system_flow() {
    let system = system_of(
        r#"
        unit test;

        data A {}
        data B {}

        module M {
            func make(a: A) -> B {
                @return b

                @spawn b: B {
                    use a;
                }
            }

            proc touch(a: A, b: B) {
                @affect make(a)
                @modify a {
                    use b;
                }
            }
        }
    "#,
    );
    assert!(flow_ready(&system));
    let (nodes, edges) = gen_flow(&system);
    let kinds: Vec<ReactFlowNodeKind> = nodes.iter().map(|n| n.kind).collect();
    let k = |name: &str| match name {
        "Unit" => ReactFlowNodeKind::Unit,
        "Module" => ReactFlowNodeKind::Module,
        "Function" => ReactFlowNodeKind::Function,
        "Procedure" => ReactFlowNodeKind::Procedure,
        "Argument" => ReactFlowNodeKind::Argument,
        "Var" => ReactFlowNodeKind::Var,
        "DeadVar" => ReactFlowNodeKind::DeadVar,
        "ReturnVar" => ReactFlowNodeKind::ReturnVar,
        "SpawnOuter" => ReactFlowNodeKind::SpawnOuter,
        "SpawnInner" => ReactFlowNodeKind::SpawnInner,
        "AffectOuter" => ReactFlowNodeKind::AffectOuter,
        _ => ReactFlowNodeKind::AffectInner,
    };
    let expected: Vec<ReactFlowNodeKind> = [
        "Unit", "Module", "Function", "Argument", "SpawnInner", "SpawnOuter", "Var", "ReturnVar", "Procedure",
        "Argument", "Argument", "AffectInner", "AffectOuter", "SpawnInner", "SpawnOuter", "Var", "DeadVar",
    ]
    .iter()
    .map(|n| k(n))
    .collect();
    assert_eq!(kinds, expected);
    assert_eq!(nodes[0].id, ".0.test");
    assert_eq!(nodes[0].parent, None);
    assert_eq!(nodes[1].id, ".0.test.M");
    assert_eq!(nodes[1].parent.as_deref(), Some(".0.test"));
    assert_eq!(nodes[2].id, ".0.test.M.make");
    assert_eq!(nodes[2].parent.as_deref(), Some(".0.test.M"));
    assert_eq!(nodes[8].id, ".0.test.M.touch");
    assert_eq!(nodes[16].parent.as_deref(), Some(".0.test.M.touch"));
    assert_eq!(edges.len(), 11);
}

#[test]
fn names_without_parent() {
    assert!(has_parent(&name(&["u"])));
    assert!(has_parent(&Name::new_root()));
    let lonely = Name { name: "_".to_string(), namespace: "_".to_string() };
    assert!(!has_parent(&lonely));
    let _ = TypeKind::Int32;
}
