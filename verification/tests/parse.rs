//! The parser's tests: what each program parses into, compared by full
//! names and types, and programs it must refuse.
use sysdc::lang::name::Name;
use sysdc::lang::types::{Type, TypeKind};
use sysdc::lang::token::Tokenizer;
use sysdc::lang::parse::UnitParser;
use sysdc::compiler::name::Name as CName;
use sysdc::compiler::types::{Type as CType, TypeKind as CTypeKind};
use sysdc::compiler::token::Tokenizer as CTokenizer;
use sysdc::compiler::parse::Parser as CParser;
use sysdc::compiler::structure::unchecked as c;
use sysdc::lang::structure::unchecked::{
    SysDCUnit, SysDCData, SysDCModule, SysDCFunction, SysDCAnnotation, SysDCSpawnDetail,
};

fn show_type(t: &Type) -> String {
    let kind = match &t.kind {
        TypeKind::Int32 => "i32".to_string(),
        TypeKind::UInt32 => "u32".to_string(),
        TypeKind::Float32 => "f32".to_string(),
        TypeKind::Boolean => "bool".to_string(),
        TypeKind::Char => "char".to_string(),
        TypeKind::Data => "Data".to_string(),
        TypeKind::Void => "Void".to_string(),
        TypeKind::Unsolved(hint) => format!("Unsolved({})", hint),
        TypeKind::UnsolvedNoHint => "UnsolvedNoHint".to_string(),
    };
    match &t.refs {
        Some(n) => format!("{}<{}>", kind, n.get_full_name()),
        None => kind,
    }
}

fn show_nt(nt: &(Name, Type)) -> String {
    format!("{}: {}", nt.0.get_full_name(), show_type(&nt.1))
}

fn show_list(v: &Vec<(Name, Type)>) -> String {
    v.iter().map(show_nt).collect::<Vec<String>>().join(", ")
}

fn show_detail(d: &SysDCSpawnDetail) -> String {
    match d {
        SysDCSpawnDetail::Use(n, t) => format!("use {}: {}", n.get_full_name(), show_type(t)),
        SysDCSpawnDetail::Return(n, t) => format!("return {}: {}", n.get_full_name(), show_type(t)),
        SysDCSpawnDetail::LetTo { name, func, args } => {
            format!("let {} = {}({})", name.get_full_name(), show_nt(func), show_list(args))
        }
    }
}

fn show_annotation(a: &SysDCAnnotation) -> String {
    match a {
        SysDCAnnotation::Return(n) => format!("@return {}", n.get_full_name()),
        SysDCAnnotation::Spawn { result, details } => format!(
            "@spawn {} {{ {} }}",
            show_nt(result),
            details.iter().map(show_detail).collect::<Vec<String>>().join("; ")
        ),
        SysDCAnnotation::Modify { target, uses } => {
            format!("@modify {} {{ {} }}", show_nt(target), show_list(uses))
        }
        SysDCAnnotation::Affect { func, args } => {
            format!("@affect {}({})", show_nt(func), show_list(args))
        }
    }
}

fn show_function(f: &SysDCFunction) -> String {
    format!(
        "{}({}) -> {} [{}]",
        f.name.get_full_name(),
        show_list(&f.args),
        show_nt(&f.returns),
        f.annotations.iter().map(show_annotation).collect::<Vec<String>>().join(" ")
    )
}

fn show_unit(u: &SysDCUnit) -> String {
    let data = u
        .data
        .iter()
        .map(|d| format!("data {} {{ {} }}", d.name.get_full_name(), show_list(&d.members)))
        .collect::<Vec<String>>()
        .join("\n");
    let modules = u
        .modules
        .iter()
        .map(|m| {
            format!(
                "module {} {{ {} }}",
                m.name.get_full_name(),
                m.functions.iter().map(show_function).collect::<Vec<String>>().join(" ")
            )
        })
        .collect::<Vec<String>>()
        .join("\n");
    let imports = u.imports.iter().map(|n| n.get_full_name()).collect::<Vec<String>>().join(", ");
    format!("unit {}\nimport {}\n{}\n{}", u.name.get_full_name(), imports, data, modules)
}

fn name(base: &Name, n: &str) -> Name {
    Name::new(base, n.to_string())
}

fn generate_name_for_test() -> Name {
    name(&Name::new_root(), "test")
}

fn parse(program: &str) -> SysDCUnit {
    let tokenizer = Tokenizer::new("test.def".to_string(), program);
    UnitParser::parse(tokenizer).unwrap()
}

fn compare_unit(program: &str, unit: SysDCUnit) {
    assert_eq!(show_unit(&parse(program)), show_unit(&unit));
}

#[test]
fn empty() {
    let program = r#"unit test;"#;
    compare_unit(program, SysDCUnit::new(generate_name_for_test(), vec![], vec![], vec![]));
}

#[test]
fn import_simple() {
    let program = r#"
            unit test;

            from outer import A;
            from outer2.in import B;
        "#;
    let root = Name::new_root();
    let name_import_1 = name(&name(&root, "outer"), "A");
    let name_import_2 = name(&name(&name(&root, "outer2"), "in"), "B");
    let name_imports = vec![name_import_1, name_import_2];
    compare_unit(program, SysDCUnit::new(generate_name_for_test(), vec![], vec![], name_imports));
}

#[test]
fn import_multiple() {
    let program = r#"
            unit test;

            from outer import A, B;
            from outer2.in import C, D, E;
        "#;
    let root = Name::new_root();
    let name_imports = vec![
        name(&name(&root, "outer"), "A"),
        name(&name(&root, "outer"), "B"),
        name(&name(&name(&root, "outer2"), "in"), "C"),
        name(&name(&name(&root, "outer2"), "in"), "D"),
        name(&name(&name(&root, "outer2"), "in"), "E"),
    ];
    compare_unit(program, SysDCUnit::new(generate_name_for_test(), vec![], vec![], name_imports));
}

fn lang_data_empty_ok() {
    let program = r#"
            unit test;

            data A {}
            data B{}
            data C{

            }
            data D
            {}
            data
            E
            {

            }
        "#;
    let n = generate_name_for_test();
    let data = vec![
        SysDCData::new(name(&n, "A"), vec![]),
        SysDCData::new(name(&n, "B"), vec![]),
        SysDCData::new(name(&n, "C"), vec![]),
        SysDCData::new(name(&n, "D"), vec![]),
        SysDCData::new(name(&n, "E"), vec![]),
    ];
    compare_unit(program, SysDCUnit::new(n, data, vec![], vec![]));
}

fn lang_data_has_member_ok() {
    let program = r#"
            unit test;

            data Box {
                x: i32,
                y: UserDefinedData,
            }
        "#;
    let n = generate_name_for_test();
    let name_box = name(&n, "Box");
    let member = vec![
        (name(&name_box, "x"), Type::from("i32".to_string())),
        (name(&name_box, "y"), Type::from("UserDefinedData".to_string())),
    ];
    let data = SysDCData::new(name_box, member);
    compare_unit(program, SysDCUnit::new(n, vec![data], vec![], vec![]));
}

fn lang_refused_data_has_illegal_member_def_1() -> bool {
    let tokenizer = Tokenizer::new("test.def".to_string(), r#"
            unit test;

            data Box {
                x: i32
                y: i32
            }
        "#);
    UnitParser::parse(tokenizer).is_err()
}

fn lang_refused_data_has_illegal_member_def_2() -> bool {
    let tokenizer = Tokenizer::new("test.def".to_string(), r#"
            unit test;

            data Box {
                x: i32,
                y:
            }
        "#);
    UnitParser::parse(tokenizer).is_err()
}

fn lang_refused_data_has_illegal_member_def_3() -> bool {
    let tokenizer = Tokenizer::new("test.def".to_string(), r#"
            unit test;

            data Box
                x: i32,
                y: i32
        "#);
    UnitParser::parse(tokenizer).is_err()
}

fn lang_module_empty_ok() {
    let program = r#"
            unit test;

            module A {}
            module B{}
            module C{

            }
            module D
            {}
            module
            E
            {

            }
        "#;
    let n = generate_name_for_test();
    let modules = vec![
        SysDCModule::new(name(&n, "A"), vec![]),
        SysDCModule::new(name(&n, "B"), vec![]),
        SysDCModule::new(name(&n, "C"), vec![]),
        SysDCModule::new(name(&n, "D"), vec![]),
        SysDCModule::new(name(&n, "E"), vec![]),
    ];
    compare_unit(program, SysDCUnit::new(n, vec![], modules, vec![]));
}

fn lang_function_only_has_return() {
    let program = r#"
            unit test;

            module BoxModule {
                new() -> Box {
                    @return box
                }
            }
        "#;
    let n = generate_name_for_test();
    let name_module = name(&n, "BoxModule");
    let name_func = name(&name_module, "new");
    let name_func_ret = name(&name_func, "box");
    let func_returns = (name_func_ret, Type::from("Box".to_string()));
    let func = SysDCFunction::new(name_func, vec![], func_returns, vec![]);
    let module = SysDCModule::new(name_module, vec![func]);
    compare_unit(program, SysDCUnit::new(n, vec![], vec![module], vec![]));
}

fn lang_function_has_return_and_spawn() {
    let program = r#"
            unit test;

            module BoxModule {
                new() -> Box {
                    @return box

                    @spawn box: Box
                }
            }
        "#;
    let n = generate_name_for_test();
    let name_module = name(&n, "BoxModule");
    let name_func = name(&name_module, "new");
    let name_func_spawn_box = name(&name_func, "box");
    let name_func_ret = name(&name_func, "box");
    let func_spawns = vec![SysDCAnnotation::new_spawn(
        (name_func_spawn_box, Type::from("Box".to_string())),
        vec![],
    )];
    let func_returns = (name_func_ret, Type::from("Box".to_string()));
    let func = SysDCFunction::new(name_func, vec![], func_returns, func_spawns);
    let module = SysDCModule::new(name_module, vec![func]);
    compare_unit(program, SysDCUnit::new(n, vec![], vec![module], vec![]));
}

fn lang_function_has_full() {
    let program = r#"
            unit test;

            module BoxModule {
                move(box: Box, dx: i32, dy: i32) -> Box {
                    @return movedBox

                    @spawn movedBox: Box {
                        use box;
                        use dx, dy;

                        let movedBox = UnknownModule.func(dx);

                        return movedBox;
                    }
                }
            }
        "#;
    let n = generate_name_for_test();
    let name_module = name(&n, "BoxModule");
    let name_func = name(&name_module, "move");
    let func_args = vec![
        (name(&name_func, "box"), Type::from("Box".to_string())),
        (name(&name_func, "dx"), Type::from("i32".to_string())),
        (name(&name_func, "dy"), Type::from("i32".to_string())),
    ];
    let func_spawns = vec![SysDCAnnotation::new_spawn(
        (name(&name_func, "movedBox"), Type::from("Box".to_string())),
        vec![
            SysDCSpawnDetail::new_use(name(&name_func, "_.box"), Type::new_unsovled_nohint()),
            SysDCSpawnDetail::new_use(name(&name_func, "_._.dx"), Type::new_unsovled_nohint()),
            SysDCSpawnDetail::new_use(name(&name_func, "_._.dy"), Type::new_unsovled_nohint()),
            SysDCSpawnDetail::new_let_to(
                name(&name_func, "_._._.movedBox"),
                (Name::new_root(), Type::from("UnknownModule.func".to_string())),
                vec![(name(&name_func, "_._._.dx"), Type::new_unsovled_nohint())],
            ),
            SysDCSpawnDetail::new_return(name(&name_func, "_._._._.movedBox"), Type::new_unsovled_nohint()),
        ],
    )];
    let func_returns = (name(&name_func, "movedBox"), Type::from("Box".to_string()));
    let func = SysDCFunction::new(name_func, func_args, func_returns, func_spawns);
    let module = SysDCModule::new(name_module, vec![func]);
    compare_unit(program, SysDCUnit::new(n, vec![], vec![module], vec![]));
}

fn lang_refused_illegal_function_1() -> bool {
    let tokenizer = Tokenizer::new("test.def".to_string(), r#"
            unit test;

            module BoxModule {
                move() -> {

                }
            }
        "#);
    UnitParser::parse(tokenizer).is_err()
}

fn lang_refused_illegal_function_2() -> bool {
    let tokenizer = Tokenizer::new("test.def".to_string(), r#"
            unit test;

            module BoxModule {
                move(box: Box, dx: i32, dy: ) -> i32 {

                }
            }
        "#);
    UnitParser::parse(tokenizer).is_err()
}

fn lang_refused_illegal_function_3() -> bool {
    let tokenizer = Tokenizer::new("test.def".to_string(), r#"
            unit test;

            module BoxModule {
                move() {

                }
            }
        "#);
    UnitParser::parse(tokenizer).is_err()
}

fn lang_full() {
    let program = r#"
            unit test;

            from outer import A;
            from outer2.in import C, D, E;

            data Box {
                x: i32,
                y: i32
            }

            module BoxModule {
                move(box: Box, dx: i32, dy: i32) -> Box {
                    @return movedBox

                    @spawn movedBox: Box {
                        use box, dx, dy;

                        let movedBox = UnknownModule.func(dx);

                        return movedBox;
                    }
                }
            }
        "#;
    let root = Name::new_root();
    let name_imports = vec![
        name(&name(&root, "outer"), "A"),
        name(&name(&name(&root, "outer2"), "in"), "C"),
        name(&name(&name(&root, "outer2"), "in"), "D"),
        name(&name(&name(&root, "outer2"), "in"), "E"),
    ];
    let n = generate_name_for_test();
    let name_data = name(&n, "Box");
    let name_module = name(&n, "BoxModule");
    let name_func = name(&name_module, "move");
    let func_args = vec![
        (name(&name_func, "box"), Type::from("Box".to_string())),
        (name(&name_func, "dx"), Type::from("i32".to_string())),
        (name(&name_func, "dy"), Type::from("i32".to_string())),
    ];
    let func_spawns = vec![SysDCAnnotation::new_spawn(
        (name(&name_func, "movedBox"), Type::from("Box".to_string())),
        vec![
            SysDCSpawnDetail::new_use(name(&name_func, "_.box"), Type::new_unsovled_nohint()),
            SysDCSpawnDetail::new_use(name(&name_func, "_.dx"), Type::new_unsovled_nohint()),
            SysDCSpawnDetail::new_use(name(&name_func, "_.dy"), Type::new_unsovled_nohint()),
            SysDCSpawnDetail::new_let_to(
                name(&name_func, "_._.movedBox"),
                (Name::new_root(), Type::from("UnknownModule.func".to_string())),
                vec![(name(&name_func, "_._.dx"), Type::new_unsovled_nohint())],
            ),
            SysDCSpawnDetail::new_return(name(&name_func, "_._._.movedBox"), Type::new_unsovled_nohint()),
        ],
    )];
    let func_returns = (name(&name_func, "movedBox"), Type::from("Box".to_string()));
    let func = SysDCFunction::new(name_func, func_args, func_returns, func_spawns);
    let module = SysDCModule::new(name_module, vec![func]);
    let data_members = vec![
        (name(&name_data, "x"), Type::from("i32".to_string())),
        (name(&name_data, "y"), Type::from("i32".to_string())),
    ];
    let data = SysDCData::new(name_data, data_members);
    compare_unit(program, SysDCUnit::new(n, vec![data], vec![module], name_imports));
}

/* ----- the compiler's parser ----- */

fn c_show_type(t: &CType) -> String {
    let kind = match &t.kind {
        CTypeKind::Int32 => "i32".to_string(),
        CTypeKind::Data => "Data".to_string(),
        CTypeKind::Unsolved(hint) => format!("Unsolved({})", hint),
        CTypeKind::UnsolvedNoHint => "UnsolvedNoHint".to_string(),
    };
    match &t.refs {
        Some(n) => format!("{}<{}>", kind, n.get_global_name()),
        None => kind,
    }
}

fn c_show_nt(nt: &(CName, CType)) -> String {
    format!("{}: {}", nt.0.get_global_name(), c_show_type(&nt.1))
}

fn c_show_list(v: &Vec<(CName, CType)>) -> String {
    v.iter().map(c_show_nt).collect::<Vec<String>>().join(", ")
}

fn c_show_child(d: &c::SysDCSpawnChild) -> String {
    match d {
        c::SysDCSpawnChild::Use(n, t) => format!("use {}: {}", n.get_global_name(), c_show_type(t)),
        c::SysDCSpawnChild::Return(n, t) => format!("return {}: {}", n.get_global_name(), c_show_type(t)),
        c::SysDCSpawnChild::LetTo { name, func, args } => {
            format!("let {} = {}({})", name.get_global_name(), c_show_nt(func), c_show_list(args))
        }
    }
}

fn c_show_function(f: &c::SysDCFunction) -> String {
    let ret = match &f.returns {
        Some(r) => c_show_nt(r),
        None => "-".to_string(),
    };
    let spawns = f
        .spawns
        .iter()
        .map(|s| {
            format!(
                "@spawn {} {{ {} }}",
                c_show_nt(&s.result),
                s.details.iter().map(c_show_child).collect::<Vec<String>>().join("; ")
            )
        })
        .collect::<Vec<String>>()
        .join(" ");
    format!("{}({}) -> {} [{}]", f.name.get_global_name(), c_show_list(&f.args), ret, spawns)
}

fn c_show_unit(u: &c::SysDCUnit) -> String {
    let data = u
        .data
        .iter()
        .map(|d| format!("data {} {{ {} }}", d.name.get_global_name(), c_show_list(&d.members)))
        .collect::<Vec<String>>()
        .join("\n");
    let modules = u
        .modules
        .iter()
        .map(|m| {
            format!(
                "module {} {{ {} }}",
                m.name.get_global_name(),
                m.functions.iter().map(c_show_function).collect::<Vec<String>>().join(" ")
            )
        })
        .collect::<Vec<String>>()
        .join("\n");
    format!("unit {}\n{}\n{}", u.name.get_global_name(), data, modules)
}

fn c_name(base: &CName, n: &str) -> CName {
    CName::from(base, n.to_string())
}

fn c_name_for_test() -> CName {
    c_name(&CName::new_root(), "test")
}

fn c_parse(program: &str) -> Result<c::SysDCUnit, sysdc::compiler::error::CompileError> {
    let program = program.to_string();
    let tokenizer = CTokenizer::new(&program);
    CParser::parse(tokenizer, c_name_for_test())
}

fn c_compare_unit(program: &str, unit: c::SysDCUnit) {
    assert_eq!(c_show_unit(&c_parse(program).unwrap()), c_show_unit(&unit));
}

fn ct(s: &str) -> CType {
    CType::from(s.to_string())
}

fn compiler_data_empty_ok() {
    let n = c_name_for_test();
    let data = vec![
        c::SysDCData::new(c_name(&n, "A"), vec![]),
        c::SysDCData::new(c_name(&n, "B"), vec![]),
        c::SysDCData::new(c_name(&n, "C"), vec![]),
        c::SysDCData::new(c_name(&n, "D"), vec![]),
        c::SysDCData::new(c_name(&n, "E"), vec![]),
    ];
    c_compare_unit(r#"
            data A {}
            data B{}
            data C{   

            }
            data D
            {}
            data
            E
            {

            }
        "#, c::SysDCUnit::new(n, data, vec![]));
}

fn compiler_data_has_member_ok() {
    let n = c_name_for_test();
    let name_box = c_name(&n, "Box");
    let member = vec![(c_name(&name_box, "x"), ct("i32")), (c_name(&name_box, "y"), ct("UserDefinedData"))];
    let data = c::SysDCData::new(name_box, member);
    c_compare_unit(r#"
            data Box {
                x: i32,
                y: UserDefinedData,
            }
        "#, c::SysDCUnit::new(n, vec![data], vec![]));
}

fn compiler_module_empty_ok() {
    let n = c_name_for_test();
    let modules = vec![
        c::SysDCModule::new(c_name(&n, "A"), vec![]),
        c::SysDCModule::new(c_name(&n, "B"), vec![]),
        c::SysDCModule::new(c_name(&n, "C"), vec![]),
        c::SysDCModule::new(c_name(&n, "D"), vec![]),
        c::SysDCModule::new(c_name(&n, "E"), vec![]),
    ];
    c_compare_unit(r#"
            module A {}
            module B{}
            module C{   

            }
            module D
            {}
            module
            E
            {

            }
        "#, c::SysDCUnit::new(n, vec![], modules));
}

fn compiler_function_only_has_return() {
    let n = c_name_for_test();
    let name_module = c_name(&n, "BoxModule");
    let name_func = c_name(&name_module, "new");
    let func_returns = (c_name(&name_func, "box"), ct("Box"));
    let func = c::SysDCFunction::new(name_func, vec![], func_returns, vec![]);
    let module = c::SysDCModule::new(name_module, vec![func]);
    c_compare_unit(r#"
            module BoxModule {
                new() -> Box {
                    @return box
                }
            }
        "#, c::SysDCUnit::new(n, vec![], vec![module]));
}

fn compiler_function_has_return_and_spawn() {
    let n = c_name_for_test();
    let name_module = c_name(&n, "BoxModule");
    let name_func = c_name(&name_module, "new");
    let spawns = vec![c::SysDCSpawn::new((c_name(&name_func, "box"), ct("Box")), vec![])];
    let func_returns = (c_name(&name_func, "box"), ct("Box"));
    let func = c::SysDCFunction::new(name_func, vec![], func_returns, spawns);
    let module = c::SysDCModule::new(name_module, vec![func]);
    c_compare_unit(r#"
            module BoxModule {
                new() -> Box {
                    @return box

                    @spawn box: Box
                }
            }
        "#, c::SysDCUnit::new(n, vec![], vec![module]));
}

fn compiler_move_function(n: &CName, uses: [&str; 4], let_ns: &str, ret_ns: &str) -> c::SysDCModule {
    let name_module = c_name(n, "BoxModule");
    let name_func = c_name(&name_module, "move");
    let func_args = vec![
        (c_name(&name_func, "box"), ct("Box")),
        (c_name(&name_func, "dx"), ct("i32")),
        (c_name(&name_func, "dy"), ct("i32")),
    ];
    let mut details: Vec<c::SysDCSpawnChild> = uses
        .iter()
        .map(|u| c::SysDCSpawnChild::new_use(c_name(&name_func, u), CType::new_unsovled_nohint()))
        .collect();
    details.push(c::SysDCSpawnChild::new_let_to(
        c_name(&name_func, &format!("{}movedBox", let_ns)),
        (CName::new_root(), ct("UnknownModule.func")),
        vec![(c_name(&name_func, &format!("{}dx", let_ns)), CType::new_unsovled_nohint())],
    ));
    details.push(c::SysDCSpawnChild::new_return(
        c_name(&name_func, &format!("{}movedBox", ret_ns)),
        CType::new_unsovled_nohint(),
    ));
    let spawns = vec![c::SysDCSpawn::new((c_name(&name_func, "movedBox"), ct("Box")), details)];
    let func_returns = (c_name(&name_func, "movedBox"), ct("Box"));
    let func = c::SysDCFunction::new(name_func, func_args, func_returns, spawns);
    c::SysDCModule::new(name_module, vec![func])
}

fn compiler_function_has_full() {
    let n = c_name_for_test();
    let module = compiler_move_function(&n, ["box.x", "box.y", "_.dx", "_.dy"], "_._.", "_._._.");
    c_compare_unit(r#"
            module BoxModule {
                move(box: Box, dx: i32, dy: i32) -> Box {
                    @return movedBox

                    @spawn movedBox: Box {
                        use box.x, box.y;
                        use dx, dy;

                        let movedBox = UnknownModule.func(dx);

                        return movedBox;
                    }
                }
            }
        "#, c::SysDCUnit::new(n, vec![], vec![module]));
}

fn compiler_full() {
    let n = c_name_for_test();
    let name_data = c_name(&n, "Box");
    let module = compiler_move_function(&n, ["box.x", "box.y", "dx", "dy"], "_.", "_._.");
    let data_members = vec![(c_name(&name_data, "x"), ct("i32")), (c_name(&name_data, "y"), ct("i32"))];
    let data = c::SysDCData::new(name_data, data_members);
    c_compare_unit(r#"
            data Box {
                x: i32,
                y: i32
            }

            module BoxModule {
                move(box: Box, dx: i32, dy: i32) -> Box {
                    @return movedBox

                    @spawn movedBox: Box {
                        use box.x, box.y, dx, dy;

                        let movedBox = UnknownModule.func(dx);

                        return movedBox;
                    }
                }
            }
        "#, c::SysDCUnit::new(n, vec![data], vec![module]));
}

#[test]
fn parse_data_empty_ok() {
    lang_data_empty_ok();
    compiler_data_empty_ok();
}

#[test]
fn parse_data_has_member_ok() {
    lang_data_has_member_ok();
    compiler_data_has_member_ok();
}

#[test]
fn parse_module_empty_ok() {
    lang_module_empty_ok();
    compiler_module_empty_ok();
}

#[test]
fn parse_function_only_has_return() {
    lang_function_only_has_return();
    compiler_function_only_has_return();
}

#[test]
fn parse_function_has_return_and_spawn() {
    lang_function_has_return_and_spawn();
    compiler_function_has_return_and_spawn();
}

#[test]
fn parse_function_has_full() {
    lang_function_has_full();
    compiler_function_has_full();
}

#[test]
fn parse_full() {
    lang_full();
    compiler_full();
}

#[test]
#[should_panic]
fn parse_data_has_illegal_member_def_1() {
    let refused = [lang_refused_data_has_illegal_member_def_1(), c_parse(r#"
            data Box {
                x: i32
                y: i32
            }
        "#).is_err()];
    if refused.iter().all(|r| *r) {
        panic!("refused");
    }
}

#[test]
#[should_panic]
fn parse_data_has_illegal_member_def_2() {
    let refused = [lang_refused_data_has_illegal_member_def_2(), c_parse(r#"
            data Box {
                x: i32,
                y:
            }
        "#).is_err()];
    if refused.iter().all(|r| *r) {
        panic!("refused");
    }
}

#[test]
#[should_panic]
fn parse_data_has_illegal_member_def_3() {
    let refused = [lang_refused_data_has_illegal_member_def_3(), c_parse(r#"
            data Box
                x: i32,
                y: i32
        "#).is_err()];
    if refused.iter().all(|r| *r) {
        panic!("refused");
    }
}

#[test]
#[should_panic]
fn parse_illegal_function_1() {
    let refused = [lang_refused_illegal_function_1(), c_parse(r#"
            module BoxModule {
                move() -> {

                }
            }
        "#).is_err()];
    if refused.iter().all(|r| *r) {
        panic!("refused");
    }
}

#[test]
#[should_panic]
fn parse_illegal_function_2() {
    let refused = [lang_refused_illegal_function_2(), c_parse(r#"
            module BoxModule {
                move(box: Box, dx: i32, dy: ) -> i32 {

                }
            }
        "#).is_err()];
    if refused.iter().all(|r| *r) {
        panic!("refused");
    }
}

#[test]
#[should_panic]
fn parse_illegal_function_3() {
    let refused = [lang_refused_illegal_function_3(), c_parse(r#"
            module BoxModule {
                move() {

                }
            }
        "#).is_err()];
    if refused.iter().all(|r| *r) {
        panic!("refused");
    }
}
