//! The checking tests: programs that must pass the checker, and programs
//! it must refuse.
use sysdc::lang::Parser;
use sysdc::compiler::Compiler;

fn check(programs: Vec<&str>) {
    let mut parser = Parser::default();
    for program in programs {
        parser.parse("check.def".to_string(), program).unwrap();
    }
    parser.check().unwrap();
}

/// Whether the programs are refused, by the parser or by the checker.
fn check_refused(programs: Vec<&str>) -> bool {
    let mut parser = Parser::default();
    for program in programs {
        if parser.parse("check.def".to_string(), program).is_err() {
            return true;
        }
    }
    parser.check().is_err()
}

fn compile(program: &str) {
    let mut compiler = Compiler::new();
    compiler.add_unit(program.to_string()).unwrap();
    compiler.generate_system().unwrap();
}

/// Whether the program is refused by the compiler.
fn compile_refused(program: &str) -> bool {
    let mut compiler = Compiler::new();
    if compiler.add_unit(program.to_string()).is_err() {
        return true;
    }
    compiler.generate_system().is_err()
}

#[test]
fn data_only_has_primitive_member() {
    check(vec![r#"
            unit test;

            data Test {
                a: i32,
                b: i32,
                c: i32
            }
        "#]);
}

#[test]
fn data_has_user_defined_type_member() {
    check(vec![r#"
            unit test;

            data A {
                a: i32
            }

            data Test {
                a: A,
                b: i32,
                c: A
            }
        "#]);
}

#[test]
fn data_has_recursive_member() {
    check(vec![r#"
            unit test;

            data A {
                a: A
            }
        "#]);
}

#[test]
#[should_panic]
fn data_has_undefined_typed_member() {
    let refused = [
        check_refused(vec![r#"
            unit test;

            data Test {
                a: i32,
                b: Unknown
            }
        "#]),
    ];
    if refused.iter().all(|r| *r) {
        panic!("refused");
    }
}

#[test]
fn module_simple() {
    check(vec![r#"
            unit test;

            data A {
                a: i32,
                b: i32
            }

            module TestModule {
                func test(a: A) -> A {
                    @return a
                }
            }
        "#]);
}

#[test]
fn module_with_affect_1() {
    check(vec![r#"
            unit test;

            data A {}

            data B {}

            module TestModuleA {
                proc test(a: A, b: B) {}
            }

            module TestModuleB {
                proc test(a: A, b: B) {
                    @affect TestModuleA.test(a, b)
                }
            }
        "#]);
}

#[test]
fn module_with_affect_2() {
    check(vec![r#"
            unit test;

            data A {}

            data B {}

            module TestModuleA {
                proc test(a: A, b: B) {
                    @affect test2(a, b)
                }

                proc test2(a: A, b: B) {}
            }
        "#]);
}

#[test]
#[should_panic]
fn module_with_affect_failure_1() {
    let refused = [
        check_refused(vec![r#"
            unit test;

            data A {}

            data B {}

            module TestModuleA {
                proc test(a: A, b: B) {
                    @affect test2(a)
                }

                proc test2(a: A, b: B) {}
            }
        "#]),
    ];
    if refused.iter().all(|r| *r) {
        panic!("refused");
    }
}

#[test]
fn module_with_modify_1() {
    check(vec![r#"
            unit test;

            data A {}

            data B {}

            data C {}

            module TestModule {
                proc test(a: A, b: B, c: C) {
                    @modify a {
                        use b, c;
                    }
                }
            }
        "#]);
}

#[test]
fn module_with_modify_2() {
    check(vec![r#"
            unit test;

            data A {}

            data B {}

            data C {}

            module TestModule {
                proc test(a: A, b: B, c: C) {
                    @modify a
                    @modify b
                    @modify c
                }
            }
        "#]);
}

#[test]
#[should_panic]
fn module_with_modify_failure_1() {
    let refused = [
        check_refused(vec![r#"
            unit test;

            data A {}

            data B {
                a: i32
            }

            module TestModule {
                proc test(a: A, b: B, c: C) {
                    @modify a {
                        use b.a;
                    }
                }
            }
        "#]),
    ];
    if refused.iter().all(|r| *r) {
        panic!("refused");
    }
}

#[test]
#[should_panic]
fn module_with_modify_failure_2() {
    let refused = [
        check_refused(vec![r#"
            unit test;

            data A {}

            data B {
                a: i32
            }

            module TestModule {
                proc test(a: A, b: B, c: C) {
                    @modify a {
                        use b, c;
                    }
                }
            }
        "#]),
    ];
    if refused.iter().all(|r| *r) {
        panic!("refused");
    }
}

#[test]
fn module_with_spawn() {
    check(vec![r#"
            unit test;

            data A {
                a: B,
                b: B
            }

            data B {
                a: C,
                b: C
            }

            data C {
                a: i32,
                b: i32
            }

            module TestModule {
                func test(a: A) -> A {
                    @return b

                    @spawn b: A {
                        use a;
                        let tmp = receiveA(a);
                        let tmp1 = receiveB(a.a);
                        let tmp2 = receiveB(a.b);
                        let tmp3 = receiveC(a.a.a);
                        let tmp4 = receiveC(a.a.b);
                        let tmp5 = receiveC(a.b.a);
                        let tmp6 = receiveC(a.b.b);
                        let tmp7 = receiveInt32(a.a.a.a);
                        let tmp8 = receiveInt32(a.a.a.b);
                        let tmp9 = receiveInt32(a.a.b.a);
                        let tmp10 = receiveInt32(a.a.b.b);
                        let tmp11 = receiveInt32(a.b.a.a);
                        let tmp12 = receiveInt32(a.b.a.b);
                        let tmp13 = receiveInt32(a.b.b.a);
                        let tmp14 = receiveInt32(a.b.b.b);
                    }
                }

                func receiveA(a: A) -> i32 {
                    @return tmp
                    @spawn tmp: i32
                }

                func receiveB(b: B) -> i32 {
                    @return tmp
                    @spawn tmp: i32
                }

                func receiveC(c: C) -> i32 {
                    @return tmp
                    @spawn tmp: i32
                }

                func receiveInt32(i: i32) -> i32 {
                    @return tmp
                    @spawn tmp: i32
                }
            }
        "#]);
}

#[test]
#[should_panic]
fn module_with_spawn_failure_1() {
    let refused = [
        check_refused(vec![r#"
            unit test;

            data A {
                a: i32,
                b: i32
            }

            module TestModule {
                func test(a: A) -> A {
                    @return b

                    @spawn b: A {
                        use aaa;
                    }
                }
            }
        "#]),
    ];
    if refused.iter().all(|r| *r) {
        panic!("refused");
    }
}

#[test]
#[should_panic]
fn module_with_spawn_failure_2() {
    let refused = [
        check_refused(vec![r#"
            unit test;

            data A {
                a: i32,
                b: i32
            }

            module TestModule {
                func test(a: A) -> A {
                    @return b

                    @spawn b: A {
                        use a;
                        let tmp = receiveInt32(a.c);
                    }
                }

                func receiveInt32(i: i32) -> i32 {
                    @return tmp
                    @spawn tmp: i32
                }
            }
        "#]),
    ];
    if refused.iter().all(|r| *r) {
        panic!("refused");
    }
}

#[test]
#[should_panic]
fn module_with_spawn_failure_3() {
    let refused = [
        check_refused(vec![r#"
            unit test;

            data A {
                a: B,
                b: B
            }

            data B {
                a: C,
                b: C
            }

            data C {
                a: i32,
                b: i32
            }

            module TestModule {
                func test(a: A) -> A {
                    @return b

                    @spawn b: A {
                        use a.b.a.c;
                    }
                }
            }
        "#]),
    ];
    if refused.iter().all(|r| *r) {
        panic!("refused");
    }
}

#[test]
fn ref_function_using_completed_name_1() {
    check(vec![r#"
            unit test;

            data A {}

            module AModule {
                func new() -> A {
                    @return a

                    @spawn a: A
                }
            }

            module TestModule {
                func test() -> A {
                    @return a

                    @spawn a: A {
                        let b = AModule.new();
                        return b;
                    }
                }
            }
        "#]);
}

#[test]
fn ref_function_using_completed_name_2() {
    check(vec![r#"
            unit test;

            data A {}

            module TestModule {
                func new() -> A {
                    @return a

                    @spawn a: A
                }

                func test() -> A {
                    @return a

                    @spawn a: A {
                        let b = TestModule.new();
                        return b;
                    }
                }
            }
        "#]);
}

#[test]
fn ref_function_using_uncompleted_name() {
    check(vec![r#"
            unit test;

            data A {}

            module TestModule {
                func new() -> A {
                    @return a

                    @spawn a: A
                }

                func test() -> A {
                    @return a

                    @spawn a: A {
                        let b = new();
                        return b;
                    }
                }
            }
        "#]);
}

#[test]
#[should_panic]
fn ref_function_using_completed_name_failure() {
    let refused = [
        check_refused(vec![r#"
            unit test;

            data A {}

            module TestModule {
                func new() -> A {
                    @return a

                    @spawn a: A
                }

                func test() -> A {
                    @return a

                    @spawn a: A {
                        let b = TestModule.new2();
                        return b;
                    }
                }
            }
        "#]),
    ];
    if refused.iter().all(|r| *r) {
        panic!("refused");
    }
}

#[test]
#[should_panic]
fn ref_function_using_uncompleted_name_failure() {
    let refused = [
        check_refused(vec![r#"
            unit test;

            data A {}

            module TestModule {
                func new() -> A {
                    @return a

                    @spawn a: A
                }

                func test() -> A {
                    @return a

                    @spawn a: A {
                        let b = new2();
                        return b;
                    }
                }
            }
        "#]),
    ];
    if refused.iter().all(|r| *r) {
        panic!("refused");
    }
}

#[test]
fn function_argument_check_ok() {
    check(vec![r#"
            unit test;

            data A {}
            data B {}
            data C {}

            module TestModule {
                func test() -> A {
                    @return a

                    @spawn a: A {
                        let tmp1 = genA();
                        let tmp2 = genB(tmp1);
                        let tmp3 = genC(tmp1, tmp2);
                    }
                }

                func genA() -> A {
                    @return a

                    @spawn a: A
                }

                func genB(a: A) -> B {
                    @return b

                    @spawn b: B {
                        use a;
                    }
                }

                func genC(a: A, b: B) -> C {
                    @return c

                    @spawn c: C {
                        use a, b;
                    }
                }
            }
        "#]);
}

#[test]
#[should_panic]
fn function_argument_check_ng_1() {
    let refused = [
        check_refused(vec![r#"
            unit test;

            data A {}
            data B {}
            data C {}

            module TestModule {
                func test() -> A {
                    @return a

                    @spawn a: A {
                        let tmp1 = genA();
                        let tmp2 = genB(tmp1);
                        let tmp3 = genC(tmp1, tmp1);
                    }
                }

                func genA() -> A {
                    @return a

                    @spawn a: A
                }

                func genB(a: A) -> B {
                    @return b

                    @spawn b: B {
                        use a;
                    }
                }

                func genC(a: A, b: B) -> C {
                    @return c

                    @spawn c: C {
                        use a, b;
                    }
                }
            }
        "#]),
    ];
    if refused.iter().all(|r| *r) {
        panic!("refused");
    }
}

#[test]
#[should_panic]
fn function_argument_check_ng_2() {
    let refused = [
        check_refused(vec![r#"
            unit test;

            module TestModule {
                func test(a: i32) -> i32 {
                    @return result

                    @spawn result: i32 {
                        use a;
                        let val = test2(a);
                        return val;
                    }
                }

                func test2(a: i32, b: i32) -> i32 {
                    @return result
                    @spawn result: i32
                }
            }
        "#]),
    ];
    if refused.iter().all(|r| *r) {
        panic!("refused");
    }
}

#[test]
fn function_return_check_ok() {
    check(vec![r#"
            unit test;

            module TestModule {
                func test() -> i32 {
                    @return a

                    @spawn a: i32
                }
            }
        "#]);
}

#[test]
#[should_panic]
fn function_return_check_ng() {
    let refused = [
        check_refused(vec![r#"
            unit test;

            data A {}

            module TestModule {
                func test() -> i32 {
                    @return a

                    @spawn a: A
                }
            }
        "#]),
    ];
    if refused.iter().all(|r| *r) {
        panic!("refused");
    }
}

#[test]
fn check_in_spawn_return_check_ok() {
    check(vec![r#"
            unit test;

            module TestModule {
                func test() -> i32 {
                    @return a

                    @spawn a: i32 {
                        let b = gen_i32();
                        return b;
                    }
                }

                func gen_i32() -> i32 {
                    @return a

                    @spawn a: i32
                }
            }
        "#]);
    check(vec![r#"
            unit test;

            module TestModule {
                test() -> i32 {
                    @return a

                    @spawn a: i32 {
                        let b = gen_i32();
                        return b;
                    }
                }

                gen_i32() -> i32 {
                    @return a

                    @spawn a: i32
                }
            }
        "#]);
    compile(r#"
            unit test;

            module TestModule {
                test() -> i32 {
                    @return a

                    @spawn a: i32 {
                        let b = gen_i32();
                        return b;
                    }
                }

                gen_i32() -> i32 {
                    @return a

                    @spawn a: i32
                }
            }
        "#);
}

#[test]
#[should_panic]
fn check_in_spawn_return_check_ng() {
    let refused = [
        check_refused(vec![r#"
            unit test;

            data A {}

            module TestModule {
                func test() -> i32 {
                    @return a

                    @spawn a: i32 {
                        let b = gen_A();
                        return b;
                    }
                }

                func gen_A() -> A {
                    @return a

                    @spawn a: A
                }
            }
        "#]),
        check_refused(vec![r#"
            unit test;

            data A {}

            module TestModule {
                test() -> i32 {
                    @return a

                    @spawn a: i32 {
                        let b = gen_A();
                        return b;
                    }
                }

                gen_A() -> A {
                    @return a

                    @spawn a: A
                }
            }
        "#]),
        compile_refused(r#"
            unit test;

            data A {}

            module TestModule {
                test() -> i32 {
                    @return a

                    @spawn a: i32 {
                        let b = gen_A();
                        return b;
                    }
                }

                gen_A() -> A {
                    @return a

                    @spawn a: A
                }
            }
        "#),
    ];
    if refused.iter().all(|r| *r) {
        panic!("refused");
    }
}

#[test]
fn procedure_simple() {
    check(vec![r#"
            unit test;

            module TestModule {
                proc test() { }
            }
        "#]);
}

#[test]
fn check_import_data_in_other_unit_simple() {
    check(vec![r#"
            unit test.A;

            data A {}
        "#, r#"
            unit test.B;

            from test.A import A;

            data B {
                a: A
            }
        "#]);
    check(vec![r#"
            unit test.A;

            data A {}
        "#, r#"
            unit test.B;

            from test.A import A;

            data B {
                a: A
            }
        "#]);
}

#[test]
fn check_import_data_in_other_unit_recursive() {
    check(vec![r#"
            unit test.A;

            data A {
                b: B
            }

            data B {
                c: C
            }

            data C {
                body: i32
            }
        "#, r#"
            unit test.B;

            from test.A import A;

            module TestModule {
                func new() -> A {
                    @return a
                    @spawn a: A
                }

                func test() -> i32 {
                    @return v

                    @spawn v: i32 {
                        let a = new();
                        return a.b.c.body;
                    }
                }
            }
        "#]);
    check(vec![r#"
            unit test.A;

            data A {
                b: B
            }

            data B {
                c: C
            }

            data C {
                body: i32
            }
        "#, r#"
            unit test.B;

            from test.A import A;

            module TestModule {
                new() -> A {
                    @return a
                    @spawn a: A
                }

                test() -> i32 {
                    @return v

                    @spawn v: i32 {
                        let a = new();
                        return a.b.c.body;
                    }
                }
            }
        "#]);
}

#[test]
fn check_import_module_in_other_unit() {
    check(vec![r#"
            unit test.A;

            module TestModule {
                func test() -> i32 {
                    @return a

                    @spawn a: i32
                }
            }
        "#, r#"
            unit test.B;

            from test.A import TestModule;

            module TestModule2 {
                func test() -> i32 {
                    @return a

                    @spawn a: i32 {
                        let a = TestModule.test();
                        return a;
                    }
                }
            }
        "#]);
    check(vec![r#"
            unit test.A;

            module TestModule {
                test() -> i32 {
                    @return a

                    @spawn a: i32
                }
            }
        "#, r#"
            unit test.B;

            from test.A import TestModule;

            module TestModule2 {
                test() -> i32 {
                    @return a

                    @spawn a: i32 {
                        let a = TestModule.test();
                        return a;
                    }
                }
            }
        "#]);
}

#[test]
#[should_panic]
fn check_import_module_in_other_unit_failure() {
    let refused = [
        check_refused(vec![r#"
            unit test.A;

            data A {}

            module TestModule {
                func test() -> A {
                    @return a

                    @spawn a: A
                }
            }
        "#, r#"
            unit test.B;

            from test.A import A, TestModule;

            module TestModule2 {
                func test() -> i32 {
                    @return a

                    @spawn a: i32 {
                        let a = TestModule.test();
                        return a;
                    }
                }
            }
        "#]),
        check_refused(vec![r#"
            unit test.A;

            data A {}

            module TestModule {
                test() -> A {
                    @return a

                    @spawn a: A
                }
            }
        "#, r#"
            unit test.B;

            from test.A import A, TestModule;

            module TestModule2 {
                test() -> i32 {
                    @return a

                    @spawn a: i32 {
                        let a = TestModule.test();
                        return a;
                    }
                }
            }
        "#]),
    ];
    if refused.iter().all(|r| *r) {
        panic!("refused");
    }
}

#[test]
#[should_panic]
fn check_multiple_define_1() {
    let refused = [
        check_refused(vec![r#"
            unit test;

            data A {}
            data A{}
        "#]),
        check_refused(vec![r#"
            unit test;

            data A {}
            data A{}
        "#]),
    ];
    if refused.iter().all(|r| *r) {
        panic!("refused");
    }
}

#[test]
#[should_panic]
fn check_multiple_define_2() {
    let refused = [
        check_refused(vec![r#"
            unit test;

            data A {
                x: i32,
                x: i32,
                y: i32
            }
        "#]),
        check_refused(vec![r#"
            unit test;

            data A {
                x: i32,
                x: i32,
                y: i32
            }
        "#]),
    ];
    if refused.iter().all(|r| *r) {
        panic!("refused");
    }
}

#[test]
#[should_panic]
fn check_multiple_define_3() {
    let refused = [
        check_refused(vec![r#"
            unit test;

            module TestModule {}
            module TestModule {}
        "#]),
        check_refused(vec![r#"
            unit test;

            module TestModule {}
            module TestModule {}
        "#]),
    ];
    if refused.iter().all(|r| *r) {
        panic!("refused");
    }
}

#[test]
#[should_panic]
fn check_multiple_define_4() {
    let refused = [
        check_refused(vec![r#"
            unit test;

            module TestModule {
                func a() -> i32 {
                    @return b

                    @spawn b: i32
                }

                func a() -> i32 {
                    @return c

                    @spawn c: i32
                }
            }
        "#]),
        check_refused(vec![r#"
            unit test;

            module TestModule {
                a() -> i32 {
                    @return b

                    @spawn b: i32
                }

                a() -> i32 {
                    @return c

                    @spawn c: i32
                }
            }
        "#]),
    ];
    if refused.iter().all(|r| *r) {
        panic!("refused");
    }
}

#[test]
#[should_panic]
fn check_multiple_define_5() {
    let refused = [
        check_refused(vec![r#"
            unit test;

            module TestModule {
                func a() -> i32 {
                    @return a

                    @spawn a: i32
                }
            }
        "#]),
        check_refused(vec![r#"
            unit test;

            module TestModule {
                a() -> i32 {
                    @return a

                    @spawn a: i32
                }
            }
        "#]),
    ];
    if refused.iter().all(|r| *r) {
        panic!("refused");
    }
}

#[test]
#[should_panic]
fn check_multiple_define_6() {
    let refused = [
        check_refused(vec![r#"
            unit test;

            module TestModule {
                func a(arg: i32) -> i32 {
                    @return val

                    @spawn val: i32 {
                        return arg;
                    }
                }
            }
        "#]),
        check_refused(vec![r#"
            unit test;

            module TestModule {
                a(arg: i32) -> i32 {
                    @return val

                    @spawn val: i32 {
                        return arg;
                    }
                }
            }
        "#]),
    ];
    if refused.iter().all(|r| *r) {
        panic!("refused");
    }
}

#[test]
#[should_panic]
fn check_multiple_define_7() {
    let refused = [
        check_refused(vec![r#"
            unit test;

            module TestModule {
                func a(arg: i32) -> i32 {
                    @return val

                    @spawn val: i32 {
                        use arg;
                        return arg2;
                    }
                }
            }
        "#]),
        check_refused(vec![r#"
            unit test;

            module TestModule {
                a(arg: i32) -> i32 {
                    @return val

                    @spawn val: i32 {
                        use arg;
                        return arg2;
                    }
                }
            }
        "#]),
    ];
    if refused.iter().all(|r| *r) {
        panic!("refused");
    }
}

#[test]
#[should_panic]
fn check_multiple_define_8() {
    let refused = [
        check_refused(vec![r#"
            unit test;

            module TestModule {
                func a(arg: i32) -> i32 {
                    @return val

                    @spawn val: i32 {
                        use arg;
                        let val = new();
                        return val2;
                    }
                }

                func new() -> i32 {
                    @return val

                    @spawn val: i32
                }
            }
        "#]),
        check_refused(vec![r#"
            unit test;

            module TestModule {
                a(arg: i32) -> i32 {
                    @return val

                    @spawn val: i32 {
                        use arg;
                        let val = new();
                        return val2;
                    }
                }

                new() -> i32 {
                    @return val

                    @spawn val: i32
                }
            }
        "#]),
    ];
    if refused.iter().all(|r| *r) {
        panic!("refused");
    }
}

#[test]
fn check_primitive_member_only_data() {
    check(vec![r#"
            unit test;

            data Test {
                a: i32,
                b: i32,
                c: i32
            }
        "#]);
    compile(r#"
            unit test;

            data Test {
                a: i32,
                b: i32,
                c: i32
            }
        "#);
}

#[test]
fn check_user_defined_type_mix_data() {
    check(vec![r#"
            unit test;

            data A {
                a: i32
            }

            data Test {
                a: A,
                b: i32,
                c: A
            }
        "#]);
    compile(r#"
            unit test;

            data A {
                a: i32
            }

            data Test {
                a: A,
                b: i32,
                c: A
            }
        "#);
}

#[test]
fn check_recursive_type_mix_data() {
    check(vec![r#"
            unit test;

            data A {
                a: A
            }
        "#]);
    compile(r#"
            unit test;

            data A {
                a: A
            }
        "#);
}

#[test]
#[should_panic]
fn check_undefined_type_mix_data() {
    let refused = [
        check_refused(vec![r#"
            unit test;

            data Test {
                a: i32,
                b: Unknown
            }
        "#]),
        compile_refused(r#"
            unit test;

            data Test {
                a: i32,
                b: Unknown
            }
        "#),
    ];
    if refused.iter().all(|r| *r) {
        panic!("refused");
    }
}

#[test]
fn check_user_defind_type_mix_module() {
    check(vec![r#"
            unit test;

            data A {
                a: i32,
                b: i32
            }

            module TestModule {
                test(a: A) -> A {
                    @return a
                }
            }
        "#]);
    compile(r#"
            unit test;

            data A {
                a: i32,
                b: i32
            }
            
            module TestModule {
                test(a: A) -> A {
                    @return a
                }
            }
        "#);
}

#[test]
fn check_user_defined_type_mix_module_with_spawn() {
    check(vec![r#"
            unit test;

            data A {
                a: B,
                b: B
            }

            data B {
                a: C,
                b: C
            }

            data C {
                a: i32,
                b: i32
            }

            module TestModule {
                test(a: A) -> A {
                    @return b

                    @spawn b: A {
                        use a;
                        let tmp = receiveA(a);
                        let tmp1 = receiveB(a.a);
                        let tmp2 = receiveB(a.b);
                        let tmp3 = receiveC(a.a.a);
                        let tmp4 = receiveC(a.a.b);
                        let tmp5 = receiveC(a.b.a);
                        let tmp6 = receiveC(a.b.b);
                        let tmp7 = receiveInt32(a.a.a.a);
                        let tmp8 = receiveInt32(a.a.a.b);
                        let tmp9 = receiveInt32(a.a.b.a);
                        let tmp10 = receiveInt32(a.a.b.b);
                        let tmp11 = receiveInt32(a.b.a.a);
                        let tmp12 = receiveInt32(a.b.a.b);
                        let tmp13 = receiveInt32(a.b.b.a);
                        let tmp14 = receiveInt32(a.b.b.b);
                    }
                }

                receiveA(a: A) -> i32 {
                    @return tmp
                    @spawn tmp: i32
                }

                receiveB(b: B) -> i32 {
                    @return tmp
                    @spawn tmp: i32
                }

                receiveC(c: C) -> i32 {
                    @return tmp
                    @spawn tmp: i32
                }

                receiveInt32(i: i32) -> i32 {
                    @return tmp
                    @spawn tmp: i32
                }
            }
        "#]);
    compile(r#"
            unit test;

            data A {
                a: B,
                b: B
            }

            data B {
                a: C,
                b: C
            }

            data C {
                a: i32,
                b: i32
            }

            module TestModule {
                test(a: A) -> A {
                    @return b

                    @spawn b: A {
                        use a;
                        use a.a, a.b;
                        use a.a.a, a.a.b, a.b.a, a.b.b;
                        use a.a.a.a, a.a.a.b, a.a.b.a, a.a.b.b, a.b.a.a, a.b.a.b, a.b.b.a, a.b.b.b;
                    }
                }
            }
        "#);
}

#[test]
#[should_panic]
fn check_user_defind_type_mix_module_with_spawn_failure_1() {
    let refused = [
        check_refused(vec![r#"
            unit test;

            data A {
                a: i32,
                b: i32
            }

            module TestModule {
                test(a: A) -> A {
                    @return b

                    @spawn b: A {
                        use aaa;
                    }
                }
            }
        "#]),
        compile_refused(r#"
            unit test;

            data A {
                a: i32,
                b: i32
            }

            module TestModule {
                test(a: A) -> A {
                    @return b

                    @spawn b: A {
                        use aaa;
                    }
                }
            }
        "#),
    ];
    if refused.iter().all(|r| *r) {
        panic!("refused");
    }
}

#[test]
#[should_panic]
fn check_user_defind_type_mix_module_with_spawn_failure_2() {
    let refused = [
        check_refused(vec![r#"
            unit test;

            data A {
                a: i32,
                b: i32
            }

            module TestModule {
                test(a: A) -> A {
                    @return b

                    @spawn b: A {
                        use a;
                        let tmp = receiveInt32(a.c);
                    }
                }

                receiveInt32(i: i32) -> i32 {
                    @return tmp
                    @spawn tmp: i32
                }
            }
        "#]),
        compile_refused(r#"
            unit test;

            data A {
                a: i32,
                b: i32
            }

            module TestModule {
                test(a: A) -> A {
                    @return b

                    @spawn b: A {
                        use a.c;
                    }
                }
            }
        "#),
    ];
    if refused.iter().all(|r| *r) {
        panic!("refused");
    }
}

#[test]
#[should_panic]
fn check_user_defind_type_mix_module_with_spawn_failure_3() {
    let refused = [
        check_refused(vec![r#"
            unit test;

            data A {
                a: B,
                b: B
            }

            data B {
                a: C,
                b: C
            }

            data C {
                a: i32,
                b: i32
            }

            module TestModule {
                test(a: A) -> A {
                    @return b

                    @spawn b: A {
                        use a.b.a.c;
                    }
                }
            }
        "#]),
        compile_refused(r#"
            unit test;

            data A {
                a: B,
                b: B
            }

            data B {
                a: C,
                b: C
            }

            data C {
                a: i32,
                b: i32
            }

            module TestModule {
                test(a: A) -> A {
                    @return b

                    @spawn b: A {
                        use a.b.a.c;
                    }
                }
            }
        "#),
    ];
    if refused.iter().all(|r| *r) {
        panic!("refused");
    }
}

#[test]
fn check_let_by_user_defined_function_using_completed_name_1() {
    check(vec![r#"
            unit test;

            data A {}

            module AModule {
                new() -> A {
                    @return a

                    @spawn a: A
                }
            }

            module TestModule {
                test() -> A {
                    @return a

                    @spawn a: A {
                        let b = AModule.new();
                        return b;
                    }
                }
            }
        "#]);
    compile(r#"
            unit test;

            data A {}

            module AModule {
                new() -> A {
                    @return a

                    @spawn a: A
                }
            }

            module TestModule {
                test() -> A {
                    @return a

                    @spawn a: A {
                        let b = AModule.new();
                        return b;
                    }
                }
            }
        "#);
}

#[test]
fn check_let_by_user_defined_function_using_completed_name_2() {
    check(vec![r#"
            unit test;

            data A {}

            module TestModule {
                new() -> A {
                    @return a

                    @spawn a: A
                }

                test() -> A {
                    @return a

                    @spawn a: A {
                        let b = TestModule.new();
                        return b;
                    }
                }
            }
        "#]);
    compile(r#"
            unit test;

            data A {}

            module TestModule {
                new() -> A {
                    @return a

                    @spawn a: A
                }

                test() -> A {
                    @return a

                    @spawn a: A {
                        let b = TestModule.new();
                        return b;
                    }
                }
            }
        "#);
}

#[test]
fn check_let_by_user_defined_function_using_uncompleted_name() {
    check(vec![r#"
            unit test;

            data A {}

            module TestModule {
                new() -> A {
                    @return a

                    @spawn a: A
                }

                test() -> A {
                    @return a

                    @spawn a: A {
                        let b = new();
                        return b;
                    }
                }
            }
        "#]);
    compile(r#"
            unit test;

            data A {}

            module TestModule {
                new() -> A {
                    @return a

                    @spawn a: A
                }

                test() -> A {
                    @return a

                    @spawn a: A {
                        let b = new();
                        return b;
                    }
                }
            }
        "#);
}

#[test]
#[should_panic]
fn check_let_by_user_defined_function_using_completed_name_failure() {
    let refused = [
        check_refused(vec![r#"
            unit test;

            data A {}

            module TestModule {
                new() -> A {
                    @return a

                    @spawn a: A
                }

                test() -> A {
                    @return a

                    @spawn a: A {
                        let b = TestModule.new2();
                        return b;
                    }
                }
            }
        "#]),
        compile_refused(r#"
            unit test;

            data A {}

            module TestModule {
                new() -> A {
                    @return a

                    @spawn a: A
                }

                test() -> A {
                    @return a

                    @spawn a: A {
                        let b = TestModule.new2();
                        return b;
                    }
                }
            }
        "#),
    ];
    if refused.iter().all(|r| *r) {
        panic!("refused");
    }
}

#[test]
#[should_panic]
fn check_let_by_user_defined_function_using_uncompleted_name_failure() {
    let refused = [
        check_refused(vec![r#"
            unit test;

            data A {}

            module TestModule {
                new() -> A {
                    @return a

                    @spawn a: A
                }

                test() -> A {
                    @return a

                    @spawn a: A {
                        let b = new2();
                        return b;
                    }
                }
            }
        "#]),
        compile_refused(r#"
            unit test;

            data A {}

            module TestModule {
                new() -> A {
                    @return a

                    @spawn a: A
                }

                test() -> A {
                    @return a

                    @spawn a: A {
                        let b = new2();
                        return b;
                    }
                }
            }
        "#),
    ];
    if refused.iter().all(|r| *r) {
        panic!("refused");
    }
}

#[test]
fn check_argument_check_ok() {
    check(vec![r#"
            unit test;

            data A {}
            data B {}
            data C {}

            module TestModule {
                test() -> A {
                    @return a

                    @spawn a: A {
                        let tmp1 = genA();
                        let tmp2 = genB(tmp1);
                        let tmp3 = genC(tmp1, tmp2);
                    }
                }

                genA() -> A {
                    @return a

                    @spawn a: A
                }

                genB(a: A) -> B {
                    @return b

                    @spawn b: B {
                        use a;
                    }
                }

                genC(a: A, b: B) -> C {
                    @return c

                    @spawn c: C {
                        use a, b;
                    }
                }
            }
        "#]);
    compile(r#"
            unit test;

            data A {}
            data B {}
            data C {}
            
            module TestModule {
                test() -> A {
                    @return a

                    @spawn a: A {
                        let tmp1 = genA();
                        let tmp2 = genB(tmp1);
                        let tmp3 = genC(tmp1, tmp2);
                    }
                }

                genA() -> A {
                    @return a

                    @spawn a: A
                }

                genB(a: A) -> B {
                    @return b

                    @spawn b: B {
                        use a;
                    }
                }

                genC(a: A, b: B) -> C {
                    @return c

                    @spawn c: C {
                        use a, b;
                    }
                }
            }
        "#);
}

#[test]
#[should_panic]
fn check_argument_check_ng() {
    let refused = [
        check_refused(vec![r#"
            unit test;

            data A {}
            data B {}
            data C {}

            module TestModule {
                test() -> A {
                    @return a

                    @spawn a: A {
                        let tmp1 = genA();
                        let tmp2 = genB(tmp1);
                        let tmp3 = genC(tmp1, tmp1);
                    }
                }

                genA() -> A {
                    @return a

                    @spawn a: A
                }

                genB(a: A) -> B {
                    @return b

                    @spawn b: B {
                        use a;
                    }
                }

                genC(a: A, b: B) -> C {
                    @return c

                    @spawn c: C {
                        use a, b;
                    }
                }
            }
        "#]),
        compile_refused(r#"
            unit test;

            data A {}
            data B {}
            data C {}
            
            module TestModule {
                test() -> A {
                    @return a

                    @spawn a: A {
                        let tmp1 = genA();
                        let tmp2 = genB(tmp1);
                        let tmp3 = genC(tmp1, tmp1);
                    }
                }

                genA() -> A {
                    @return a

                    @spawn a: A
                }

                genB(a: A) -> B {
                    @return b

                    @spawn b: B {
                        use a;
                    }
                }

                genC(a: A, b: B) -> C {
                    @return c

                    @spawn c: C {
                        use a, b;
                    }
                }
            }
        "#),
    ];
    if refused.iter().all(|r| *r) {
        panic!("refused");
    }
}

#[test]
fn check_return_check_ok() {
    check(vec![r#"
            unit test;

            module TestModule {
                test() -> i32 {
                    @return a

                    @spawn a: i32
                }
            }
        "#]);
    compile(r#"
            unit test;

            module TestModule {
                test() -> i32 {
                    @return a

                    @spawn a: i32
                }
            }
        "#);
}

#[test]
#[should_panic]
fn check_return_check_ng() {
    let refused = [
        check_refused(vec![r#"
            unit test;

            data A {}

            module TestModule {
                test() -> i32 {
                    @return a

                    @spawn a: A
                }
            }
        "#]),
        compile_refused(r#"
            unit test;

            data A {}

            module TestModule {
                test() -> i32 {
                    @return a

                    @spawn a: A
                }
            }
        "#),
    ];
    if refused.iter().all(|r| *r) {
        panic!("refused");
    }
}

/// A member path of any length into a data type that holds itself
/// resolves, in both front ends.
#[test]
fn long_member_path_resolves() {
    let path = "a".to_string() + &".x".repeat(300) + ".v";
    let checked = format!(
        r#"
            unit test;

            data A {{
                x: A,
                v: i32
            }}

            module TestModule {{
                func test(a: A) -> A {{
                    @return b

                    @spawn b: A {{
                        use a;
                        let tmp = receiveInt32({});
                    }}
                }}

                func receiveInt32(i: i32) -> i32 {{
                    @return tmp
                    @spawn tmp: i32
                }}
            }}
        "#,
        path
    );
    let compiled = format!(
        r#"
            unit test;

            data A {{
                x: A,
                v: i32
            }}

            module TestModule {{
                test(a: A) -> A {{
                    @return b

                    @spawn b: A {{
                        use {};
                    }}
                }}
            }}
        "#,
        path
    );
    check(vec![checked.as_str()]);
    compile(compiled.as_str());
}
