//! What errors, locations and types say to the user.
use sysdc::compiler::error::{CompileError, CompileErrorKind};
use sysdc::compiler::name::Name as CName;
use sysdc::compiler::token::TokenKind as CTokenKind;
use sysdc::compiler::types::{Type as CType, TypeKind as CTypeKind};
use sysdc::lang::error::{PError, PErrorKind};
use sysdc::lang::location::Location;
use sysdc::lang::name::Name;
use sysdc::lang::token::TokenKind;
use sysdc::lang::types::{Type, TypeKind};
use sysdc::text::decimal_text;

fn data_a() -> Type {
    Type::new(TypeKind::Data, Some(Name::new(&Name::new_root(), "A".to_string())))
}

#[test]
fn decimal_of_integers() {
    assert_eq!(decimal_text(0), "0");
    assert_eq!(decimal_text(7), "7");
    assert_eq!(decimal_text(42), "42");
    assert_eq!(decimal_text(1000), "1000");
    assert_eq!(decimal_text(-5), "-5");
    assert_eq!(decimal_text(i32::MAX), "2147483647");
    assert_eq!(decimal_text(i32::MIN), "-2147483648");
}

#[test]
fn location_texts() {
    let both = Location::new().with_filename("a.def".to_string()).with_coord((3, 14));
    assert_eq!(both.text(), "a.def:3:14");
    let coord = Location::new().with_coord((1, 2));
    assert_eq!(coord.text(), "1:2");
    let file = Location::new().with_filename("b.def".to_string());
    assert_eq!(file.text(), "b.def");
    assert_eq!(Location::new().text(), "?");
}

#[test]
fn type_kind_texts() {
    assert_eq!(TypeKind::Int32.text(), "i32");
    assert_eq!(TypeKind::UInt32.text(), "u32");
    assert_eq!(TypeKind::Float32.text(), "f32");
    assert_eq!(TypeKind::Boolean.text(), "bool");
    assert_eq!(TypeKind::Char.text(), "char");
    assert_eq!(TypeKind::Data.text(), "Data");
    assert_eq!(TypeKind::Unsolved("Box".to_string()).text(), "Box");
    assert_eq!(TypeKind::UnsolvedNoHint.text(), "UnsolvedNoHint");
}

#[test]
fn type_texts() {
    assert_eq!(data_a().text(), "Type { kind: Data, refs: Some(.0.A) }");
    assert_eq!(Type::new(TypeKind::Int32, None).text(), "Type { kind: i32, refs: None }");
}

#[test]
fn token_kind_names() {
    assert_eq!(TokenKind::Semicolon.name(), "Semicolon");
    assert_eq!(TokenKind::Identifier.name(), "Identifier");
    assert_eq!(CTokenKind::BracketBegin.name(), "BracketBegin");
}

#[test]
fn perror_messages() {
    let at = Location::new().with_filename("m.def".to_string()).with_coord((2, 5));
    let e = PError::from(PErrorKind::NotFound("x".to_string())).with_loc(at);
    assert_eq!(e.message(), "Cannot find \"x\" (at m.def:2:5)");

    let e = PError::from(PErrorKind::RequestedTokenNotFound(TokenKind::Semicolon));
    assert_eq!(e.message(), "Token \"Semicolon\" is requested, but not found (at ?)");

    let e = PError::from(PErrorKind::TypeUnmatch2(data_a(), Type::new(TypeKind::Int32, None)));
    assert_eq!(
        e.message(),
        "\"Type { kind: Data, refs: Some(.0.A) }\" is required, but \"Type { kind: i32, refs: None }\" found (at ?)"
    );

    let kind = PErrorKind::MemberNotDefinedInData("y".to_string(), "A".to_string());
    assert_eq!(kind.message(), "Member \"y\" is not defined in Data \"A\"");
    assert_eq!(PErrorKind::ResultOfSpawnNotSpecified.message(), "Missing to specify the result os spawn");
}

#[test]
fn compile_error_messages() {
    let r: Result<(), CompileError> = CompileError::new_with_pos(CompileErrorKind::NotDefined("v".to_string()), (4, 9));
    assert_eq!(r.unwrap_err().message(), "\"v\" is not defined (at 4:9)");

    let r: Result<(), CompileError> = CompileError::new(CompileErrorKind::ReturnNotExists);
    assert_eq!(r.unwrap_err().message(), "Annotation \"return\" not existed");

    let a = CName::from(&CName::new_root(), "A".to_string());
    let kind = CompileErrorKind::TypeUnmatch2(CType::new(CTypeKind::Data, Some(a)), CType::new(CTypeKind::Int32, None));
    assert_eq!(kind.message(), "\"Data:Some(.0.A)\" is required, but \"Int32\" exists");

    let kind = CompileErrorKind::RequestedTokenNotFound(CTokenKind::Semicolon);
    assert_eq!(kind.message(), "Token \"Semicolon\" is requested, but not found");
}
