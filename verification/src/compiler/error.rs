//! Errors of the compiler.
use vstd::prelude::*;
use crate::lang::types::TypeV;
use crate::compiler::types::{type_text, Type};
use crate::compiler::token::{kind_name, TokenKind};
use crate::text::{decimal, decimal_text};

verus! {

/// What went wrong.
#[derive(Debug, PartialEq, Eq)]
pub enum CompileErrorKind {
    /* while splitting the text into tokens */
    RequestedTokenNotFound(TokenKind),
    FoundUnregisteredSymbol,
    /* while parsing */
    UnitNameNotSpecified,
    UnexpectedEOF,
    ReturnExistsMultiple,
    ReturnNotExists,
    ResultOfSpawnNotSpecified,
    FunctionNameNotFound,
    /* while checking */
    TypeUnmatch1(Type),
    TypeUnmatch2(Type, Type),
    NotFound(String),
    NotDefined(String),
    MemberNotDefinedInData(String, String),
    FuncNotDefinedInModule(String, String),
    MissingFunctionName,
    IllegalAccess,
    /// A reference whose resolution goes deeper than the checker follows
    /// (a definition that refers back to itself).
    ResolutionTooDeep,
}

/// The model of an error kind.
pub enum CompileErrorKindV {
    RequestedTokenNotFound(TokenKind),
    FoundUnregisteredSymbol,
    UnitNameNotSpecified,
    UnexpectedEOF,
    ReturnExistsMultiple,
    ReturnNotExists,
    ResultOfSpawnNotSpecified,
    FunctionNameNotFound,
    TypeUnmatch1(TypeV),
    TypeUnmatch2(TypeV, TypeV),
    NotFound(Seq<char>),
    NotDefined(Seq<char>),
    MemberNotDefinedInData(Seq<char>, Seq<char>),
    FuncNotDefinedInModule(Seq<char>, Seq<char>),
    MissingFunctionName,
    IllegalAccess,
    ResolutionTooDeep,
}

impl View for CompileErrorKind {
    type V = CompileErrorKindV;

    open spec fn view(&self) -> CompileErrorKindV {
        match self {
            CompileErrorKind::RequestedTokenNotFound(k) => CompileErrorKindV::RequestedTokenNotFound(*k),
            CompileErrorKind::FoundUnregisteredSymbol => CompileErrorKindV::FoundUnregisteredSymbol,
            CompileErrorKind::UnitNameNotSpecified => CompileErrorKindV::UnitNameNotSpecified,
            CompileErrorKind::UnexpectedEOF => CompileErrorKindV::UnexpectedEOF,
            CompileErrorKind::ReturnExistsMultiple => CompileErrorKindV::ReturnExistsMultiple,
            CompileErrorKind::ReturnNotExists => CompileErrorKindV::ReturnNotExists,
            CompileErrorKind::ResultOfSpawnNotSpecified => CompileErrorKindV::ResultOfSpawnNotSpecified,
            CompileErrorKind::FunctionNameNotFound => CompileErrorKindV::FunctionNameNotFound,
            CompileErrorKind::TypeUnmatch1(t) => CompileErrorKindV::TypeUnmatch1(t@),
            CompileErrorKind::TypeUnmatch2(a, b) => CompileErrorKindV::TypeUnmatch2(a@, b@),
            CompileErrorKind::NotFound(s) => CompileErrorKindV::NotFound(s@),
            CompileErrorKind::NotDefined(s) => CompileErrorKindV::NotDefined(s@),
            CompileErrorKind::MemberNotDefinedInData(a, b) => CompileErrorKindV::MemberNotDefinedInData(
                a@,
                b@,
            ),
            CompileErrorKind::FuncNotDefinedInModule(a, b) => CompileErrorKindV::FuncNotDefinedInModule(
                a@,
                b@,
            ),
            CompileErrorKind::MissingFunctionName => CompileErrorKindV::MissingFunctionName,
            CompileErrorKind::IllegalAccess => CompileErrorKindV::IllegalAccess,
            CompileErrorKind::ResolutionTooDeep => CompileErrorKindV::ResolutionTooDeep,
        }
    }
}

impl CompileErrorKindV {
    /// What an error of this kind says.
    pub open spec fn message(self) -> Seq<char> {
        match self {
            CompileErrorKindV::RequestedTokenNotFound(k) => {
                "Token \""@ + kind_name(k) + "\" is requested, but not found"@
            },
            CompileErrorKindV::FoundUnregisteredSymbol => "Found unregistered symbol"@,
            CompileErrorKindV::UnitNameNotSpecified => "Unit name is not specified"@,
            CompileErrorKindV::UnexpectedEOF => {
                "Expected Data or Module definition, but not found"@
            },
            CompileErrorKindV::ReturnExistsMultiple => "Annotation \"return\" exists multiple"@,
            CompileErrorKindV::ReturnNotExists => "Annotation \"return\" not existed"@,
            CompileErrorKindV::ResultOfSpawnNotSpecified => {
                "Missing to specify the result of spawn"@
            },
            CompileErrorKindV::FunctionNameNotFound => "Function name is requested, but not found"@,
            CompileErrorKindV::TypeUnmatch1(a) => {
                "\""@ + type_text(a) + "\" is defined, but type is unmatch"@
            },
            CompileErrorKindV::TypeUnmatch2(r, a) => {
                "\""@ + type_text(r) + "\" is required, but \""@ + type_text(a) + "\" exists"@
            },
            CompileErrorKindV::NotFound(n) => "Cannot find \""@ + n + "\""@,
            CompileErrorKindV::NotDefined(n) => "\""@ + n + "\" is not defined"@,
            CompileErrorKindV::MemberNotDefinedInData(m, d) => {
                "Member \""@ + m + "\" is not defined in Data \""@ + d + "\""@
            },
            CompileErrorKindV::FuncNotDefinedInModule(f, m) => {
                "Function \""@ + f + "\" is not defined in Module \""@ + m + "\""@
            },
            CompileErrorKindV::MissingFunctionName => "Missing to specify the function"@,
            CompileErrorKindV::IllegalAccess => "Found illegal access"@,
            CompileErrorKindV::ResolutionTooDeep => "Reference is resolved too deep"@,
        }
    }
}

impl CompileErrorKind {
    /// What an error of this kind says.
    pub fn message(&self) -> (r: String)
        ensures
            r@ == self@.message(),
    {
        match self {
            CompileErrorKind::RequestedTokenNotFound(k) => {
                let mut s = String::from_str("Token \"");
                s.append(k.name());
                s.append("\" is requested, but not found");
                s
            },
            CompileErrorKind::FoundUnregisteredSymbol => {
                String::from_str("Found unregistered symbol")
            },
            CompileErrorKind::UnitNameNotSpecified => {
                String::from_str("Unit name is not specified")
            },
            CompileErrorKind::UnexpectedEOF => {
                String::from_str("Expected Data or Module definition, but not found")
            },
            CompileErrorKind::ReturnExistsMultiple => {
                String::from_str("Annotation \"return\" exists multiple")
            },
            CompileErrorKind::ReturnNotExists => {
                String::from_str("Annotation \"return\" not existed")
            },
            CompileErrorKind::ResultOfSpawnNotSpecified => {
                String::from_str("Missing to specify the result of spawn")
            },
            CompileErrorKind::FunctionNameNotFound => {
                String::from_str("Function name is requested, but not found")
            },
            CompileErrorKind::TypeUnmatch1(a) => {
                let mut s = String::from_str("\"");
                s.append(a.text().as_str());
                s.append("\" is defined, but type is unmatch");
                s
            },
            CompileErrorKind::TypeUnmatch2(r, a) => {
                let mut s = String::from_str("\"");
                s.append(r.text().as_str());
                s.append("\" is required, but \"");
                s.append(a.text().as_str());
                s.append("\" exists");
                s
            },
            CompileErrorKind::NotFound(n) => {
                let mut s = String::from_str("Cannot find \"");
                s.append(n.as_str());
                s.append("\"");
                s
            },
            CompileErrorKind::NotDefined(n) => {
                let mut s = String::from_str("\"");
                s.append(n.as_str());
                s.append("\" is not defined");
                s
            },
            CompileErrorKind::MemberNotDefinedInData(m, d) => {
                let mut s = String::from_str("Member \"");
                s.append(m.as_str());
                s.append("\" is not defined in Data \"");
                s.append(d.as_str());
                s.append("\"");
                s
            },
            CompileErrorKind::FuncNotDefinedInModule(f, m) => {
                let mut s = String::from_str("Function \"");
                s.append(f.as_str());
                s.append("\" is not defined in Module \"");
                s.append(m.as_str());
                s.append("\"");
                s
            },
            CompileErrorKind::MissingFunctionName => {
                String::from_str("Missing to specify the function")
            },
            CompileErrorKind::IllegalAccess => String::from_str("Found illegal access"),
            CompileErrorKind::ResolutionTooDeep => {
                String::from_str("Reference is resolved too deep")
            },
        }
    }
}

/// An error, with the (row, column) where it happened when it is known.
#[derive(Debug, PartialEq, Eq)]
pub struct CompileError {
    kind: CompileErrorKind,
    pos: Option<(i32, i32)>,
}

/// The model of an error.
pub struct CErrV {
    pub kind: CompileErrorKindV,
    pub pos: Option<(int, int)>,
}

impl View for CompileError {
    type V = CErrV;

    closed spec fn view(&self) -> CErrV {
        CErrV {
            kind: self.kind@,
            pos: match self.pos {
                Some((r, c)) => Some((r as int, c as int)),
                None => None,
            },
        }
    }
}

impl CErrV {
    /// What an error says: its kind's message, then `(at row:col)` when
    /// the position is known.
    pub open spec fn message(self) -> Seq<char> {
        match self.pos {
            Some((row, col)) => self.kind.message() + " (at "@ + decimal(row) + seq![':']
                + decimal(col) + ")"@,
            None => self.kind.message(),
        }
    }
}

/// The result of the compiler's operations.
pub type CResult<T> = Result<T, CompileError>;

impl CompileError {
    /// The failure of kind `kind`, at no known position.
    pub fn new<T>(kind: CompileErrorKind) -> (r: CResult<T>)
        ensures
            r matches Err(e) && e@ == (CErrV { kind: kind@, pos: None }),
    {
        Err(CompileError { kind, pos: None })
    }

    /// The failure of kind `kind`, at (row, column) `pos`.
    pub fn new_with_pos<T>(kind: CompileErrorKind, pos: (i32, i32)) -> (r: CResult<T>)
        ensures
            r matches Err(e) && e@ == (CErrV { kind: kind@, pos: Some((pos.0 as int, pos.1 as int)) }),
    {
        Err(CompileError { kind, pos: Some(pos) })
    }

    /// What the error says: its kind's message, then where it happened
    /// when that is known.
    pub fn message(&self) -> (r: String)
        ensures
            r@ == self@.message(),
    {
        let mut s = self.kind.message();
        match self.pos {
            Some((row, col)) => {
                s.append(" (at ");
                s.append(decimal_text(row).as_str());
                s.append(":");
                s.append(decimal_text(col).as_str());
                s.append(")");
                proof {
                    reveal_strlit(":");
                }
            },
            None => {},
        }
        s
    }

    /// What went wrong.
    pub fn kind(&self) -> (r: &CompileErrorKind)
        ensures
            r@ == self@.kind,
    {
        &self.kind
    }

    /// Where it went wrong, when that is known.
    pub fn pos(&self) -> (r: Option<(i32, i32)>)
        ensures
            (match r {
                Some((a, b)) => Some((a as int, b as int)),
                None => None,
            }) == self@.pos,
    {
        self.pos
    }
}

} // verus!
