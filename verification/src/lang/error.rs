//! Errors found while tokenizing, parsing and checking.
use vstd::prelude::*;
use crate::lang::location::{Location, LocationV};
use crate::lang::token::{kind_name, TokenKind};
use crate::lang::types::{Type, TypeV};

verus! {

/// What went wrong.
#[derive(Debug, PartialEq, Eq)]
pub enum PErrorKind {
    /* while splitting the text into tokens */
    RequestedTokenNotFound(TokenKind),
    FoundUnregisteredSymbol,
    /* while parsing */
    UnitNameNotSpecified,
    FromNamespaceNotSpecified,
    DataOrModuleNotFound,
    UnexpectedEOF,
    ReturnExistsMultiple,
    ReturnExistsOnProcedure,
    ReturnNotExists,
    ResultOfSpawnNotSpecified,
    FunctionNameNotFound,
    UnknownAnnotationFound(String),
    /* while checking */
    AlreadyDefined(String),
    TypeUnmatch1(Type),
    TypeUnmatch2(Type, Type),
    ArgumentsLengthNotMatch,
    NotFound(String),
    NotDefined(String),
    MemberNotDefinedInData(String, String),
    FuncNotDefinedInModule(String, String),
    MissingFunctionName,
    IllegalAccess,
    /// A reference whose resolution goes deeper than the checker follows
    /// (a definition that refers back to itself).
    ResolutionTooDeep,
}

/// The mathematical model of an error kind.
pub enum PErrorKindV {
    RequestedTokenNotFound(TokenKind),
    FoundUnregisteredSymbol,
    UnitNameNotSpecified,
    FromNamespaceNotSpecified,
    DataOrModuleNotFound,
    UnexpectedEOF,
    ReturnExistsMultiple,
    ReturnExistsOnProcedure,
    ReturnNotExists,
    ResultOfSpawnNotSpecified,
    FunctionNameNotFound,
    UnknownAnnotationFound(Seq<char>),
    AlreadyDefined(Seq<char>),
    TypeUnmatch1(TypeV),
    TypeUnmatch2(TypeV, TypeV),
    ArgumentsLengthNotMatch,
    NotFound(Seq<char>),
    NotDefined(Seq<char>),
    MemberNotDefinedInData(Seq<char>, Seq<char>),
    FuncNotDefinedInModule(Seq<char>, Seq<char>),
    MissingFunctionName,
    IllegalAccess,
    ResolutionTooDeep,
}

impl View for PErrorKind {
    type V = PErrorKindV;

    open spec fn view(&self) -> PErrorKindV {
        match self {
            PErrorKind::RequestedTokenNotFound(k) => PErrorKindV::RequestedTokenNotFound(*k),
            PErrorKind::FoundUnregisteredSymbol => PErrorKindV::FoundUnregisteredSymbol,
            PErrorKind::UnitNameNotSpecified => PErrorKindV::UnitNameNotSpecified,
            PErrorKind::FromNamespaceNotSpecified => PErrorKindV::FromNamespaceNotSpecified,
            PErrorKind::DataOrModuleNotFound => PErrorKindV::DataOrModuleNotFound,
            PErrorKind::UnexpectedEOF => PErrorKindV::UnexpectedEOF,
            PErrorKind::ReturnExistsMultiple => PErrorKindV::ReturnExistsMultiple,
            PErrorKind::ReturnExistsOnProcedure => PErrorKindV::ReturnExistsOnProcedure,
            PErrorKind::ReturnNotExists => PErrorKindV::ReturnNotExists,
            PErrorKind::ResultOfSpawnNotSpecified => PErrorKindV::ResultOfSpawnNotSpecified,
            PErrorKind::FunctionNameNotFound => PErrorKindV::FunctionNameNotFound,
            PErrorKind::UnknownAnnotationFound(s) => PErrorKindV::UnknownAnnotationFound(s@),
            PErrorKind::AlreadyDefined(s) => PErrorKindV::AlreadyDefined(s@),
            PErrorKind::TypeUnmatch1(t) => PErrorKindV::TypeUnmatch1(t@),
            PErrorKind::TypeUnmatch2(a, b) => PErrorKindV::TypeUnmatch2(a@, b@),
            PErrorKind::ArgumentsLengthNotMatch => PErrorKindV::ArgumentsLengthNotMatch,
            PErrorKind::NotFound(s) => PErrorKindV::NotFound(s@),
            PErrorKind::NotDefined(s) => PErrorKindV::NotDefined(s@),
            PErrorKind::MemberNotDefinedInData(a, b) => PErrorKindV::MemberNotDefinedInData(
                a@,
                b@,
            ),
            PErrorKind::FuncNotDefinedInModule(a, b) => PErrorKindV::FuncNotDefinedInModule(
                a@,
                b@,
            ),
            PErrorKind::MissingFunctionName => PErrorKindV::MissingFunctionName,
            PErrorKind::IllegalAccess => PErrorKindV::IllegalAccess,
            PErrorKind::ResolutionTooDeep => PErrorKindV::ResolutionTooDeep,
        }
    }
}

impl PErrorKindV {
    /// What an error of this kind says.
    pub open spec fn message(self) -> Seq<char> {
        match self {
            PErrorKindV::RequestedTokenNotFound(k) => {
                "Token \""@ + kind_name(k) + "\" is requested, but not found"@
            },
            PErrorKindV::FoundUnregisteredSymbol => "Found unregistered symbol"@,
            PErrorKindV::UnitNameNotSpecified => "Unit name is not specified"@,
            PErrorKindV::FromNamespaceNotSpecified => "From namespace is not specified"@,
            PErrorKindV::DataOrModuleNotFound => {
                "Expected Data or Module definition, but not found"@
            },
            PErrorKindV::UnexpectedEOF => "Unexpected EOF found"@,
            PErrorKindV::ReturnExistsMultiple => "Annotation \"return\" exists multiple"@,
            PErrorKindV::ReturnExistsOnProcedure => "Annotation \"return\" exists on procedure"@,
            PErrorKindV::ReturnNotExists => "Annotation \"return\" not exists"@,
            PErrorKindV::ResultOfSpawnNotSpecified => "Missing to specify the result os spawn"@,
            PErrorKindV::FunctionNameNotFound => "Function name is requested, but not found"@,
            PErrorKindV::UnknownAnnotationFound(a) => "Unknown annotation \""@ + a + "\" found"@,
            PErrorKindV::AlreadyDefined(n) => "\""@ + n + "\" is already defiend"@,
            PErrorKindV::TypeUnmatch1(t) => {
                "\""@ + t.text() + "\" is defined, but type is mismatch"@
            },
            PErrorKindV::TypeUnmatch2(r, a) => {
                "\""@ + r.text() + "\" is required, but \""@ + a.text() + "\" found"@
            },
            PErrorKindV::ArgumentsLengthNotMatch => "Argument length not match"@,
            PErrorKindV::NotFound(n) => "Cannot find \""@ + n + "\""@,
            PErrorKindV::NotDefined(n) => "\""@ + n + "\" is not defined"@,
            PErrorKindV::MemberNotDefinedInData(m, d) => {
                "Member \""@ + m + "\" is not defined in Data \""@ + d + "\""@
            },
            PErrorKindV::FuncNotDefinedInModule(f, m) => {
                "Function \""@ + f + "\" is not defiend in Module \""@ + m + "\""@
            },
            PErrorKindV::MissingFunctionName => "Missing to specify the function"@,
            PErrorKindV::IllegalAccess => "Found illegal access"@,
            PErrorKindV::ResolutionTooDeep => "Reference is resolved too deep"@,
        }
    }
}

impl PErrorKind {
    /// What an error of this kind says.
    pub fn message(&self) -> (r: String)
        ensures
            r@ == self@.message(),
    {
        match self {
            PErrorKind::RequestedTokenNotFound(k) => {
                let mut s = String::from_str("Token \"");
                s.append(k.name());
                s.append("\" is requested, but not found");
                s
            },
            PErrorKind::FoundUnregisteredSymbol => String::from_str("Found unregistered symbol"),
            PErrorKind::UnitNameNotSpecified => String::from_str("Unit name is not specified"),
            PErrorKind::FromNamespaceNotSpecified => {
                String::from_str("From namespace is not specified")
            },
            PErrorKind::DataOrModuleNotFound => {
                String::from_str("Expected Data or Module definition, but not found")
            },
            PErrorKind::UnexpectedEOF => String::from_str("Unexpected EOF found"),
            PErrorKind::ReturnExistsMultiple => {
                String::from_str("Annotation \"return\" exists multiple")
            },
            PErrorKind::ReturnExistsOnProcedure => {
                String::from_str("Annotation \"return\" exists on procedure")
            },
            PErrorKind::ReturnNotExists => String::from_str("Annotation \"return\" not exists"),
            PErrorKind::ResultOfSpawnNotSpecified => {
                String::from_str("Missing to specify the result os spawn")
            },
            PErrorKind::FunctionNameNotFound => {
                String::from_str("Function name is requested, but not found")
            },
            PErrorKind::UnknownAnnotationFound(a) => {
                let mut s = String::from_str("Unknown annotation \"");
                s.append(a.as_str());
                s.append("\" found");
                s
            },
            PErrorKind::AlreadyDefined(n) => {
                let mut s = String::from_str("\"");
                s.append(n.as_str());
                s.append("\" is already defiend");
                s
            },
            PErrorKind::TypeUnmatch1(t) => {
                let mut s = String::from_str("\"");
                s.append(t.text().as_str());
                s.append("\" is defined, but type is mismatch");
                s
            },
            PErrorKind::TypeUnmatch2(r, a) => {
                let mut s = String::from_str("\"");
                s.append(r.text().as_str());
                s.append("\" is required, but \"");
                s.append(a.text().as_str());
                s.append("\" found");
                s
            },
            PErrorKind::ArgumentsLengthNotMatch => String::from_str("Argument length not match"),
            PErrorKind::NotFound(n) => {
                let mut s = String::from_str("Cannot find \"");
                s.append(n.as_str());
                s.append("\"");
                s
            },
            PErrorKind::NotDefined(n) => {
                let mut s = String::from_str("\"");
                s.append(n.as_str());
                s.append("\" is not defined");
                s
            },
            PErrorKind::MemberNotDefinedInData(m, d) => {
                let mut s = String::from_str("Member \"");
                s.append(m.as_str());
                s.append("\" is not defined in Data \"");
                s.append(d.as_str());
                s.append("\"");
                s
            },
            PErrorKind::FuncNotDefinedInModule(f, m) => {
                let mut s = String::from_str("Function \"");
                s.append(f.as_str());
                s.append("\" is not defiend in Module \"");
                s.append(m.as_str());
                s.append("\"");
                s
            },
            PErrorKind::MissingFunctionName => String::from_str("Missing to specify the function"),
            PErrorKind::IllegalAccess => String::from_str("Found illegal access"),
            PErrorKind::ResolutionTooDeep => String::from_str("Reference is resolved too deep"),
        }
    }
}

/// An error and where it happened.
#[derive(Debug, PartialEq, Eq)]
pub struct PError {
    pub kind: PErrorKind,
    pub happen_at: Location,
}

/// The mathematical model of an error.
pub struct PErrorV {
    pub kind: PErrorKindV,
    pub happen_at: LocationV,
}

impl View for PError {
    type V = PErrorV;

    open spec fn view(&self) -> PErrorV {
        PErrorV { kind: self.kind@, happen_at: self.happen_at@ }
    }
}

impl PErrorV {
    /// What an error says: its kind's message, then where it happened.
    pub open spec fn message(self) -> Seq<char> {
        self.kind.message() + " (at "@ + self.happen_at.text() + ")"@
    }

    /// The error of the given kind, at no known location.
    pub open spec fn nowhere(kind: PErrorKindV) -> PErrorV {
        PErrorV { kind, happen_at: LocationV { filename: None, coord: None } }
    }
}

/// The result of the front end's operations.
pub type PResult<T> = Result<T, PError>;

impl PError {
    /// The error of the given kind, at no known location.
    pub fn from(kind: PErrorKind) -> (r: PError)
        ensures
            r@ == PErrorV::nowhere(kind@),
    {
        PError { kind, happen_at: Location::new() }
    }

    /// What the error says: its kind's message, then where it happened.
    pub fn message(&self) -> (r: String)
        ensures
            r@ == self@.message(),
    {
        let mut s = self.kind.message();
        s.append(" (at ");
        s.append(self.happen_at.text().as_str());
        s.append(")");
        s
    }

    /// The same error, at `location`.
    pub fn with_loc(self, location: Location) -> (r: PError)
        ensures
            r@ == (PErrorV { kind: self@.kind, happen_at: location@ }),
    {
        let mut e = self;
        e.happen_at = location;
        e
    }
}

impl PErrorKind {
    /// The failure of this kind, at no known location.
    pub fn to_err<T>(self) -> (r: PResult<T>)
        ensures
            r matches Err(e) && e@ == PErrorV::nowhere(self@),
    {
        Err(PError::from(self))
    }

    /// The failure of this kind, at `location`.
    pub fn to_err_with_loc<T>(self, location: Location) -> (r: PResult<T>)
        ensures
            r matches Err(e) && e@ == (PErrorV { kind: self@, happen_at: location@ }),
    {
        Err(PError::from(self).with_loc(location))
    }
}

} // verus!
