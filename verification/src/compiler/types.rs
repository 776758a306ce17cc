//! Types of the compiler: `i32`, data types, and names yet to be resolved.
use vstd::prelude::*;
use crate::lang::name::NameV;
use crate::lang::types::{KindV, TypeV};
use crate::compiler::name::Name;
use crate::text::str_is;

verus! {

/// The kinds of types.
#[derive(Debug, PartialEq, Eq)]
pub enum TypeKind {
    Int32,
    /// A data type defined by the user; its name is the type's `refs`.
    Data,
    /// A type named in the text and not yet resolved.
    Unsolved(String),
    /// A type not yet known.
    UnsolvedNoHint,
}

impl View for TypeKind {
    type V = KindV;

    open spec fn view(&self) -> KindV {
        match self {
            TypeKind::Int32 => KindV::Int32,
            TypeKind::Data => KindV::Data,
            TypeKind::Unsolved(s) => KindV::Unsolved(s@),
            TypeKind::UnsolvedNoHint => KindV::UnsolvedNoHint,
        }
    }
}

impl Clone for TypeKind {
    fn clone(&self) -> (r: TypeKind)
        ensures
            r@ == self@,
    {
        match self {
            TypeKind::Int32 => TypeKind::Int32,
            TypeKind::Data => TypeKind::Data,
            TypeKind::Unsolved(s) => TypeKind::Unsolved(s.clone()),
            TypeKind::UnsolvedNoHint => TypeKind::UnsolvedNoHint,
        }
    }
}

/// The type that the type name `s` denotes: `i32`, or a name to resolve.
pub open spec fn type_named(s: Seq<char>) -> TypeV {
    if s == seq!['i', '3', '2'] {
        TypeV { kind: KindV::Int32, refs: None }
    } else {
        TypeV { kind: KindV::Unsolved(s), refs: None }
    }
}

/// The name a kind is written with when a system is serialized.
pub open spec fn written(k: KindV) -> Option<Seq<char>> {
    match k {
        KindV::Int32 => Some(seq!['I', 'n', 't', '3', '2']),
        KindV::Data => Some(seq!['D', 'a', 't', 'a']),
        _ => None,
    }
}

/// The kind read back from its written name, if it is one.
pub open spec fn read(s: Seq<char>) -> Option<KindV> {
    if s == seq!['I', 'n', 't', '3', '2'] {
        Some(KindV::Int32)
    } else if s == seq!['D', 'a', 't', 'a'] {
        Some(KindV::Data)
    } else {
        None
    }
}

impl TypeKind {
    /// The name the kind is written with when a system is serialized; none
    /// for a kind not yet resolved, which cannot be serialized.
    pub fn serialized_name(&self) -> (r: Option<String>)
        ensures
            (match r {
                Some(s) => Some(s@),
                None => None,
            }) == written(self@),
    {
        proof {
            reveal_strlit("Int32");
            reveal_strlit("Data");
        }
        match self {
            TypeKind::Int32 => Some("Int32".to_owned()),
            TypeKind::Data => Some("Data".to_owned()),
            _ => None,
        }
    }

    /// The kind read back from its serialized name; none for a name that no
    /// kind is written with.
    pub fn from_serialized(name: &str) -> (r: Option<TypeKind>)
        ensures
            (match r {
                Some(k) => Some(k@),
                None => None,
            }) == read(name@),
    {
        proof {
            reveal_strlit("Int32");
            reveal_strlit("Data");
            assert("Int32"@ =~= seq!['I', 'n', 't', '3', '2']);
            assert("Data"@ =~= seq!['D', 'a', 't', 'a']);
        }
        if str_is(name, "Int32") {
            Some(TypeKind::Int32)
        } else if str_is(name, "Data") {
            Some(TypeKind::Data)
        } else {
            None
        }
    }

    /// Whether the two kinds are the same.
    pub fn same(&self, other: &TypeKind) -> (r: bool)
        ensures
            r == (self@ == other@),
    {
        match (self, other) {
            (TypeKind::Int32, TypeKind::Int32) => true,
            (TypeKind::Data, TypeKind::Data) => true,
            (TypeKind::Unsolved(a), TypeKind::Unsolved(b)) => *a == *b,
            (TypeKind::UnsolvedNoHint, TypeKind::UnsolvedNoHint) => true,
            _ => false,
        }
    }
}

/// A type: its kind and, for data types, the name of the data.
#[derive(Debug, PartialEq, Eq)]
pub struct Type {
    pub kind: TypeKind,
    pub refs: Option<Name>,
}

impl View for Type {
    type V = TypeV;

    open spec fn view(&self) -> TypeV {
        TypeV {
            kind: self.kind@,
            refs: match self.refs {
                Some(n) => Some(n@),
                None => None,
            },
        }
    }
}

impl Clone for Type {
    fn clone(&self) -> (r: Type)
        ensures
            r@ == self@,
    {
        let refs = match &self.refs {
            Some(n) => Some(n.clone()),
            None => None,
        };
        Type { kind: self.kind.clone(), refs }
    }
}

/// How a type of the compiler is shown in messages: `Int32`, the name of
/// a type not yet resolved, `UnsolvedNoHint`, or `Data:` followed by
/// `Some(<full name>)` or `None`.
pub open spec fn type_text(t: TypeV) -> Seq<char> {
    match t.kind {
        KindV::Int32 => "Int32"@,
        KindV::Unsolved(h) => h,
        KindV::UnsolvedNoHint => "UnsolvedNoHint"@,
        _ => "Data:"@ + match t.refs {
            Some(n) => "Some("@ + n.full() + ")"@,
            None => "None"@,
        },
    }
}

impl Type {
    pub fn new(kind: TypeKind, name: Option<Name>) -> (r: Type)
        ensures
            r@.kind == kind@,
            r@.refs == (match name {
                Some(n) => Some(n@),
                None => None::<NameV>,
            }),
    {
        Type { kind, refs: name }
    }

    /// A type not yet known.
    pub fn new_unsovled_nohint() -> (r: Type)
        ensures
            r@ == TypeV::nohint(),
    {
        Type { kind: TypeKind::UnsolvedNoHint, refs: None }
    }

    /// The type that the type name denotes: `i32`, or a name to resolve.
    pub fn from(name: String) -> (r: Type)
        ensures
            r@ == type_named(name@),
    {
        proof {
            reveal_strlit("i32");
            assert("i32"@ =~= seq!['i', '3', '2']);
        }
        if str_is(name.as_str(), "i32") {
            Type { kind: TypeKind::Int32, refs: None }
        } else {
            Type { kind: TypeKind::Unsolved(name), refs: None }
        }
    }

    /// How the type is shown in messages.
    pub fn text(&self) -> (r: String)
        ensures
            r@ == type_text(self@),
    {
        match &self.kind {
            TypeKind::Int32 => String::from_str("Int32"),
            TypeKind::Unsolved(h) => h.clone(),
            TypeKind::UnsolvedNoHint => String::from_str("UnsolvedNoHint"),
            TypeKind::Data => {
                let mut s = String::from_str("Data:");
                match &self.refs {
                    Some(n) => {
                        s.append("Some(");
                        s.append(n.get_global_name().as_str());
                        s.append(")");
                    },
                    None => s.append("None"),
                }
                s
            },
        }
    }

    /// Whether the two types are the same.
    pub fn same(&self, other: &Type) -> (r: bool)
        ensures
            r == (self@ == other@),
    {
        if !self.kind.same(&other.kind) {
            return false;
        }
        match (&self.refs, &other.refs) {
            (Some(a), Some(b)) => a.same(b),
            (None, None) => true,
            _ => false,
        }
    }
}

} // verus!
