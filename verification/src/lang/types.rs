//! Types of members, arguments and variables.
use vstd::prelude::*;
use crate::lang::name::{Name, NameV};
use crate::text::str_is;

verus! {

/// The kinds of types.
#[derive(Debug, PartialEq, Eq)]
pub enum TypeKind {
    Int32,
    UInt32,
    Float32,
    Boolean,
    Char,
    /// A data type defined by the user; its name is the type's `refs`.
    Data,
    /// The result type of a procedure.
    Void,
    /// A type named in the text and not yet resolved.
    Unsolved(String),
    /// A type not yet known.
    UnsolvedNoHint,
}

/// The mathematical model of a type kind.
pub enum KindV {
    Int32,
    UInt32,
    Float32,
    Boolean,
    Char,
    Data,
    Void,
    Unsolved(Seq<char>),
    UnsolvedNoHint,
}

impl KindV {
    pub open spec fn is_primitive(self) -> bool {
        match self {
            KindV::Int32 | KindV::UInt32 | KindV::Float32 | KindV::Boolean | KindV::Char => true,
            _ => false,
        }
    }

    /// The name a kind is written with when a system is serialized; none
    /// for a kind not yet resolved.
    pub open spec fn written(self) -> Option<Seq<char>> {
        match self {
            KindV::Int32 => Some(seq!['i', '3', '2']),
            KindV::UInt32 => Some(seq!['u', '3', '2']),
            KindV::Float32 => Some(seq!['f', '3', '2']),
            KindV::Boolean => Some(seq!['b', 'o', 'o', 'l']),
            KindV::Char => Some(seq!['c', 'h', 'a', 'r']),
            KindV::Data => Some(seq!['D', 'a', 't', 'a']),
            KindV::Void => Some(seq!['V', 'o', 'i', 'd']),
            _ => None,
        }
    }

    /// Whether the kind is resolved: neither named and still to be looked
    /// up, nor not known at all.
    pub open spec fn is_solved(self) -> bool {
        !(self is Unsolved) && !(self is UnsolvedNoHint)
    }

    /// How a kind is shown in messages: its written name, or the name it
    /// was given while still unresolved.
    pub open spec fn text(self) -> Seq<char> {
        match self {
            KindV::Unsolved(h) => h,
            KindV::UnsolvedNoHint => "UnsolvedNoHint"@,
            _ => self.written()->Some_0,
        }
    }

    /// The kind read back from its written name: a name that is not a
    /// primitive's stands for a data type.
    pub open spec fn read(s: Seq<char>) -> KindV {
        if s == seq!['V', 'o', 'i', 'd'] {
            KindV::Void
        } else {
            match KindV::from_name(s) {
                KindV::Unsolved(_) => KindV::Data,
                k => k,
            }
        }
    }

    /// The kind that the type name `s` denotes.
    pub open spec fn from_name(s: Seq<char>) -> KindV {
        if s == seq!['i', '3', '2'] {
            KindV::Int32
        } else if s == seq!['u', '3', '2'] {
            KindV::UInt32
        } else if s == seq!['f', '3', '2'] {
            KindV::Float32
        } else if s == seq!['b', 'o', 'o', 'l'] {
            KindV::Boolean
        } else if s == seq!['c', 'h', 'a', 'r'] {
            KindV::Char
        } else {
            KindV::Unsolved(s)
        }
    }
}

impl View for TypeKind {
    type V = KindV;

    open spec fn view(&self) -> KindV {
        match self {
            TypeKind::Int32 => KindV::Int32,
            TypeKind::UInt32 => KindV::UInt32,
            TypeKind::Float32 => KindV::Float32,
            TypeKind::Boolean => KindV::Boolean,
            TypeKind::Char => KindV::Char,
            TypeKind::Data => KindV::Data,
            TypeKind::Void => KindV::Void,
            TypeKind::Unsolved(s) => KindV::Unsolved(s@),
            TypeKind::UnsolvedNoHint => KindV::UnsolvedNoHint,
        }
    }
}

impl Clone for TypeKind {
    fn clone(&self) -> (r: TypeKind)
        ensures
            r@ == self@,
    {
        match self {
            TypeKind::Int32 => TypeKind::Int32,
            TypeKind::UInt32 => TypeKind::UInt32,
            TypeKind::Float32 => TypeKind::Float32,
            TypeKind::Boolean => TypeKind::Boolean,
            TypeKind::Char => TypeKind::Char,
            TypeKind::Data => TypeKind::Data,
            TypeKind::Void => TypeKind::Void,
            TypeKind::Unsolved(s) => TypeKind::Unsolved(s.clone()),
            TypeKind::UnsolvedNoHint => TypeKind::UnsolvedNoHint,
        }
    }
}

impl TypeKind {
    /// The kind that the type name denotes: a primitive for `i32`, `u32`,
    /// `f32`, `bool` and `char`, otherwise a name yet to be resolved.
    pub fn from(name: String) -> (r: TypeKind)
        ensures
            r@ == KindV::from_name(name@),
    {
        proof {
            reveal_strlit("i32");
            reveal_strlit("u32");
            reveal_strlit("f32");
            reveal_strlit("bool");
            reveal_strlit("char");
            assert("i32"@ =~= seq!['i', '3', '2']);
            assert("u32"@ =~= seq!['u', '3', '2']);
            assert("f32"@ =~= seq!['f', '3', '2']);
            assert("bool"@ =~= seq!['b', 'o', 'o', 'l']);
            assert("char"@ =~= seq!['c', 'h', 'a', 'r']);
        }
        if str_is(name.as_str(), "i32") {
            TypeKind::Int32
        } else if str_is(name.as_str(), "u32") {
            TypeKind::UInt32
        } else if str_is(name.as_str(), "f32") {
            TypeKind::Float32
        } else if str_is(name.as_str(), "bool") {
            TypeKind::Boolean
        } else if str_is(name.as_str(), "char") {
            TypeKind::Char
        } else {
            TypeKind::Unsolved(name)
        }
    }

    /// The name the kind is written with when a system is serialized; none
    /// for a kind not yet resolved, which cannot be serialized.
    pub fn serialized_name(&self) -> (r: Option<String>)
        ensures
            (match r {
                Some(s) => Some(s@),
                None => None,
            }) == self@.written(),
    {
        proof {
            reveal_strlit("i32");
            reveal_strlit("u32");
            reveal_strlit("f32");
            reveal_strlit("bool");
            reveal_strlit("char");
            reveal_strlit("Data");
            reveal_strlit("Void");
        }
        match self {
            TypeKind::Int32 => Some("i32".to_owned()),
            TypeKind::UInt32 => Some("u32".to_owned()),
            TypeKind::Float32 => Some("f32".to_owned()),
            TypeKind::Boolean => Some("bool".to_owned()),
            TypeKind::Char => Some("char".to_owned()),
            TypeKind::Data => Some("Data".to_owned()),
            TypeKind::Void => Some("Void".to_owned()),
            TypeKind::Unsolved(_) | TypeKind::UnsolvedNoHint => None,
        }
    }

    /// How the kind is shown in messages.
    pub fn text(&self) -> (r: String)
        ensures
            r@ == self@.text(),
    {
        match self {
            TypeKind::Unsolved(h) => h.clone(),
            TypeKind::UnsolvedNoHint => String::from_str("UnsolvedNoHint"),
            _ => self.serialized_name().unwrap(),
        }
    }

    /// The kind read back from its serialized name.
    pub fn from_serialized(name: String) -> (r: TypeKind)
        ensures
            r@ == KindV::read(name@),
    {
        proof {
            reveal_strlit("Void");
            assert("Void"@ =~= seq!['V', 'o', 'i', 'd']);
        }
        if str_is(name.as_str(), "Void") {
            return TypeKind::Void;
        }
        match TypeKind::from(name) {
            TypeKind::Unsolved(_) => TypeKind::Data,
            k => k,
        }
    }

    /// Whether the kind is one of the primitive types.
    pub fn is_primitive(&self) -> (r: bool)
        ensures
            r == self@.is_primitive(),
    {
        match self {
            TypeKind::Int32 | TypeKind::UInt32 | TypeKind::Float32 | TypeKind::Boolean
            | TypeKind::Char => true,
            _ => false,
        }
    }

    /// Whether the two kinds are the same.
    pub fn same(&self, other: &TypeKind) -> (r: bool)
        ensures
            r == (self@ == other@),
    {
        match self {
            TypeKind::Int32 => match other {
                TypeKind::Int32 => true,
                _ => false,
            },
            TypeKind::UInt32 => match other {
                TypeKind::UInt32 => true,
                _ => false,
            },
            TypeKind::Float32 => match other {
                TypeKind::Float32 => true,
                _ => false,
            },
            TypeKind::Boolean => match other {
                TypeKind::Boolean => true,
                _ => false,
            },
            TypeKind::Char => match other {
                TypeKind::Char => true,
                _ => false,
            },
            TypeKind::Data => match other {
                TypeKind::Data => true,
                _ => false,
            },
            TypeKind::Void => match other {
                TypeKind::Void => true,
                _ => false,
            },
            TypeKind::Unsolved(a) => match other {
                TypeKind::Unsolved(b) => *a == *b,
                _ => false,
            },
            TypeKind::UnsolvedNoHint => match other {
                TypeKind::UnsolvedNoHint => true,
                _ => false,
            },
        }
    }
}

/// A type: its kind and, for data types, the name of the data.
#[derive(Debug, PartialEq, Eq)]
pub struct Type {
    pub kind: TypeKind,
    pub refs: Option<Name>,
}

/// The mathematical model of a type.
pub struct TypeV {
    pub kind: KindV,
    pub refs: Option<NameV>,
}

impl View for Type {
    type V = TypeV;

    open spec fn view(&self) -> TypeV {
        TypeV {
            kind: self.kind@,
            refs: match self.refs {
                Some(n) => Some(n@),
                None => None,
            },
        }
    }
}

impl Clone for Type {
    fn clone(&self) -> (r: Type)
        ensures
            r@ == self@,
    {
        let refs = match &self.refs {
            Some(n) => Some(n.clone()),
            None => None,
        };
        Type { kind: self.kind.clone(), refs }
    }
}

impl TypeV {
    /// How a type is shown in messages:
    /// `Type { kind: <kind>, refs: Some(<full name>) }`, or `refs: None`.
    pub open spec fn text(self) -> Seq<char> {
        "Type { kind: "@ + self.kind.text() + ", refs: "@ + match self.refs {
            Some(n) => "Some("@ + n.full() + ")"@,
            None => "None"@,
        } + " }"@
    }

    pub open spec fn nohint() -> TypeV {
        TypeV { kind: KindV::UnsolvedNoHint, refs: None }
    }

    pub open spec fn from_name(s: Seq<char>) -> TypeV {
        TypeV { kind: KindV::from_name(s), refs: None }
    }
}

impl Type {
    pub fn new(kind: TypeKind, name: Option<Name>) -> (r: Type)
        ensures
            r@.kind == kind@,
            r@.refs == (match name {
                Some(n) => Some(n@),
                None => None::<NameV>,
            }),
    {
        Type { kind, refs: name }
    }

    /// A type not yet known.
    pub fn new_unsovled_nohint() -> (r: Type)
        ensures
            r@ == TypeV::nohint(),
    {
        Type { kind: TypeKind::UnsolvedNoHint, refs: None }
    }

    /// The type that the type name denotes, with no reference yet.
    pub fn from(name: String) -> (r: Type)
        ensures
            r@ == TypeV::from_name(name@),
    {
        Type { kind: TypeKind::from(name), refs: None }
    }

    /// How the type is shown in messages.
    pub fn text(&self) -> (r: String)
        ensures
            r@ == self@.text(),
    {
        let mut s = String::from_str("Type { kind: ");
        s.append(self.kind.text().as_str());
        s.append(", refs: ");
        match &self.refs {
            Some(n) => {
                s.append("Some(");
                s.append(n.get_full_name().as_str());
                s.append(")");
            },
            None => s.append("None"),
        }
        s.append(" }");
        s
    }

    /// Whether the two types are the same.
    pub fn same(&self, other: &Type) -> (r: bool)
        ensures
            r == (self@ == other@),
    {
        if !self.kind.same(&other.kind) {
            return false;
        }
        match (&self.refs, &other.refs) {
            (Some(a), Some(b)) => a.same(b),
            (None, None) => true,
            _ => false,
        }
    }
}

/// A kind that has a written name is read back from it unchanged.
pub proof fn lemma_kind_read_written(k: KindV)
    requires
        k.written() is Some,
    ensures
        KindV::read(k.written().unwrap()) == k,
{
}

} // verus!
