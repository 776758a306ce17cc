//! The definitions of a system and the lookups over them.
//!
//! A name is looked up from a namespace outwards: first among the
//! definitions made directly in the namespace, then in its parent, up to
//! the root; then among the imported names. From a namespace below a spawn
//! (one that holds `_`) only variables that are themselves below a spawn
//! are seen, so that a spawn reaches the function's arguments through `use`.
use vstd::prelude::*;
use crate::lang::name::{Name, NameV};
use crate::lang::types::{Type, TypeKind, TypeV, KindV};
use crate::lang::error::{PError, PErrorKind, PErrorKindV, PErrorV, PResult};
use crate::lang::structure::{NT, views_of};
use crate::lang::structure::unchecked::{
    SysDCSystem, SysDCUnit, SysDCData, SysDCModule, SysDCFunction, SysDCAnnotation,
    SysDCSpawnDetail, SystemV, UnitV, DataV, ModuleV, FunctionV, AnnotationV, DetailV,
};
use crate::lang::check::lists::{concat_map, lemma_take_next, lemma_take_all, lemma_concat_map_append, lemma_concat_map_keeps};
use crate::text::{split_by, join_with, views, chars_of, string_of, split_chars, join_chars,
    lemma_join_split, lemma_split_two, lemma_split_nonempty};

verus! {

/// What a definition defines.
#[derive(Debug, PartialEq, Eq)]
pub enum DefineKind {
    Data,
    DataMember(Type),
    Module,
    /// A function, with the type it returns.
    Function(Type),
    Argument(Type),
    Variable(Type),
    /// A name brought into a spawn by `use`, with the name it refers to.
    Use(Name),
}

/// The model of what a definition defines.
pub enum DefineKindV {
    Data,
    DataMember(TypeV),
    Module,
    Function(TypeV),
    Argument(TypeV),
    Variable(TypeV),
    Use(NameV),
}

impl View for DefineKind {
    type V = DefineKindV;

    open spec fn view(&self) -> DefineKindV {
        match self {
            DefineKind::Data => DefineKindV::Data,
            DefineKind::DataMember(t) => DefineKindV::DataMember(t@),
            DefineKind::Module => DefineKindV::Module,
            DefineKind::Function(t) => DefineKindV::Function(t@),
            DefineKind::Argument(t) => DefineKindV::Argument(t@),
            DefineKind::Variable(t) => DefineKindV::Variable(t@),
            DefineKind::Use(n) => DefineKindV::Use(n@),
        }
    }
}

impl Clone for DefineKind {
    fn clone(&self) -> (r: DefineKind)
        ensures
            r@ == self@,
    {
        match self {
            DefineKind::Data => DefineKind::Data,
            DefineKind::DataMember(t) => DefineKind::DataMember(t.clone()),
            DefineKind::Module => DefineKind::Module,
            DefineKind::Function(t) => DefineKind::Function(t.clone()),
            DefineKind::Argument(t) => DefineKind::Argument(t.clone()),
            DefineKind::Variable(t) => DefineKind::Variable(t.clone()),
            DefineKind::Use(n) => DefineKind::Use(n.clone()),
        }
    }
}

/// A definition: what it defines and its name.
#[derive(Debug, PartialEq, Eq)]
pub struct Define {
    pub kind: DefineKind,
    pub refs: Name,
}

/// The model of a definition.
pub struct DefineV {
    pub kind: DefineKindV,
    pub refs: NameV,
}

impl View for Define {
    type V = DefineV;

    open spec fn view(&self) -> DefineV {
        DefineV { kind: self.kind@, refs: self.refs@ }
    }
}

impl Clone for Define {
    fn clone(&self) -> (r: Define)
        ensures
            r@ == self@,
    {
        Define { kind: self.kind.clone(), refs: self.refs.clone() }
    }
}

impl Define {
    pub fn new(kind: DefineKind, refs: Name) -> (r: Define)
        ensures
            r@ == (DefineV { kind: kind@, refs: refs@ }),
    {
        Define { kind, refs }
    }
}

/// The definitions of a system, in the order they were made.
pub struct DefinesManager {
    defines: Vec<Define>,
}

impl View for DefinesManager {
    type V = Seq<DefineV>;

    closed spec fn view(&self) -> Seq<DefineV> {
        views_of(self.defines@)
    }
}

/// A failure of kind `k`, at no location.
pub open spec fn fail(k: PErrorKindV) -> PErrorV {
    PErrorV::nowhere(k)
}

/// From a namespace below a spawn, a variable defined outside every spawn
/// is not seen.
pub open spec fn hidden(d: DefineV, below_spawn: bool) -> bool {
    d.kind is Variable && below_spawn && !d.refs.has_underscore()
}

/// The first definition from index `i` on named `name` directly in the
/// namespace `ns`.
pub open spec fn first_in(defs: Seq<DefineV>, i: int, ns: Seq<char>, name: Seq<char>, below_spawn: bool) -> Option<DefineV>
    decreases defs.len() - i,
{
    if i < 0 || i >= defs.len() {
        None
    } else if defs[i].refs.namespace == ns && defs[i].refs.name == name && !hidden(defs[i], below_spawn) {
        Some(defs[i])
    } else {
        first_in(defs, i + 1, ns, name, below_spawn)
    }
}

/// The definition of `name` seen from the namespace of `at`, then from
/// each enclosing namespace up to the root.
pub open spec fn find_up(defs: Seq<DefineV>, at: NameV, name: Seq<char>, below_spawn: bool) -> Option<DefineV>
    decreases at.full().len(),
{
    if at.name.len() == 0 {
        None
    } else {
        match first_in(defs, 0, at.namespace, name, below_spawn) {
            Some(d) => Some(d),
            None => if at.par(false).full().len() < at.full().len() {
                find_up(defs, at.par(false), name, below_spawn)
            } else {
                None
            },
        }
    }
}

/// The first import from index `i` on whose name is `name`.
pub open spec fn first_import(imports: Seq<NameV>, i: int, name: Seq<char>) -> Option<NameV>
    decreases imports.len() - i,
{
    if i < 0 || i >= imports.len() {
        None
    } else if imports[i].name == name {
        Some(imports[i])
    } else {
        first_import(imports, i + 1, name)
    }
}

/// The definition of `name` seen from `at`, or else the one an import of
/// that name refers to.
pub open spec fn find(defs: Seq<DefineV>, at: NameV, name: Seq<char>, imports: Seq<NameV>) -> Result<DefineV, PErrorV> {
    match find_up(defs, at, name, at.has_underscore()) {
        Some(d) => Ok(d),
        None => match first_import(imports, 0, name) {
            Some(imp) => match find_up(defs, imp, imp.name, imp.has_underscore()) {
                Some(d) => Ok(d),
                None => Err(fail(PErrorKindV::NotFound(imp.name))),
            },
            None => Err(fail(PErrorKindV::NotFound(name))),
        },
    }
}

/// Adding one definition: refused when its name is already defined where
/// it is seen from, unless one of the two is an argument.
pub open spec fn add_one(defs: Seq<DefineV>, d: DefineV) -> Result<Seq<DefineV>, PErrorV> {
    match find(defs, d.refs, d.refs.name, Seq::empty()) {
        Ok(found) => if found.kind is Argument || d.kind is Argument {
            Ok(defs.push(d))
        } else {
            Err(fail(PErrorKindV::AlreadyDefined(d.refs.name)))
        },
        Err(_) => Ok(defs.push(d)),
    }
}

/// Adding definitions one after another from `defs` on.
pub open spec fn add_from(defs: Seq<DefineV>, ds: Seq<DefineV>) -> Result<Seq<DefineV>, PErrorV>
    decreases ds.len(),
{
    if ds.len() == 0 {
        Ok(defs)
    } else {
        match add_one(defs, ds[0]) {
            Err(e) => Err(e),
            Ok(d2) => add_from(d2, ds.drop_first()),
        }
    }
}

/// The definitions a line of a spawn makes: a `use` refers to the name in
/// the namespace that encloses the spawn.
pub open spec fn detail_defines(d: DetailV) -> Seq<DefineV> {
    match d {
        DetailV::Use(n, _) => seq![
            DefineV { kind: DefineKindV::Use(n.par(true).child(n.name)), refs: n },
        ],
        DetailV::LetTo { name, func, .. } => seq![
            DefineV { kind: DefineKindV::Variable(func.1), refs: name },
        ],
        DetailV::Return(_, _) => Seq::empty(),
    }
}

pub open spec fn detail_defs() -> spec_fn(DetailV) -> Seq<DefineV> {
    |d: DetailV| detail_defines(d)
}

/// The definitions an annotation makes: a spawn defines its result and
/// what its lines define.
pub open spec fn annotation_defines(a: AnnotationV) -> Seq<DefineV> {
    match a {
        AnnotationV::Spawn { result, details } => seq![
            DefineV { kind: DefineKindV::Variable(result.1), refs: result.0 },
        ] + concat_map(details, detail_defs()),
        _ => Seq::empty(),
    }
}

pub open spec fn annotation_defs() -> spec_fn(AnnotationV) -> Seq<DefineV> {
    |a: AnnotationV| annotation_defines(a)
}

/// An argument is a variable of the function and one of its arguments.
pub open spec fn arg_defines(a: NT) -> Seq<DefineV> {
    seq![
        DefineV { kind: DefineKindV::Variable(a.1), refs: a.0 },
        DefineV { kind: DefineKindV::Argument(a.1), refs: a.0 },
    ]
}

pub open spec fn arg_defs() -> spec_fn(NT) -> Seq<DefineV> {
    |a: NT| arg_defines(a)
}

pub open spec fn function_defines(f: FunctionV) -> Seq<DefineV> {
    seq![DefineV { kind: DefineKindV::Function(f.returns.1), refs: f.name }] + concat_map(
        f.args,
        arg_defs(),
    ) + concat_map(f.annotations, annotation_defs())
}

pub open spec fn function_defs() -> spec_fn(FunctionV) -> Seq<DefineV> {
    |f: FunctionV| function_defines(f)
}

pub open spec fn module_defines(m: ModuleV) -> Seq<DefineV> {
    seq![DefineV { kind: DefineKindV::Module, refs: m.name }] + concat_map(m.functions, function_defs())
}

pub open spec fn module_defs() -> spec_fn(ModuleV) -> Seq<DefineV> {
    |m: ModuleV| module_defines(m)
}

pub open spec fn member_defs() -> spec_fn(NT) -> Seq<DefineV> {
    |m: NT| seq![DefineV { kind: DefineKindV::DataMember(m.1), refs: m.0 }]
}

pub open spec fn data_defines(d: DataV) -> Seq<DefineV> {
    seq![DefineV { kind: DefineKindV::Data, refs: d.name }] + concat_map(d.members, member_defs())
}

pub open spec fn data_defs() -> spec_fn(DataV) -> Seq<DefineV> {
    |d: DataV| data_defines(d)
}

pub open spec fn unit_defines(u: UnitV) -> Seq<DefineV> {
    concat_map(u.data, data_defs()) + concat_map(u.modules, module_defs())
}

pub open spec fn unit_defs() -> spec_fn(UnitV) -> Seq<DefineV> {
    |u: UnitV| unit_defines(u)
}

/// Everything a system defines, in order.
pub open spec fn system_defines(s: SystemV) -> Seq<DefineV> {
    concat_map(s.units, unit_defs())
}

/// The definitions of a system, or the first definition refused.
pub open spec fn defines_of(s: SystemV) -> Result<Seq<DefineV>, PErrorV> {
    add_from(Seq::empty(), system_defines(s))
}

/// Adding two lists of definitions is adding the first and then the
/// second.
pub proof fn lemma_add_from_append(defs: Seq<DefineV>, a: Seq<DefineV>, b: Seq<DefineV>)
    ensures
        add_from(defs, a + b) == (match add_from(defs, a) {
            Err(e) => Err(e),
            Ok(d) => add_from(d, b),
        }),
    decreases a.len(),
{
    if a.len() == 0 {
        assert(a + b =~= b);
    } else {
        assert((a + b)[0] == a[0]);
        assert((a + b).drop_first() =~= a.drop_first() + b);
        match add_one(defs, a[0]) {
            Err(e) => {},
            Ok(d2) => {
                lemma_add_from_append(d2, a.drop_first(), b);
            },
        }
    }
}



/// How many lookups the checker nests: a function followed through the type
/// it returns, a `use` through the name it brings in, a name or a type
/// through the definition it names. Each nested lookup takes a frame of the
/// machine's stack, and this many frames do not fit in any memory that a
/// 64-bit address can reach; only a definition that refers back to itself,
/// which would be followed forever, ever gets this deep, and the check gives
/// it up there with `ResolutionTooDeep`. A path of members inside data is
/// followed to its end whatever its length.
pub const RESOLVE_DEPTH: u64 = 0xffff_ffff_ffff_ffff;

/// The first function named `func` whose enclosing module is `module`,
/// with the type it returns.
pub open spec fn first_func(defs: Seq<DefineV>, i: int, module: NameV, func: Seq<char>) -> Option<NT>
    decreases defs.len() - i,
{
    if i < 0 || i >= defs.len() {
        None
    } else {
        match defs[i].kind {
            DefineKindV::Function(t) => if defs[i].refs.par(true) == module && defs[i].refs.name == func {
                Some((defs[i].refs, t))
            } else {
                first_func(defs, i + 1, module, func)
            },
            _ => first_func(defs, i + 1, module, func),
        }
    }
}

/// The first member named `member` of the data whose full name is `data`,
/// with its type.
pub open spec fn first_member(defs: Seq<DefineV>, i: int, data: Seq<char>, member: Seq<char>) -> Option<NT>
    decreases defs.len() - i,
{
    if i < 0 || i >= defs.len() {
        None
    } else {
        match defs[i].kind {
            DefineKindV::DataMember(t) => if defs[i].refs.namespace == data && defs[i].refs.name == member {
                Some((defs[i].refs, t))
            } else {
                first_member(defs, i + 1, data, member)
            },
            _ => first_member(defs, i + 1, data, member),
        }
    }
}

/// The type `t`, named where `at` stands, resolved: a data type to the
/// data it names, a function (`Module.func`, or `func` of the enclosing
/// module) to the type the function returns. Other types stand as they are,
/// except a type with no name at all: there is nothing to look up, and it
/// is answered with `TypeUnmatch1` rather than taken as resolved.
pub open spec fn resolve_type(defs: Seq<DefineV>, at: NameV, t: TypeV, imports: Seq<NameV>, fuel: nat) -> Result<NT, PErrorV>
    decreases fuel,
{
    match t.kind {
        KindV::Unsolved(hint) => if fuel == 0 {
            Err(fail(PErrorKindV::ResolutionTooDeep))
        } else {
            match find(defs, at, head_of(hint), imports) {
                Err(e) => Err(e),
                Ok(found) => match found.kind {
                    DefineKindV::Data => match tails_of(hint) {
                        Some(_) => Err(fail(PErrorKindV::IllegalAccess)),
                        None => Ok((at, TypeV { kind: KindV::Data, refs: Some(found.refs) })),
                    },
                    DefineKindV::Module => match tails_of(hint) {
                        Some(tl) => func_in_module(defs, found.refs, tl, imports, (fuel - 1) as nat),
                        None => Err(fail(PErrorKindV::MissingFunctionName)),
                    },
                    DefineKindV::Function(_) => func_in_module(
                        defs,
                        at.outer(true),
                        hint,
                        imports,
                        (fuel - 1) as nat,
                    ),
                    _ => Err(fail(PErrorKindV::TypeUnmatch1(t))),
                },
            }
        },
        KindV::UnsolvedNoHint => Err(fail(PErrorKindV::TypeUnmatch1(t))),
        _ => Ok((at, t)),
    }
}

/// The function `func` of `module` and the type it returns.
pub open spec fn func_in_module(defs: Seq<DefineV>, module: NameV, func: Seq<char>, imports: Seq<NameV>, fuel: nat) -> Result<NT, PErrorV>
    decreases fuel,
{
    match first_func(defs, 0, module, func) {
        None => Err(fail(PErrorKindV::FuncNotDefinedInModule(func, module.name))),
        Some((refs, ft)) => if fuel == 0 {
            Err(fail(PErrorKindV::ResolutionTooDeep))
        } else {
            match resolve_type(defs, refs, ft, imports, (fuel - 1) as nat) {
                Err(e) => Err(e),
                Ok((_, ty)) => Ok((refs, ty)),
            }
        },
    }
}

/// The member at the dotted path `member` inside the data `data`: a
/// member of primitive type with its own name, a member of data type with
/// the name of that data.
pub open spec fn member_in_data(defs: Seq<DefineV>, data: NameV, member: Seq<char>, imports: Seq<NameV>, fuel: nat) -> Result<NT, PErrorV>
    decreases member.len(),
{
    match first_member(defs, 0, data.full(), head_of(member)) {
        None => Err(fail(PErrorKindV::MemberNotDefinedInData(member, data.name))),
        Some((refs, mt)) => match resolve_type(defs, refs, mt, imports, fuel) {
            Err(e) => Err(e),
            Ok((_, ty)) => if ty.kind.is_primitive() {
                match tails_of(member) {
                    Some(_) => Err(fail(PErrorKindV::IllegalAccess)),
                    None => Ok((refs, ty)),
                }
            } else if ty.kind is Data {
                match ty.refs {
                    None => Err(fail(PErrorKindV::TypeUnmatch1(ty))),
                    Some(dr) => match tails_of(member) {
                        Some(tl) => {
                            proof {
                                lemma_tails_shorter(member);
                            }
                            member_in_data(defs, dr, tl, imports, fuel)
                        },
                        None => Ok((dr, ty)),
                    },
                }
            } else {
                Err(fail(PErrorKindV::TypeUnmatch1(ty)))
            },
        },
    }
}

/// The path after the first component is shorter than the path.
pub proof fn lemma_tails_shorter(s: Seq<char>)
    ensures
        tails_of(s) matches Some(tl) ==> tl.len() < s.len(),
{
    let parts = split_by(s, '.');
    if parts.len() > 1 {
        crate::text::lemma_join_split(s, '.');
        crate::text::lemma_join_first(parts, '.');
    }
}

/// The variable that `name` (a dotted path) denotes where it stands, and
/// its resolved type; a path into a data variable gives the member's type.
/// A name brought in by `use` is followed to the name it refers to.
pub open spec fn resolve_name(defs: Seq<DefineV>, name: NameV, imports: Seq<NameV>, fuel: nat) -> Result<NT, PErrorV>
    decreases fuel,
{
    if fuel == 0 {
        Err(fail(PErrorKindV::ResolutionTooDeep))
    } else {
        match find(defs, name, head_of(name.name), Seq::empty()) {
            Err(e) => Err(e),
            Ok(found) => match found.kind {
                DefineKindV::Variable(t) => match resolve_type(defs, name, t, imports, (fuel - 1) as nat) {
                    Err(e) => Err(e),
                    Ok((_, ty)) => if ty.kind is Data {
                        match tails_of(name.name) {
                            Some(tl) => match ty.refs {
                                None => Err(fail(PErrorKindV::TypeUnmatch1(ty))),
                                Some(dr) => match member_in_data(defs, dr, tl, imports, (fuel - 1) as nat) {
                                    Err(e) => Err(e),
                                    Ok((_, mt)) => Ok((name, mt)),
                                },
                            },
                            None => Ok((found.refs, ty)),
                        }
                    } else {
                        Ok((found.refs, ty))
                    },
                },
                DefineKindV::Use(u) => match tails_of(name.name) {
                    Some(_) => match resolve_name(defs, u, imports, (fuel - 1) as nat) {
                        Err(e) => Err(e),
                        Ok((dn, _)) => resolve_name(defs, dn.par(false).child(name.name), imports, (fuel - 1) as nat),
                    },
                    None => resolve_name(defs, u, imports, (fuel - 1) as nat),
                },
                _ => Err(fail(PErrorKindV::NotDefined(name.name))),
            },
        }
    }
}

/// A type that resolves without error is resolved: no name is left to
/// look up in it.
pub proof fn lemma_resolve_type_solved(defs: Seq<DefineV>, at: NameV, t: TypeV, imports: Seq<NameV>, fuel: nat)
    ensures
        resolve_type(defs, at, t, imports, fuel) matches Ok((_, r)) ==> r.kind.is_solved(),
    decreases fuel,
{
    if fuel > 0 {
        if let KindV::Unsolved(hint) = t.kind {
            if let Ok(found) = find(defs, at, head_of(hint), imports) {
                match found.kind {
                    DefineKindV::Module => if let Some(tl) = tails_of(hint) {
                        lemma_func_solved(defs, found.refs, tl, imports, (fuel - 1) as nat);
                    },
                    DefineKindV::Function(_) => {
                        lemma_func_solved(defs, at.outer(true), hint, imports, (fuel - 1) as nat);
                    },
                    _ => {},
                }
            }
        }
    }
}

/// A function found in a module returns a resolved type.
proof fn lemma_func_solved(defs: Seq<DefineV>, module: NameV, func: Seq<char>, imports: Seq<NameV>, fuel: nat)
    ensures
        func_in_module(defs, module, func, imports, fuel) matches Ok((_, r)) ==> r.kind.is_solved(),
    decreases fuel,
{
    if let Some((refs, ft)) = first_func(defs, 0, module, func) {
        if fuel > 0 {
            lemma_resolve_type_solved(defs, refs, ft, imports, (fuel - 1) as nat);
        }
    }
}

/// A member found inside data has a resolved type.
pub proof fn lemma_member_solved(defs: Seq<DefineV>, data: NameV, member: Seq<char>, imports: Seq<NameV>, fuel: nat)
    ensures
        member_in_data(defs, data, member, imports, fuel) matches Ok((_, r)) ==> r.kind.is_solved(),
    decreases member.len(),
{
    if let Some((refs, mt)) = first_member(defs, 0, data.full(), head_of(member)) {
        lemma_resolve_type_solved(defs, refs, mt, imports, fuel);
        if let Ok((_, ty)) = resolve_type(defs, refs, mt, imports, fuel) {
            if let Some(dr) = ty.refs {
                if let Some(tl) = tails_of(member) {
                    lemma_tails_shorter(member);
                    lemma_member_solved(defs, dr, tl, imports, fuel);
                }
            }
        }
    }
}

/// A name that resolves without error has a resolved type.
pub proof fn lemma_resolve_name_solved(defs: Seq<DefineV>, name: NameV, imports: Seq<NameV>, fuel: nat)
    ensures
        resolve_name(defs, name, imports, fuel) matches Ok((_, r)) ==> r.kind.is_solved(),
    decreases fuel,
{
    if fuel > 0 {
        if let Ok(found) = find(defs, name, head_of(name.name), Seq::empty()) {
            match found.kind {
                DefineKindV::Variable(t) => {
                    lemma_resolve_type_solved(defs, name, t, imports, (fuel - 1) as nat);
                    if let Ok((_, ty)) = resolve_type(defs, name, t, imports, (fuel - 1) as nat) {
                        if let (Some(tl), Some(dr)) = (tails_of(name.name), ty.refs) {
                            lemma_member_solved(defs, dr, tl, imports, (fuel - 1) as nat);
                        }
                    }
                },
                DefineKindV::Use(u) => {
                    lemma_resolve_name_solved(defs, u, imports, (fuel - 1) as nat);
                    if let Ok((dn, _)) = resolve_name(defs, u, imports, (fuel - 1) as nat) {
                        lemma_resolve_name_solved(
                            defs,
                            dn.par(false).child(name.name),
                            imports,
                            (fuel - 1) as nat,
                        );
                    }
                },
                _ => {},
            }
        }
    }
}

/// The first definition found from index `i` on is one of the definitions.
proof fn lemma_first_in_is_def(defs: Seq<DefineV>, i: int, ns: Seq<char>, name: Seq<char>, below_spawn: bool)
    ensures
        first_in(defs, i, ns, name, below_spawn) matches Some(d) ==> defs.contains(d),
    decreases defs.len() - i,
{
    if 0 <= i < defs.len() {
        if defs[i].refs.namespace == ns && defs[i].refs.name == name && !hidden(defs[i], below_spawn) {
            assert(defs[i] == defs[i]);
        } else {
            lemma_first_in_is_def(defs, i + 1, ns, name, below_spawn);
        }
    }
}

/// A definition found from a namespace upwards is one of the definitions.
proof fn lemma_find_up_is_def(defs: Seq<DefineV>, at: NameV, name: Seq<char>, below_spawn: bool)
    ensures
        find_up(defs, at, name, below_spawn) matches Some(d) ==> defs.contains(d),
    decreases at.full().len(),
{
    if at.name.len() > 0 {
        lemma_first_in_is_def(defs, 0, at.namespace, name, below_spawn);
        if first_in(defs, 0, at.namespace, name, below_spawn) is None && at.par(false).full().len()
            < at.full().len() {
            lemma_find_up_is_def(defs, at.par(false), name, below_spawn);
        }
    }
}

/// A definition found by name is one of the definitions.
pub proof fn lemma_found_is_def(defs: Seq<DefineV>, at: NameV, name: Seq<char>, imports: Seq<NameV>)
    ensures
        find(defs, at, name, imports) matches Ok(d) ==> defs.contains(d),
{
    lemma_find_up_is_def(defs, at, name, at.has_underscore());
    if let Some(imp) = first_import(imports, 0, name) {
        lemma_find_up_is_def(defs, imp, imp.name, imp.has_underscore());
    }
}

/// A name resolves to the variable it denotes: the name the resolution
/// gives is that of a `Variable` definition (a `use` is followed to what it
/// refers to), or, for a path into data, a dotted name.
pub proof fn lemma_resolved_name_is_variable(defs: Seq<DefineV>, name: NameV, imports: Seq<NameV>, fuel: nat)
    ensures
        resolve_name(defs, name, imports, fuel) matches Ok((r, _)) ==> (tails_of(r.name) is Some
            || exists|i: int| 0 <= i < defs.len() && defs[i].refs == r && defs[i].kind is Variable),
    decreases fuel,
{
    if fuel > 0 {
        lemma_found_is_def(defs, name, head_of(name.name), Seq::empty());
        if let Ok(found) = find(defs, name, head_of(name.name), Seq::empty()) {
            match found.kind {
                DefineKindV::Use(u) => {
                    lemma_resolved_name_is_variable(defs, u, imports, (fuel - 1) as nat);
                    if let Ok((dn, _)) = resolve_name(defs, u, imports, (fuel - 1) as nat) {
                        lemma_resolved_name_is_variable(
                            defs,
                            dn.par(false).child(name.name),
                            imports,
                            (fuel - 1) as nat,
                        );
                    }
                },
                DefineKindV::Variable(_) => {
                    let i = choose|i: int| 0 <= i < defs.len() && defs[i] == found;
                    assert(defs[i].refs == found.refs);
                },
                _ => {},
            }
        }
    }
}

/// A `use` definition refers to a name with its own last component.
pub open spec fn use_keeps_name(d: DefineV) -> bool {
    d.kind matches DefineKindV::Use(u) ==> u.name == d.refs.name
}

/// Adding definitions keeps a property that every one of them has.
proof fn lemma_add_from_keeps(defs: Seq<DefineV>, ds: Seq<DefineV>, p: spec_fn(DefineV) -> bool)
    requires
        forall|k: int| 0 <= k < defs.len() ==> p(#[trigger] defs[k]),
        forall|k: int| 0 <= k < ds.len() ==> p(#[trigger] ds[k]),
    ensures
        add_from(defs, ds) matches Ok(r) ==> forall|k: int| 0 <= k < r.len() ==> p(#[trigger] r[k]),
    decreases ds.len(),
{
    if ds.len() > 0 {
        if let Ok(d2) = add_one(defs, ds[0]) {
            assert(d2 == defs.push(ds[0]));
            assert forall|k: int| 0 <= k < d2.len() implies p(#[trigger] d2[k]) by {
                if k < defs.len() {
                    assert(d2[k] == defs[k]);
                }
            }
            assert forall|k: int| 0 <= k < ds.drop_first().len() implies p(#[trigger] ds.drop_first()[k]) by {
                assert(ds.drop_first()[k] == ds[k + 1]);
            }
            lemma_add_from_keeps(d2, ds.drop_first(), p);
        }
    }
}

/// In the definitions of a system, every `use` refers to a name with its
/// own last component.
pub proof fn lemma_defines_keep_use_names(s: SystemV)
    ensures
        defines_of(s) matches Ok(defs) ==> forall|k: int| 0 <= k < defs.len() ==> use_keeps_name(#[trigger] defs[k]),
{
    let p = |d: DefineV| use_keeps_name(d);
    assert forall|d: DetailV, k: int| 0 <= k < detail_defs()(d).len() implies p(#[trigger] detail_defs()(d)[k]) by {}
    assert forall|a: AnnotationV, k: int| 0 <= k < annotation_defs()(a).len() implies p(#[trigger] annotation_defs()(a)[k]) by {
        if let AnnotationV::Spawn { result, details } = a {
            lemma_concat_map_keeps(details, detail_defs(), p);
            let head = seq![DefineV { kind: DefineKindV::Variable(result.1), refs: result.0 }];
            if k > 0 {
                assert(annotation_defs()(a)[k] == concat_map(details, detail_defs())[k - 1]);
            }
        }
    }
    assert forall|a: NT, k: int| 0 <= k < arg_defs()(a).len() implies p(#[trigger] arg_defs()(a)[k]) by {}
    assert forall|f: FunctionV, k: int| 0 <= k < function_defs()(f).len() implies p(#[trigger] function_defs()(f)[k]) by {
        lemma_concat_map_keeps(f.args, arg_defs(), p);
        lemma_concat_map_keeps(f.annotations, annotation_defs(), p);
        let x = concat_map(f.args, arg_defs());
        let y = concat_map(f.annotations, annotation_defs());
        if k > 0 {
            if k < 1 + x.len() {
                assert(function_defs()(f)[k] == x[k - 1]);
            } else {
                assert(function_defs()(f)[k] == y[k - 1 - x.len()]);
            }
        }
    }
    assert forall|m: ModuleV, k: int| 0 <= k < module_defs()(m).len() implies p(#[trigger] module_defs()(m)[k]) by {
        lemma_concat_map_keeps(m.functions, function_defs(), p);
        if k > 0 {
            assert(module_defs()(m)[k] == concat_map(m.functions, function_defs())[k - 1]);
        }
    }
    assert forall|m: NT, k: int| 0 <= k < member_defs()(m).len() implies p(#[trigger] member_defs()(m)[k]) by {}
    assert forall|d: DataV, k: int| 0 <= k < data_defs()(d).len() implies p(#[trigger] data_defs()(d)[k]) by {
        lemma_concat_map_keeps(d.members, member_defs(), p);
        if k > 0 {
            assert(data_defs()(d)[k] == concat_map(d.members, member_defs())[k - 1]);
        }
    }
    assert forall|u: UnitV, k: int| 0 <= k < unit_defs()(u).len() implies p(#[trigger] unit_defs()(u)[k]) by {
        lemma_concat_map_keeps(u.data, data_defs(), p);
        lemma_concat_map_keeps(u.modules, module_defs(), p);
        let x = concat_map(u.data, data_defs());
        let y = concat_map(u.modules, module_defs());
        if k < x.len() {
            assert(unit_defs()(u)[k] == x[k]);
        } else {
            assert(unit_defs()(u)[k] == y[k - x.len()]);
        }
    }
    lemma_concat_map_keeps(s.units, unit_defs(), p);
    lemma_add_from_keeps(Seq::empty(), system_defines(s), p);
}

/// A definition found by name bears that name.
proof fn lemma_found_has_name(defs: Seq<DefineV>, at: NameV, name: Seq<char>, imports: Seq<NameV>)
    ensures
        find(defs, at, name, imports) matches Ok(d) ==> d.refs.name == name,
{
    lemma_find_up_named(defs, at, name, at.has_underscore());
    lemma_first_import_named(imports, 0, name);
    if let Some(imp) = first_import(imports, 0, name) {
        lemma_find_up_named(defs, imp, imp.name, imp.has_underscore());
    }
}

proof fn lemma_first_in_named(defs: Seq<DefineV>, i: int, ns: Seq<char>, name: Seq<char>, below_spawn: bool)
    ensures
        first_in(defs, i, ns, name, below_spawn) matches Some(d) ==> d.refs.name == name,
    decreases defs.len() - i,
{
    if 0 <= i < defs.len() {
        lemma_first_in_named(defs, i + 1, ns, name, below_spawn);
    }
}

proof fn lemma_find_up_named(defs: Seq<DefineV>, at: NameV, name: Seq<char>, below_spawn: bool)
    ensures
        find_up(defs, at, name, below_spawn) matches Some(d) ==> d.refs.name == name,
    decreases at.full().len(),
{
    if at.name.len() > 0 {
        lemma_first_in_named(defs, 0, at.namespace, name, below_spawn);
        if first_in(defs, 0, at.namespace, name, below_spawn) is None && at.par(false).full().len()
            < at.full().len() {
            lemma_find_up_named(defs, at.par(false), name, below_spawn);
        }
    }
}

proof fn lemma_first_import_named(imports: Seq<NameV>, i: int, name: Seq<char>)
    ensures
        first_import(imports, i, name) matches Some(n) ==> n.name == name,
    decreases imports.len() - i,
{
    if 0 <= i < imports.len() {
        lemma_first_import_named(imports, i + 1, name);
    }
}

/// A name that is not a dotted path is its own first component.
proof fn lemma_head_of_plain(s: Seq<char>)
    requires
        tails_of(s) is None,
    ensures
        head_of(s) == s,
{
    crate::text::lemma_split_nonempty(s, '.');
    crate::text::lemma_join_split(s, '.');
}

/// Where every `use` refers to a name with its own last component, a name
/// that is not a dotted path resolves to a variable of the same name: the
/// resolution follows `use` definitions but never changes the name asked
/// for into another one.
pub proof fn lemma_resolved_name_keeps_name(defs: Seq<DefineV>, name: NameV, imports: Seq<NameV>, fuel: nat)
    requires
        forall|k: int| 0 <= k < defs.len() ==> use_keeps_name(#[trigger] defs[k]),
        tails_of(name.name) is None,
    ensures
        resolve_name(defs, name, imports, fuel) matches Ok((r, _)) ==> r.name == name.name,
    decreases fuel,
{
    if fuel > 0 {
        lemma_head_of_plain(name.name);
        lemma_found_has_name(defs, name, head_of(name.name), Seq::empty());
        lemma_found_is_def(defs, name, head_of(name.name), Seq::empty());
        if let Ok(found) = find(defs, name, head_of(name.name), Seq::empty()) {
            if let DefineKindV::Use(u) = found.kind {
                let i = choose|i: int| 0 <= i < defs.len() && defs[i] == found;
                assert(use_keeps_name(defs[i]));
                lemma_resolved_name_keeps_name(defs, u, imports, (fuel - 1) as nat);
            }
        }
    }
}

/// The resolved types of the arguments of the function whose full name is
/// `func`, from definition `i` on.
pub open spec fn args_from(defs: Seq<DefineV>, i: int, func: Seq<char>, imports: Seq<NameV>, fuel: nat) -> Result<Seq<TypeV>, PErrorV>
    decreases defs.len() - i,
{
    if i < 0 || i >= defs.len() {
        Ok(Seq::empty())
    } else {
        match defs[i].kind {
            DefineKindV::Argument(t) => if defs[i].refs.namespace == func {
                match resolve_type(defs, defs[i].refs, t, imports, fuel) {
                    Err(e) => Err(e),
                    Ok((_, ty)) => match args_from(defs, i + 1, func, imports, fuel) {
                        Err(e) => Err(e),
                        Ok(rest) => Ok(seq![ty] + rest),
                    },
                }
            } else {
                args_from(defs, i + 1, func, imports, fuel)
            },
            _ => args_from(defs, i + 1, func, imports, fuel),
        }
    }
}

/// Whether `name` may be imported: it must name data or a module.
pub open spec fn can_import(defs: Seq<DefineV>, name: NameV, imports: Seq<NameV>) -> Result<(), PErrorV> {
    match find(defs, name, name.name, imports) {
        Err(e) => Err(e),
        Ok(found) => match found.kind {
            DefineKindV::Data | DefineKindV::Module => Ok(()),
            _ => Err(fail(PErrorKindV::NotDefined(name.name))),
        },
    }
}

/// The model of a resolution's outcome.
pub open spec fn rnt(r: PResult<(Name, Type)>) -> Result<NT, PErrorV> {
    match r {
        Ok(x) => Ok(x@),
        Err(e) => Err(e@),
    }
}

/// The outcome of adding definitions, as a value.
pub open spec fn outcome(r: PResult<()>, after: Seq<DefineV>) -> Result<Seq<DefineV>, PErrorV> {
    match r {
        Ok(()) => Ok(after),
        Err(e) => Err(e@),
    }
}

/// Adding one definition as a list.
pub proof fn lemma_add_from_one(defs: Seq<DefineV>, d: DefineV)
    ensures
        add_from(defs, seq![d]) == add_one(defs, d),
{
    assert(seq![d].drop_first() =~= Seq::<DefineV>::empty());
    match add_one(defs, d) {
        Err(e) => {},
        Ok(d2) => {
            assert(add_from(d2, Seq::<DefineV>::empty()) == Ok::<Seq<DefineV>, PErrorV>(d2));
        },
    }
}

/// One more item of a list whose definitions are added in turn.
pub proof fn lemma_add_step<A>(
    d0: Seq<DefineV>,
    xs: Seq<A>,
    f: spec_fn(A) -> Seq<DefineV>,
    i: int,
    before: Seq<DefineV>,
)
    requires
        0 <= i < xs.len(),
        add_from(d0, concat_map(xs.take(i), f)) == Ok::<Seq<DefineV>, PErrorV>(before),
    ensures
        add_from(d0, concat_map(xs.take(i + 1), f)) == add_from(before, f(xs[i])),
        add_from(before, f(xs[i])) is Err ==> add_from(d0, concat_map(xs, f)) == add_from(
            before,
            f(xs[i]),
        ),
{
    lemma_take_next(xs, i);
    assert(concat_map(xs.take(i + 1), f) == concat_map(xs.take(i), f) + f(xs[i]));
    lemma_add_from_append(d0, concat_map(xs.take(i), f), f(xs[i]));
    if add_from(before, f(xs[i])) is Err {
        assert(xs =~= xs.take(i + 1) + xs.skip(i + 1));
        lemma_concat_map_append(xs.take(i + 1), xs.skip(i + 1), f);
        lemma_add_from_append(d0, concat_map(xs.take(i + 1), f), concat_map(xs.skip(i + 1), f));
    }
}

/// No item of a list yet.
pub proof fn lemma_add_start<A>(d0: Seq<DefineV>, xs: Seq<A>, f: spec_fn(A) -> Seq<DefineV>)
    ensures
        add_from(d0, concat_map(xs.take(0), f)) == Ok::<Seq<DefineV>, PErrorV>(d0),
{
    assert(xs.take(0) =~= Seq::<A>::empty());
}

/// A parent's full name is shorter than the full name of a name that is
/// not empty.
pub proof fn lemma_par_shorter(n: NameV)
    requires
        n.name.len() > 0,
    ensures
        n.par(false).full().len() < n.full().len(),
{
    let s = n.full();
    assert(s[n.namespace.len() as int] == '.');
    lemma_split_two(s, '.');
    lemma_join_split(s, '.');
    let parts = split_by(s, '.');
    let k = parts.len();
    let p = n.par(false);
    assert(p == NameV::from_parts(parts));
    assert(parts.drop_last() =~= parts.take(k - 1));
    assert(join_with(parts, '.') == join_with(parts.take(k - 1), '.') + seq!['.'] + parts[k - 1]);
    if k >= 3 {
        let t = parts.take(k - 1);
        assert(t.drop_last() =~= parts.take(k - 2));
        assert(join_with(t, '.') == join_with(parts.take(k - 2), '.') + seq!['.'] + parts[k - 2]);
        assert(p.full() == join_with(parts.take(k - 2), '.') + seq!['.'] + parts[k - 2]);
    } else {
        assert(parts.take(0) =~= Seq::<Seq<char>>::empty());
        assert(p.full() =~= seq!['.'] + parts[0]);
        assert(join_with(parts.take(1), '.') == parts[0]);
        // the last component is not empty
        if s.last() == '.' {
            let q = s.drop_last();
            assert(q[n.namespace.len() as int] == '.') by {
                assert(n.name.last() == '.');
                if n.name.len() == 1 {
                    assert(s.len() == n.namespace.len() + 2);
                    assert(s[n.namespace.len() as int + 1] == '.');
                    assert(s[n.namespace.len() as int] == '.');
                }
            }
            if n.name.len() == 1 {
                assert(s =~= n.namespace + seq!['.', '.']);
            }
            assert(q.contains('.'));
            lemma_split_two(q, '.');
            assert(split_by(s, '.') == split_by(q, '.').push(Seq::<char>::empty()));
            assert(false);
        } else {
            let q = s.drop_last();
            lemma_split_nonempty(q, '.');
            let rest = split_by(q, '.');
            assert(parts == rest.update(rest.len() - 1, rest.last().push(s.last())));
            assert(parts[k - 1].len() > 0);
        }
    }
}

/// The first component of a dotted path.
pub open spec fn head_of(s: Seq<char>) -> Seq<char> {
    split_by(s, '.')[0]
}

/// The components of a dotted path after the first, joined again; none
/// when there is one component.
pub open spec fn tails_of(s: Seq<char>) -> Option<Seq<char>> {
    let parts = split_by(s, '.');
    if parts.len() <= 1 {
        None
    } else {
        Some(join_with(parts.skip(1), '.'))
    }
}

/// Splits a dotted path into its first component and the rest.
pub fn split_name(s: &String) -> (r: (String, Option<String>))
    ensures
        r.0@ == head_of(s@),
        (match r.1 {
            Some(t) => Some(t@),
            None => None,
        }) == tails_of(s@),
{
    let cs = chars_of(s.as_str());
    let parts = split_chars(&cs, '.');
    proof {
        lemma_split_nonempty(s@, '.');
    }
    let head = string_of(&parts[0]);
    if parts.len() <= 1 {
        (head, None)
    } else {
        let mut rest: Vec<Vec<char>> = Vec::new();
        let mut i: usize = 1;
        while i < parts.len()
            invariant
                1 <= i <= parts@.len(),
                views(rest@) == views(parts@).subrange(1, i as int),
            decreases parts.len() - i,
        {
            let ghost before = views(rest@);
            rest.push(parts[i].clone());
            assert(views(rest@) =~= before.push(parts@[i as int]@));
            assert(views(parts@).subrange(1, i as int + 1) =~= views(parts@).subrange(1, i as int).push(
                parts@[i as int]@,
            ));
            i = i + 1;
        }
        assert(views(parts@).subrange(1, parts@.len() as int) =~= split_by(s@, '.').skip(1));
        let joined = join_chars(&rest, rest.len(), '.');
        assert(views(rest@).take(rest@.len() as int) =~= views(rest@));
        (head, Some(string_of(&joined)))
    }
}

impl DefinesManager {

    /// Lists the definitions of `system`, refusing a name defined twice
    /// where it is seen.
    pub fn new(system: &SysDCSystem) -> (r: PResult<DefinesManager>)
        ensures
            (match r {
                Ok(m) => Ok(m@),
                Err(e) => Err(e@),
            }) == defines_of(system@),
    {
        let mut m = DefinesManager { defines: Vec::new() };
        assert(m@ =~= Seq::<DefineV>::empty());
        match m.listup_defines(system) {
            Ok(()) => Ok(m),
            Err(e) => Err(e),
        }
    }

    fn listup_defines(&mut self, system: &SysDCSystem) -> (r: PResult<()>)
        ensures
            outcome(r, final(self)@) == add_from(old(self)@, system_defines(system@)),
    {
        let ghost d0 = self@;
        let ghost xs = views_of(system.units@);
        proof {
            lemma_add_start(d0, xs, unit_defs());
        }
        let mut i: usize = 0;
        while i < system.units.len()
            invariant
                i <= xs.len(),
                xs == views_of(system.units@),
                d0 == old(self)@,
                add_from(d0, concat_map(xs.take(i as int), unit_defs())) == Ok::<Seq<DefineV>, PErrorV>(self@),
            decreases system.units.len() - i,
        {
            let ghost before = self@;
            let r = self.listup_defines_unit(&system.units[i]);
            proof {
                assert(xs[i as int] == system.units@[i as int]@);
                lemma_add_step(d0, xs, unit_defs(), i as int, before);
            }
            if let Err(e) = r {
                return Err(e);
            }
            i = i + 1;
        }
        proof {
            lemma_take_all(xs);
        }
        Ok(())
    }

    fn listup_defines_unit(&mut self, unit: &SysDCUnit) -> (r: PResult<()>)
        ensures
            outcome(r, final(self)@) == add_from(old(self)@, unit_defines(unit@)),
    {
        let ghost d0 = self@;
        let ghost ds = views_of(unit.data@);
        let ghost ms = views_of(unit.modules@);
        proof {
            lemma_add_from_append(d0, concat_map(ds, data_defs()), concat_map(ms, module_defs()));
            lemma_add_start(d0, ds, data_defs());
        }
        let mut i: usize = 0;
        while i < unit.data.len()
            invariant
                i <= ds.len(),
                ds == views_of(unit.data@),
                ms == views_of(unit.modules@),
                add_from(old(self)@, unit_defines(unit@)) == (match add_from(d0, concat_map(ds, data_defs())) {
                    Err(e) => Err(e),
                    Ok(d) => add_from(d, concat_map(ms, module_defs())),
                }),
                add_from(d0, concat_map(ds.take(i as int), data_defs())) == Ok::<Seq<DefineV>, PErrorV>(self@),
            decreases unit.data.len() - i,
        {
            let ghost before = self@;
            let r = self.listup_defines_data(&unit.data[i]);
            proof {
                assert(ds[i as int] == unit.data@[i as int]@);
                lemma_add_step(d0, ds, data_defs(), i as int, before);
            }
            if let Err(e) = r {
                return Err(e);
            }
            i = i + 1;
        }
        proof {
            lemma_take_all(ds);
        }
        let ghost d1 = self@;
        proof {
            lemma_add_start(d1, ms, module_defs());
            assert(add_from(old(self)@, unit_defines(unit@)) == add_from(d1, concat_map(ms, module_defs())));
        }
        let mut j: usize = 0;
        while j < unit.modules.len()
            invariant
                j <= ms.len(),
                ms == views_of(unit.modules@),
                add_from(old(self)@, unit_defines(unit@)) == add_from(d1, concat_map(ms, module_defs())),
                add_from(d1, concat_map(ms.take(j as int), module_defs())) == Ok::<Seq<DefineV>, PErrorV>(self@),
            decreases unit.modules.len() - j,
        {
            let ghost before = self@;
            let r = self.listup_defines_module(&unit.modules[j]);
            proof {
                assert(ms[j as int] == unit.modules@[j as int]@);
                lemma_add_step(d1, ms, module_defs(), j as int, before);
            }
            if let Err(e) = r {
                return Err(e);
            }
            j = j + 1;
        }
        proof {
            lemma_take_all(ms);
        }
        Ok(())
    }

    fn listup_defines_data(&mut self, data: &SysDCData) -> (r: PResult<()>)
        ensures
            outcome(r, final(self)@) == add_from(old(self)@, data_defines(data@)),
    {
        let ghost d0 = self@;
        let ghost xs = views_of(data.members@);
        let ghost head = seq![DefineV { kind: DefineKindV::Data, refs: data.name@ }];
        proof {
            lemma_add_from_append(d0, head, concat_map(xs, member_defs()));
            lemma_add_from_one(d0, head[0]);
        }
        if let Err(e) = self.define(Define::new(DefineKind::Data, data.name.clone())) {
            return Err(e);
        }
        let ghost d1 = self@;
        proof {
            lemma_add_start(d1, xs, member_defs());
            assert(add_from(old(self)@, data_defines(data@)) == add_from(d1, concat_map(xs, member_defs())));
        }
        let mut i: usize = 0;
        while i < data.members.len()
            invariant
                i <= xs.len(),
                xs == views_of(data.members@),
                add_from(old(self)@, data_defines(data@)) == add_from(d1, concat_map(xs, member_defs())),
                add_from(d1, concat_map(xs.take(i as int), member_defs())) == Ok::<Seq<DefineV>, PErrorV>(self@),
            decreases data.members.len() - i,
        {
            let ghost before = self@;
            let (name, types) = &data.members[i];
            let r = self.define(Define::new(DefineKind::DataMember(types.clone()), name.clone()));
            proof {
                assert(xs[i as int] == data.members@[i as int]@);
                lemma_add_from_one(before, member_defs()(xs[i as int])[0]);
                assert(member_defs()(xs[i as int]) =~= seq![member_defs()(xs[i as int])[0]]);
                lemma_add_step(d1, xs, member_defs(), i as int, before);
            }
            if let Err(e) = r {
                return Err(e);
            }
            i = i + 1;
        }
        proof {
            lemma_take_all(xs);
        }
        Ok(())
    }

    fn listup_defines_module(&mut self, module: &SysDCModule) -> (r: PResult<()>)
        ensures
            outcome(r, final(self)@) == add_from(old(self)@, module_defines(module@)),
    {
        let ghost d0 = self@;
        let ghost xs = views_of(module.functions@);
        let ghost head = seq![DefineV { kind: DefineKindV::Module, refs: module.name@ }];
        proof {
            lemma_add_from_append(d0, head, concat_map(xs, function_defs()));
            lemma_add_from_one(d0, head[0]);
        }
        if let Err(e) = self.define(Define::new(DefineKind::Module, module.name.clone())) {
            return Err(e);
        }
        let ghost d1 = self@;
        proof {
            lemma_add_start(d1, xs, function_defs());
            assert(add_from(old(self)@, module_defines(module@)) == add_from(d1, concat_map(xs, function_defs())));
        }
        let mut i: usize = 0;
        while i < module.functions.len()
            invariant
                i <= xs.len(),
                xs == views_of(module.functions@),
                add_from(old(self)@, module_defines(module@)) == add_from(d1, concat_map(xs, function_defs())),
                add_from(d1, concat_map(xs.take(i as int), function_defs())) == Ok::<Seq<DefineV>, PErrorV>(self@),
            decreases module.functions.len() - i,
        {
            let ghost before = self@;
            let r = self.listup_defines_function(&module.functions[i]);
            proof {
                assert(xs[i as int] == module.functions@[i as int]@);
                lemma_add_step(d1, xs, function_defs(), i as int, before);
            }
            if let Err(e) = r {
                return Err(e);
            }
            i = i + 1;
        }
        proof {
            lemma_take_all(xs);
        }
        Ok(())
    }

    fn listup_defines_function(&mut self, func: &SysDCFunction) -> (r: PResult<()>)
        ensures
            outcome(r, final(self)@) == add_from(old(self)@, function_defines(func@)),
    {
        let ghost d0 = self@;
        let ghost xs = views_of(func.args@);
        let ghost ys = views_of(func.annotations@);
        let ghost head = seq![DefineV { kind: DefineKindV::Function(func.returns.1@), refs: func.name@ }];
        proof {
            lemma_add_from_append(d0, head + concat_map(xs, arg_defs()), concat_map(ys, annotation_defs()));
            lemma_add_from_append(d0, head, concat_map(xs, arg_defs()));
            lemma_add_from_one(d0, head[0]);
        }
        if let Err(e) = self.define(Define::new(DefineKind::Function(func.returns.1.clone()), func.name.clone())) {
            return Err(e);
        }
        let ghost d1 = self@;
        proof {
            lemma_add_start(d1, xs, arg_defs());
            assert(add_from(old(self)@, function_defines(func@)) == (match add_from(d1, concat_map(xs, arg_defs())) {
                Err(e) => Err(e),
                Ok(d) => add_from(d, concat_map(ys, annotation_defs())),
            }));
        }
        let mut i: usize = 0;
        while i < func.args.len()
            invariant
                i <= xs.len(),
                xs == views_of(func.args@),
                ys == views_of(func.annotations@),
                add_from(old(self)@, function_defines(func@)) == (match add_from(d1, concat_map(xs, arg_defs())) {
                    Err(e) => Err(e),
                    Ok(d) => add_from(d, concat_map(ys, annotation_defs())),
                }),
                add_from(d1, concat_map(xs.take(i as int), arg_defs())) == Ok::<Seq<DefineV>, PErrorV>(self@),
            decreases func.args.len() - i,
        {
            let ghost before = self@;
            let (name, types) = &func.args[i];
            let ghost a = xs[i as int];
            proof {
                assert(a == func.args@[i as int]@);
                let two = arg_defs()(a);
                assert(two =~= seq![two[0]] + seq![two[1]]);
                lemma_add_from_append(before, seq![two[0]], seq![two[1]]);
                lemma_add_from_one(before, two[0]);
            }
            let r1 = self.define(Define::new(DefineKind::Variable(types.clone()), name.clone()));
            if let Err(e) = r1 {
                proof {
                    lemma_add_step(d1, xs, arg_defs(), i as int, before);
                }
                return Err(e);
            }
            let ghost mid = self@;
            proof {
                lemma_add_from_one(mid, arg_defs()(a)[1]);
            }
            let r2 = self.define(Define::new(DefineKind::Argument(types.clone()), name.clone()));
            proof {
                lemma_add_step(d1, xs, arg_defs(), i as int, before);
            }
            if let Err(e) = r2 {
                return Err(e);
            }
            i = i + 1;
        }
        proof {
            lemma_take_all(xs);
        }
        let ghost d2 = self@;
        proof {
            lemma_add_start(d2, ys, annotation_defs());
            assert(add_from(old(self)@, function_defines(func@)) == add_from(d2, concat_map(ys, annotation_defs())));
        }
        let mut j: usize = 0;
        while j < func.annotations.len()
            invariant
                j <= ys.len(),
                ys == views_of(func.annotations@),
                add_from(old(self)@, function_defines(func@)) == add_from(d2, concat_map(ys, annotation_defs())),
                add_from(d2, concat_map(ys.take(j as int), annotation_defs())) == Ok::<Seq<DefineV>, PErrorV>(self@),
            decreases func.annotations.len() - j,
        {
            let ghost before = self@;
            let r = self.listup_defines_annotation(&func.annotations[j]);
            proof {
                assert(ys[j as int] == func.annotations@[j as int]@);
                lemma_add_step(d2, ys, annotation_defs(), j as int, before);
            }
            if let Err(e) = r {
                return Err(e);
            }
            j = j + 1;
        }
        proof {
            lemma_take_all(ys);
        }
        Ok(())
    }

    fn listup_defines_annotation(&mut self, annotation: &SysDCAnnotation) -> (r: PResult<()>)
        ensures
            outcome(r, final(self)@) == add_from(old(self)@, annotation_defines(annotation@)),
    {
        match annotation {
            SysDCAnnotation::Spawn { result: (name, types), details } => {
                let ghost d0 = self@;
                let ghost xs = views_of(details@);
                let ghost head = seq![DefineV { kind: DefineKindV::Variable(types@), refs: name@ }];
                proof {
                    lemma_add_from_append(d0, head, concat_map(xs, detail_defs()));
                    lemma_add_from_one(d0, head[0]);
                }
                if let Err(e) = self.define(Define::new(DefineKind::Variable(types.clone()), name.clone())) {
                    return Err(e);
                }
                self.listup_defines_annotation_spawn_details(details)
            },
            _ => {
                proof {
                    assert(add_from(self@, Seq::<DefineV>::empty()) == Ok::<Seq<DefineV>, PErrorV>(self@));
                }
                Ok(())
            },
        }
    }

    fn listup_defines_annotation_spawn_details(&mut self, details: &Vec<SysDCSpawnDetail>) -> (r: PResult<()>)
        ensures
            outcome(r, final(self)@) == add_from(old(self)@, concat_map(views_of(details@), detail_defs())),
    {
        let ghost d1 = self@;
        let ghost xs = views_of(details@);
        proof {
            lemma_add_start(d1, xs, detail_defs());
        }
        let mut i: usize = 0;
        while i < details.len()
            invariant
                i <= xs.len(),
                xs == views_of(details@),
                d1 == old(self)@,
                add_from(d1, concat_map(xs.take(i as int), detail_defs())) == Ok::<Seq<DefineV>, PErrorV>(self@),
            decreases details.len() - i,
        {
            let ghost before = self@;
            let ghost x = xs[i as int];
            proof {
                assert(x == details@[i as int]@);
            }
            let r = match &details[i] {
                SysDCSpawnDetail::Use(name, _) => {
                    let outer_use_name = Name::new(&name.parent(true), name.name.clone());
                    proof {
                        lemma_add_from_one(before, detail_defs()(x)[0]);
                        assert(detail_defs()(x) =~= seq![detail_defs()(x)[0]]);
                    }
                    self.define(Define::new(DefineKind::Use(outer_use_name), name.clone()))
                },
                SysDCSpawnDetail::LetTo { name, func: (_, func), .. } => {
                    proof {
                        lemma_add_from_one(before, detail_defs()(x)[0]);
                        assert(detail_defs()(x) =~= seq![detail_defs()(x)[0]]);
                    }
                    self.define(Define::new(DefineKind::Variable(func.clone()), name.clone()))
                },
                SysDCSpawnDetail::Return(_, _) => {
                    proof {
                        assert(detail_defs()(x) =~= Seq::<DefineV>::empty());
                    }
                    Ok(())
                },
            };
            proof {
                lemma_add_step(d1, xs, detail_defs(), i as int, before);
            }
            if let Err(e) = r {
                return Err(e);
            }
            i = i + 1;
        }
        proof {
            lemma_take_all(xs);
        }
        Ok(())
    }

    /// Whether `name` may be imported: it must name data or a module.
    pub fn check_can_import(&self, name: &Name, imports: &Vec<Name>) -> (r: PResult<()>)
        ensures
            (match r {
                Ok(()) => Ok(()),
                Err(e) => Err(e@),
            }) == can_import(self@, name@, views_of(imports@)),
    {
        let found = self.find(name, &name.name, imports)?;
        match found.kind {
            DefineKind::Data | DefineKind::Module => Ok(()),
            _ => PErrorKind::NotDefined(name.name.clone()).to_err(),
        }
    }

    /// The type `types`, named where `name` stands, resolved. It must not be
    /// a type with no name at all, which has nothing to look up.
    pub fn resolve_from_type(&self, named: (Name, Type), imports: &Vec<Name>) -> (r: PResult<(Name, Type)>)
        requires
            !(named.1@.kind is UnsolvedNoHint),
        ensures
            rnt(r) == resolve_type(self@, named.0@, named.1@, views_of(imports@), RESOLVE_DEPTH as nat),
    {
        let (name, types) = named;
        self.resolve_type_within(name, types, imports, RESOLVE_DEPTH)
    }

    /// The variable that `name` denotes where it stands, with its resolved
    /// type.
    pub fn resolve_from_name(&self, name: Name, imports: &Vec<Name>) -> (r: PResult<(Name, Type)>)
        ensures
            rnt(r) == resolve_name(self@, name@, views_of(imports@), RESOLVE_DEPTH as nat),
    {
        self.resolve_name_within(name, imports, RESOLVE_DEPTH)
    }

    /// The resolved types of the arguments of the function `func_name`.
    pub fn get_args_type(&self, func_name: &Name, imports: &Vec<Name>) -> (r: PResult<Vec<Type>>)
        ensures
            (match r {
                Ok(v) => Ok(views_of(v@)),
                Err(e) => Err(e@),
            }) == args_from(self@, 0, func_name@.full(), views_of(imports@), RESOLVE_DEPTH as nat),
    {
        let full = func_name.get_full_name();
        let mut args: Vec<Type> = Vec::new();
        let mut i: usize = 0;
        let ghost iv = views_of(imports@);
        let ghost fuel = RESOLVE_DEPTH as nat;
        assert(views_of(args@) =~= Seq::<TypeV>::empty());
        while i < self.defines.len()
            invariant
                i <= self@.len(),
                self@.len() == self.defines@.len(),
                iv == views_of(imports@),
                fuel == RESOLVE_DEPTH as nat,
                full@ == func_name@.full(),
                args_from(self@, 0, full@, iv, fuel) == (match args_from(self@, i as int, full@, iv, fuel) {
                    Err(e) => Err(e),
                    Ok(rest) => Ok(views_of(args@) + rest),
                }),
            decreases self.defines.len() - i,
        {
            let d = &self.defines[i];
            assert(self@[i as int] == d@);
            if let DefineKind::Argument(types) = &d.kind {
                if d.refs.namespace == full {
                    let (_, ty) = self.resolve_type_within(d.refs.clone(), types.clone(), imports, RESOLVE_DEPTH)?;
                    let ghost before = views_of(args@);
                    let ghost tv = ty@;
                    args.push(ty);
                    assert(views_of(args@) =~= before.push(tv));
                    assert(forall|rest: Seq<TypeV>| #[trigger] (before + (seq![tv] + rest)) =~= views_of(args@) + rest);
                }
            }
            i = i + 1;
        }
        assert(views_of(args@) + Seq::<TypeV>::empty() =~= views_of(args@));
        Ok(args)
    }

    fn first_func(&self, module: &Name, func: &String) -> (r: Option<(Name, Type)>)
        ensures
            (match r {
                Some(x) => Some(x@),
                None => None,
            }) == first_func(self@, 0, module@, func@),
    {
        let mut i: usize = 0;
        while i < self.defines.len()
            invariant
                i <= self@.len(),
                self@.len() == self.defines@.len(),
                first_func(self@, 0, module@, func@) == first_func(self@, i as int, module@, func@),
            decreases self.defines.len() - i,
        {
            let d = &self.defines[i];
            assert(self@[i as int] == d@);
            if let DefineKind::Function(types) = &d.kind {
                if module.same(&d.refs.parent(true)) && *func == d.refs.name {
                    return Some((d.refs.clone(), types.clone()));
                }
            }
            i = i + 1;
        }
        None
    }

    fn first_member(&self, data: &String, member: &String) -> (r: Option<(Name, Type)>)
        ensures
            (match r {
                Some(x) => Some(x@),
                None => None,
            }) == first_member(self@, 0, data@, member@),
    {
        let mut i: usize = 0;
        while i < self.defines.len()
            invariant
                i <= self@.len(),
                self@.len() == self.defines@.len(),
                first_member(self@, 0, data@, member@) == first_member(self@, i as int, data@, member@),
            decreases self.defines.len() - i,
        {
            let d = &self.defines[i];
            assert(self@[i as int] == d@);
            if let DefineKind::DataMember(types) = &d.kind {
                if d.refs.namespace == *data && d.refs.name == *member {
                    return Some((d.refs.clone(), types.clone()));
                }
            }
            i = i + 1;
        }
        None
    }

    pub(crate) fn resolve_type_within(&self, name: Name, types: Type, imports: &Vec<Name>, fuel: u64) -> (r: PResult<(Name, Type)>)
        ensures
            rnt(r) == resolve_type(self@, name@, types@, views_of(imports@), fuel as nat),
        decreases fuel, 1nat,
    {
        match &types.kind {
            TypeKind::Unsolved(hint) => {
                if fuel == 0 {
                    return PErrorKind::ResolutionTooDeep.to_err();
                }
                let (head, tails) = split_name(hint);
                let found = self.find(&name, &head, imports)?;
                match found.kind {
                    DefineKind::Data => match tails {
                        Some(_) => PErrorKind::IllegalAccess.to_err(),
                        None => Ok((name, Type::new(TypeKind::Data, Some(found.refs)))),
                    },
                    DefineKind::Module => match tails {
                        Some(tl) => self.get_func_in_module(&found.refs, &tl, imports, fuel - 1),
                        None => PErrorKind::MissingFunctionName.to_err(),
                    },
                    DefineKind::Function(_) => {
                        let module = name.outer(true);
                        self.get_func_in_module(&module, hint, imports, fuel - 1)
                    },
                    _ => PErrorKind::TypeUnmatch1(types.clone()).to_err(),
                }
            },
            TypeKind::UnsolvedNoHint => PErrorKind::TypeUnmatch1(types.clone()).to_err(),
            _ => Ok((name, types)),
        }
    }

    fn get_func_in_module(&self, module: &Name, func: &String, imports: &Vec<Name>, fuel: u64) -> (r: PResult<(Name, Type)>)
        ensures
            rnt(r) == func_in_module(self@, module@, func@, views_of(imports@), fuel as nat),
        decreases fuel, 0nat,
    {
        match self.first_func(module, func) {
            None => PErrorKind::FuncNotDefinedInModule(func.clone(), module.name.clone()).to_err(),
            Some((refs, types)) => {
                if fuel == 0 {
                    return PErrorKind::ResolutionTooDeep.to_err();
                }
                let (_, ty) = self.resolve_type_within(refs.clone(), types, imports, fuel - 1)?;
                Ok((refs, ty))
            },
        }
    }

    fn get_member_in_data(&self, data: &Name, member: &String, imports: &Vec<Name>, fuel: u64) -> (r: PResult<(Name, Type)>)
        ensures
            rnt(r) == member_in_data(self@, data@, member@, views_of(imports@), fuel as nat),
        decreases member@.len(),
    {
        let (head, tails) = split_name(member);
        match self.first_member(&data.get_full_name(), &head) {
            None => PErrorKind::MemberNotDefinedInData(member.clone(), data.name.clone()).to_err(),
            Some((refs, types)) => {
                let (_, ty) = self.resolve_type_within(refs.clone(), types, imports, fuel)?;
                if ty.kind.is_primitive() {
                    match tails {
                        Some(_) => PErrorKind::IllegalAccess.to_err(),
                        None => Ok((refs, ty)),
                    }
                } else if let TypeKind::Data = ty.kind {
                    match &ty.refs {
                        None => PErrorKind::TypeUnmatch1(ty.clone()).to_err(),
                        Some(dr) => match tails {
                            Some(tl) => {
                                proof {
                                    lemma_tails_shorter(member@);
                                }
                                self.get_member_in_data(dr, &tl, imports, fuel)
                            },
                            None => Ok((dr.clone(), ty.clone())),
                        },
                    }
                } else {
                    PErrorKind::TypeUnmatch1(ty).to_err()
                }
            },
        }
    }

    fn resolve_name_within(&self, name: Name, imports: &Vec<Name>, fuel: u64) -> (r: PResult<(Name, Type)>)
        ensures
            rnt(r) == resolve_name(self@, name@, views_of(imports@), fuel as nat),
        decreases fuel, 2nat,
    {
        if fuel == 0 {
            return PErrorKind::ResolutionTooDeep.to_err();
        }
        let (head, tails) = split_name(&name.name);
        let empty: Vec<Name> = Vec::new();
        assert(views_of(empty@) =~= Seq::<NameV>::empty());
        let found = self.find(&name, &head, &empty)?;
        match found.kind {
            DefineKind::Variable(types) => {
                let (_, ty) = self.resolve_type_within(name.clone(), types, imports, fuel - 1)?;
                if let TypeKind::Data = ty.kind {
                    match tails {
                        Some(tl) => match &ty.refs {
                            None => PErrorKind::TypeUnmatch1(ty.clone()).to_err(),
                            Some(dr) => {
                                let (_, mt) = self.get_member_in_data(dr, &tl, imports, fuel - 1)?;
                                Ok((name, mt))
                            },
                        },
                        None => Ok((found.refs, ty)),
                    }
                } else {
                    Ok((found.refs, ty))
                }
            },
            DefineKind::Use(use_ref) => match tails {
                Some(_) => {
                    let (dname, _) = self.resolve_name_within(use_ref, imports, fuel - 1)?;
                    let next = Name::new(&dname.parent(false), name.name);
                    self.resolve_name_within(next, imports, fuel - 1)
                },
                None => self.resolve_name_within(use_ref, imports, fuel - 1),
            },
            _ => PErrorKind::NotDefined(name.name).to_err(),
        }
    }

    /// The first definition named `name` directly in the namespace `ns`.
    fn first_in(&self, ns: &String, name: &String, below_spawn: bool) -> (r: Option<Define>)
        ensures
            (match r {
                Some(d) => Some(d@),
                None => None,
            }) == first_in(self@, 0, ns@, name@, below_spawn),
    {
        let mut i: usize = 0;
        while i < self.defines.len()
            invariant
                i <= self@.len(),
                self@.len() == self.defines@.len(),
                first_in(self@, 0, ns@, name@, below_spawn) == first_in(self@, i as int, ns@, name@, below_spawn),
            decreases self.defines.len() - i,
        {
            let d = &self.defines[i];
            let hide = match &d.kind {
                DefineKind::Variable(_) => below_spawn && !d.refs.has_underscore(),
                _ => false,
            };
            assert(self@[i as int] == d@);
            if d.refs.namespace == *ns && d.refs.name == *name && !hide {
                return Some(d.clone());
            }
            i = i + 1;
        }
        None
    }

    /// The definition of `name` seen from `at` or an enclosing namespace.
    fn find_up(&self, at: &Name, name: &String, below_spawn: bool) -> (r: Option<Define>)
        ensures
            (match r {
                Some(d) => Some(d@),
                None => None,
            }) == find_up(self@, at@, name@, below_spawn),
    {
        let mut ns = at.clone();
        loop
            invariant
                find_up(self@, ns@, name@, below_spawn) == find_up(self@, at@, name@, below_spawn),
            decreases ns@.full().len(),
        {
            if ns.name.as_str().is_empty() {
                return None;
            }
            match self.first_in(&ns.namespace, name, below_spawn) {
                Some(d) => {
                    return Some(d);
                },
                None => {},
            }
            proof {
                lemma_par_shorter(ns@);
            }
            ns = ns.parent(false);
        }
    }

    /// The definition of `name` seen from `at`, or the one an import of that
    /// name refers to.
    fn find(&self, at: &Name, name: &String, imports: &Vec<Name>) -> (r: PResult<Define>)
        ensures
            (match r {
                Ok(d) => Ok(d@),
                Err(e) => Err(e@),
            }) == find(self@, at@, name@, views_of(imports@)),
    {
        if let Some(d) = self.find_up(at, name, at.has_underscore()) {
            return Ok(d);
        }
        let mut i: usize = 0;
        while i < imports.len()
            invariant
                i <= imports@.len(),
                find_up(self@, at@, name@, at@.has_underscore()) is None,
                first_import(views_of(imports@), 0, name@) == first_import(views_of(imports@), i as int, name@),
            decreases imports.len() - i,
        {
            let imp = &imports[i];
            assert(views_of(imports@)[i as int] == imp@);
            if imp.name == *name {
                return match self.find_up(imp, &imp.name, imp.has_underscore()) {
                    Some(d) => Ok(d),
                    None => PErrorKind::NotFound(imp.name.clone()).to_err(),
                };
            }
            i = i + 1;
        }
        PErrorKind::NotFound(name.clone()).to_err()
    }

    /// Adds one definition, refused when its name is already defined where
    /// it is seen from, unless one of the two is an argument.
    fn define(&mut self, def: Define) -> (r: PResult<()>)
        ensures
            (match r {
                Ok(()) => Ok(final(self)@),
                Err(e) => Err(e@),
            }) == add_one(old(self)@, def@),
    {
        let empty: Vec<Name> = Vec::new();
        assert(views_of(empty@) =~= Seq::<NameV>::empty());
        match self.find(&def.refs, &def.refs.name, &empty) {
            Ok(found) => {
                let allowed = match (&found.kind, &def.kind) {
                    (DefineKind::Argument(_), _) => true,
                    (_, DefineKind::Argument(_)) => true,
                    _ => false,
                };
                if !allowed {
                    return PErrorKind::AlreadyDefined(def.refs.name).to_err();
                }
            },
            Err(_) => {},
        }
        let ghost dv = def@;
        self.defines.push(def);
        assert(self@ =~= old(self)@.push(dv));
        Ok(())
    }
}

} // verus!
