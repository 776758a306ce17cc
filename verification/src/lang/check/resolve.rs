//! Resolving a parsed system: every type to the data or function it names,
//! every name to the variable it denotes.
use vstd::prelude::*;
use crate::lang::name::{Name, NameV};
use crate::lang::types::{Type, TypeKind, TypeV, KindV};
use crate::lang::error::{PError, PErrorKind, PErrorKindV, PErrorV, PResult};
use crate::lang::structure::{
    NT, views_of, SysDCSystem, SysDCUnit, SysDCData, SysDCModule, SysDCFunction, SysDCAnnotation,
    SysDCSpawnDetail,
};
use crate::lang::structure::unchecked;
use crate::lang::structure::unchecked::{SystemV, UnitV, DataV, ModuleV, FunctionV, AnnotationV, DetailV};
use crate::lang::check::lists::{map_all, lemma_map_all_keeps, lemma_map_step, lemma_map_start, lemma_take_all, lemma_take_next};
use crate::lang::check::define::{
    DefinesManager, DefineV, resolve_type, resolve_name, fail, rnt, RESOLVE_DEPTH,
    lemma_resolve_type_solved, lemma_resolve_name_solved, lemma_resolved_name_is_variable, tails_of,
    lemma_resolved_name_keeps_name, use_keeps_name,
};

verus! {

/// How deep every resolution goes.
pub open spec fn depth() -> nat {
    RESOLVE_DEPTH as nat
}

/// A name resolved to the variable it denotes.
pub open spec fn name_res(defs: Seq<DefineV>, imports: Seq<NameV>) -> spec_fn(NT) -> Result<NT, PErrorV> {
    |x: NT| resolve_name(defs, x.0, imports, depth())
}

/// A type resolved where its name stands.
pub open spec fn type_res(defs: Seq<DefineV>, imports: Seq<NameV>) -> spec_fn(NT) -> Result<NT, PErrorV> {
    |x: NT| resolve_type(defs, x.0, x.1, imports, depth())
}

/// A line of a spawn resolved. The function a `let` calls is looked up
/// from the variable it defines.
#[verifier::opaque]
pub open spec fn resolve_detail(defs: Seq<DefineV>, imports: Seq<NameV>, d: DetailV) -> Result<DetailV, PErrorV> {
    match d {
        DetailV::Use(n, _) => match resolve_name(defs, n, imports, depth()) {
            Err(e) => Err(e),
            Ok((n2, t2)) => Ok(DetailV::Use(n2, t2)),
        },
        DetailV::Return(n, _) => match resolve_name(defs, n, imports, depth()) {
            Err(e) => Err(e),
            Ok((n2, t2)) => Ok(DetailV::Return(n2, t2)),
        },
        DetailV::LetTo { name, func, args } => if func.1.kind is Unsolved {
            match map_all(args, name_res(defs, imports)) {
                Err(e) => Err(e),
                Ok(args2) => match resolve_type(defs, name, func.1, imports, depth()) {
                    Err(e) => Err(e),
                    Ok(f2) => Ok(DetailV::LetTo { name, func: f2, args: args2 }),
                },
            }
        } else {
            Err(fail(PErrorKindV::TypeUnmatch1(func.1)))
        },
    }
}

pub open spec fn detail_res(defs: Seq<DefineV>, imports: Seq<NameV>) -> spec_fn(DetailV) -> Result<DetailV, PErrorV> {
    |d: DetailV| resolve_detail(defs, imports, d)
}

/// An annotation resolved; a `@return` has no place among the checked
/// annotations and is left out.
#[verifier::opaque]
pub open spec fn resolve_annotation(defs: Seq<DefineV>, imports: Seq<NameV>, a: AnnotationV) -> Result<Option<AnnotationV>, PErrorV> {
    match a {
        AnnotationV::Affect { func, args } => match resolve_type(defs, func.0, func.1, imports, depth()) {
            Err(e) => Err(e),
            Ok(f2) => match map_all(args, name_res(defs, imports)) {
                Err(e) => Err(e),
                Ok(args2) => Ok(Some(AnnotationV::Affect { func: f2, args: args2 })),
            },
        },
        AnnotationV::Modify { target, uses } => match resolve_name(defs, target.0, imports, depth()) {
            Err(e) => Err(e),
            Ok(t2) => match map_all(uses, name_res(defs, imports)) {
                Err(e) => Err(e),
                Ok(uses2) => Ok(Some(AnnotationV::Modify { target: t2, uses: uses2 })),
            },
        },
        AnnotationV::Spawn { result, details } => match resolve_name(defs, result.0, imports, depth()) {
            Err(e) => Err(e),
            Ok(r2) => match map_all(details, detail_res(defs, imports)) {
                Err(e) => Err(e),
                Ok(details2) => Ok(Some(AnnotationV::Spawn { result: r2, details: details2 })),
            },
        },
        AnnotationV::Return(_) => Ok(None),
    }
}

/// The annotations of a function resolved in turn.
pub open spec fn resolve_annotations(defs: Seq<DefineV>, imports: Seq<NameV>, anns: Seq<AnnotationV>) -> Result<Seq<AnnotationV>, PErrorV>
    decreases anns.len(),
{
    if anns.len() == 0 {
        Ok(Seq::empty())
    } else {
        match resolve_annotations(defs, imports, anns.drop_last()) {
            Err(e) => Err(e),
            Ok(rs) => match resolve_annotation(defs, imports, anns.last()) {
                Err(e) => Err(e),
                Ok(None) => Ok(rs),
                Ok(Some(a)) => Ok(rs.push(a)),
            },
        }
    }
}

/// A function resolved: the type it returns, its arguments, then its
/// annotations.
#[verifier::opaque]
pub open spec fn resolve_function(defs: Seq<DefineV>, imports: Seq<NameV>, f: FunctionV) -> Result<FunctionV, PErrorV> {
    match resolve_type(defs, f.returns.0, f.returns.1, imports, depth()) {
        Err(e) => Err(e),
        Ok(r) => match map_all(f.args, type_res(defs, imports)) {
            Err(e) => Err(e),
            Ok(args) => match resolve_annotations(defs, imports, f.annotations) {
                Err(e) => Err(e),
                Ok(anns) => Ok(FunctionV { name: f.name, args, returns: r, annotations: anns }),
            },
        },
    }
}

pub open spec fn function_res(defs: Seq<DefineV>, imports: Seq<NameV>) -> spec_fn(FunctionV) -> Result<FunctionV, PErrorV> {
    |f: FunctionV| resolve_function(defs, imports, f)
}

#[verifier::opaque]
pub open spec fn resolve_module(defs: Seq<DefineV>, imports: Seq<NameV>, m: ModuleV) -> Result<ModuleV, PErrorV> {
    match map_all(m.functions, function_res(defs, imports)) {
        Err(e) => Err(e),
        Ok(fs) => Ok(ModuleV { name: m.name, functions: fs }),
    }
}

pub open spec fn module_res(defs: Seq<DefineV>, imports: Seq<NameV>) -> spec_fn(ModuleV) -> Result<ModuleV, PErrorV> {
    |m: ModuleV| resolve_module(defs, imports, m)
}

#[verifier::opaque]
pub open spec fn resolve_data(defs: Seq<DefineV>, imports: Seq<NameV>, d: DataV) -> Result<DataV, PErrorV> {
    match map_all(d.members, type_res(defs, imports)) {
        Err(e) => Err(e),
        Ok(ms) => Ok(DataV { name: d.name, members: ms }),
    }
}

pub open spec fn data_res(defs: Seq<DefineV>, imports: Seq<NameV>) -> spec_fn(DataV) -> Result<DataV, PErrorV> {
    |d: DataV| resolve_data(defs, imports, d)
}

/// A unit resolved: its data, then its modules; a checked unit keeps no
/// imports.
#[verifier::opaque]
pub open spec fn resolve_unit(defs: Seq<DefineV>, imports: Seq<NameV>, u: UnitV) -> Result<UnitV, PErrorV> {
    match map_all(u.data, data_res(defs, imports)) {
        Err(e) => Err(e),
        Ok(ds) => match map_all(u.modules, module_res(defs, imports)) {
            Err(e) => Err(e),
            Ok(ms) => Ok(UnitV { name: u.name, data: ds, modules: ms, imports: Seq::empty() }),
        },
    }
}

pub open spec fn unit_res(defs: Seq<DefineV>, imports: Seq<NameV>) -> spec_fn(UnitV) -> Result<UnitV, PErrorV> {
    |u: UnitV| resolve_unit(defs, imports, u)
}

/// A system resolved unit by unit.
pub open spec fn resolve_system(defs: Seq<DefineV>, imports: Seq<NameV>, s: SystemV) -> Result<SystemV, PErrorV> {
    match map_all(s.units, unit_res(defs, imports)) {
        Err(e) => Err(e),
        Ok(us) => Ok(SystemV { units: us }),
    }
}

/// The model of an outcome.
pub open spec fn rv<T: View>(r: PResult<T>) -> Result<T::V, PErrorV> {
    match r {
        Ok(v) => Ok(v@),
        Err(e) => Err(e@),
    }
}

/// The model of an outcome that is a list.
pub open spec fn rvs<T: View>(r: PResult<Vec<T>>) -> Result<Seq<T::V>, PErrorV> {
    match r {
        Ok(v) => Ok(views_of(v@)),
        Err(e) => Err(e@),
    }
}

/// A failure among the annotations resolved so far is the failure of all
/// of them.
pub proof fn lemma_annotations_prefix_err(defs: Seq<DefineV>, imports: Seq<NameV>, s: Seq<AnnotationV>, i: int)
    requires
        0 <= i <= s.len(),
        resolve_annotations(defs, imports, s.take(i)) is Err,
    ensures
        resolve_annotations(defs, imports, s) == resolve_annotations(defs, imports, s.take(i)),
    decreases s.len() - i,
{
    if i < s.len() {
        lemma_take_next(s, i);
        lemma_annotations_prefix_err(defs, imports, s, i + 1);
    } else {
        lemma_take_all(s);
    }
}

/// A `use` or `return` line of a spawn names, once resolved, the variable it
/// refers to: the name of a `Variable` definition (a name brought in by
/// `use` is followed to that variable), or a dotted path into data.
pub proof fn lemma_detail_names_variable(defs: Seq<DefineV>, imports: Seq<NameV>, d: DetailV)
    ensures
        resolve_detail(defs, imports, d) matches Ok(r) ==> match r {
            DetailV::Use(n, _) | DetailV::Return(n, _) => tails_of(n.name) is Some || exists|i: int|
                0 <= i < defs.len() && defs[i].refs == n && defs[i].kind is Variable,
            _ => true,
        },
{
    reveal(resolve_detail);
    match d {
        DetailV::Use(n, _) => lemma_resolved_name_is_variable(defs, n, imports, depth()),
        DetailV::Return(n, _) => lemma_resolved_name_is_variable(defs, n, imports, depth()),
        _ => {},
    }
}

/// A `use` line of a plain name resolves to the variable of that name it
/// refers to, through any `use` definitions (in the definitions of a system,
/// a `use` always refers to a name with its own last component): the line
/// then names a `Variable` definition with the same last component.
pub proof fn lemma_use_line_names_its_variable(defs: Seq<DefineV>, imports: Seq<NameV>, n: NameV, t: TypeV)
    requires
        forall|k: int| 0 <= k < defs.len() ==> use_keeps_name(#[trigger] defs[k]),
        tails_of(n.name) is None,
    ensures
        resolve_detail(defs, imports, DetailV::Use(n, t)) matches Ok(r) ==> r matches DetailV::Use(n2, _) && n2.name
            == n.name && exists|i: int| 0 <= i < defs.len() && defs[i].refs == n2 && defs[i].kind is Variable,
{
    reveal(resolve_detail);
    lemma_resolved_name_keeps_name(defs, n, imports, depth());
    lemma_resolved_name_is_variable(defs, n, imports, depth());
}

/// The `use` and `return` lines of a spawn name a variable of the
/// definitions, or a dotted path into data.
pub open spec fn detail_names_variable(defs: Seq<DefineV>, d: DetailV) -> bool {
    match d {
        DetailV::Use(n, _) | DetailV::Return(n, _) => tails_of(n.name) is Some || exists|i: int|
            0 <= i < defs.len() && defs[i].refs == n && defs[i].kind is Variable,
        _ => true,
    }
}

/// Every `use` and `return` line of every spawn of the system names a
/// variable of the definitions, or a dotted path into data.
pub open spec fn system_names_variables(defs: Seq<DefineV>, s: SystemV) -> bool {
    forall|u: int, m: int, f: int, a: int|
        0 <= u < s.units.len() && 0 <= m < s.units[u].modules.len() && 0 <= f
            < s.units[u].modules[m].functions.len() && 0 <= a
            < s.units[u].modules[m].functions[f].annotations.len() ==> (
        #[trigger] s.units[u].modules[m].functions[f].annotations[a] matches AnnotationV::Spawn {
            details,
            ..
        } ==> forall|k: int| 0 <= k < details.len() ==> detail_names_variable(defs, #[trigger] details[k]))
}

/// The spawn lines of a resolved annotation name variables.
proof fn lemma_annotation_names_variables(defs: Seq<DefineV>, imports: Seq<NameV>, a: AnnotationV)
    ensures
        resolve_annotation(defs, imports, a) matches Ok(Some(r)) ==> (r matches AnnotationV::Spawn {
            details,
            ..
        } ==> forall|k: int| 0 <= k < details.len() ==> detail_names_variable(defs, #[trigger] details[k])),
{
    reveal(resolve_annotation);
    if let AnnotationV::Spawn { result, details } = a {
        let p = |x: DetailV| detail_names_variable(defs, x);
        assert forall|x: DetailV| #[trigger] detail_res(defs, imports)(x) matches Ok(y) ==> p(y) by {
            lemma_detail_names_variable(defs, imports, x);
        }
        lemma_map_all_keeps(details, detail_res(defs, imports), p);
    }
}

/// The annotations of a resolved function name variables in their spawns.
proof fn lemma_annotations_name_variables(defs: Seq<DefineV>, imports: Seq<NameV>, anns: Seq<AnnotationV>)
    ensures
        resolve_annotations(defs, imports, anns) matches Ok(rs) ==> forall|i: int|
            0 <= i < rs.len() ==> ((#[trigger] rs[i]) matches AnnotationV::Spawn { details, .. }
                ==> forall|k: int| 0 <= k < details.len() ==> detail_names_variable(defs, #[trigger] details[k])),
    decreases anns.len(),
{
    if anns.len() > 0 {
        lemma_annotations_name_variables(defs, imports, anns.drop_last());
        lemma_annotation_names_variables(defs, imports, anns.last());
        if let Ok(rs) = resolve_annotations(defs, imports, anns) {
            let prev = resolve_annotations(defs, imports, anns.drop_last())->Ok_0;
            assert forall|i: int| 0 <= i < rs.len() implies ((#[trigger] rs[i]) matches AnnotationV::Spawn {
                details,
                ..
            } ==> forall|k: int| 0 <= k < details.len() ==> detail_names_variable(defs, #[trigger] details[k])) by {
                if i < prev.len() {
                    assert(rs[i] == prev[i]);
                }
            }
        }
    }
}

/// In a resolved system, every `use` and `return` line of a spawn names the
/// variable it refers to (a name brought in by `use` is followed to it), or
/// a dotted path into data: never a name that only a `use` defines.
pub proof fn lemma_resolved_spawns_name_variables(defs: Seq<DefineV>, imports: Seq<NameV>, s: SystemV)
    ensures
        resolve_system(defs, imports, s) matches Ok(r) ==> system_names_variables(defs, r),
{
    let pf = |f: FunctionV| forall|a: int| 0 <= a < f.annotations.len() ==> ((#[trigger] f.annotations[a]) matches AnnotationV::Spawn {
        details,
        ..
    } ==> forall|k: int| 0 <= k < details.len() ==> detail_names_variable(defs, #[trigger] details[k]));
    assert forall|f: FunctionV| #[trigger] function_res(defs, imports)(f) matches Ok(g) ==> pf(g) by {
        reveal(resolve_function);
        lemma_annotations_name_variables(defs, imports, f.annotations);
    }
    let pm = |m: ModuleV| forall|j: int| 0 <= j < m.functions.len() ==> pf(#[trigger] m.functions[j]);
    assert forall|m: ModuleV| #[trigger] module_res(defs, imports)(m) matches Ok(y) ==> pm(y) by {
        reveal(resolve_module);
        lemma_map_all_keeps(m.functions, function_res(defs, imports), pf);
    }
    let pu = |u: UnitV| forall|j: int| 0 <= j < u.modules.len() ==> pm(#[trigger] u.modules[j]);
    assert forall|u: UnitV| #[trigger] unit_res(defs, imports)(u) matches Ok(y) ==> pu(y) by {
        reveal(resolve_unit);
        lemma_map_all_keeps(u.modules, module_res(defs, imports), pm);
    }
    lemma_map_all_keeps(s.units, unit_res(defs, imports), pu);
    if let Ok(r) = resolve_system(defs, imports, s) {
        assert forall|u: int, m: int, f: int, a: int|
            0 <= u < r.units.len() && 0 <= m < r.units[u].modules.len() && 0 <= f
                < r.units[u].modules[m].functions.len() && 0 <= a
                < r.units[u].modules[m].functions[f].annotations.len() implies (
            #[trigger] r.units[u].modules[m].functions[f].annotations[a] matches AnnotationV::Spawn {
                details,
                ..
            } ==> forall|k: int| 0 <= k < details.len() ==> detail_names_variable(defs, #[trigger] details[k])) by {
            assert(pu(r.units[u]));
            assert(pm(r.units[u].modules[m]));
            assert(pf(r.units[u].modules[m].functions[f]));
        }
    }
}

/// Every type of the list is resolved.
pub open spec fn nts_solved(s: Seq<NT>) -> bool {
    forall|i: int| 0 <= i < s.len() ==> (#[trigger] s[i]).1.kind.is_solved()
}

/// Every type in a line of a spawn is resolved.
pub open spec fn detail_solved(d: DetailV) -> bool {
    match d {
        DetailV::Use(_, t) => t.kind.is_solved(),
        DetailV::Return(_, t) => t.kind.is_solved(),
        DetailV::LetTo { func, args, .. } => func.1.kind.is_solved() && nts_solved(args),
    }
}

/// Every type in an annotation is resolved.
pub open spec fn annotation_solved(a: AnnotationV) -> bool {
    match a {
        AnnotationV::Return(_) => true,
        AnnotationV::Spawn { result, details } => result.1.kind.is_solved() && forall|i: int|
            0 <= i < details.len() ==> detail_solved(#[trigger] details[i]),
        AnnotationV::Modify { target, uses } => target.1.kind.is_solved() && nts_solved(uses),
        AnnotationV::Affect { func, args } => func.1.kind.is_solved() && nts_solved(args),
    }
}

/// Every type in a function is resolved.
pub open spec fn function_solved(f: FunctionV) -> bool {
    &&& f.returns.1.kind.is_solved()
    &&& nts_solved(f.args)
    &&& forall|i: int| 0 <= i < f.annotations.len() ==> annotation_solved(#[trigger] f.annotations[i])
}

/// Every type in a unit is resolved.
pub open spec fn unit_solved(u: UnitV) -> bool {
    &&& forall|i: int| 0 <= i < u.data.len() ==> nts_solved(#[trigger] u.data[i].members)
    &&& forall|i: int, j: int|
        0 <= i < u.modules.len() && 0 <= j < u.modules[i].functions.len() ==> function_solved(
            #[trigger] u.modules[i].functions[j],
        )
}

/// Every type in a system is resolved.
pub open spec fn system_solved(s: SystemV) -> bool {
    forall|i: int| 0 <= i < s.units.len() ==> unit_solved(#[trigger] s.units[i])
}

/// Resolving a list of names gives resolved types.
proof fn lemma_names_solved(defs: Seq<DefineV>, imports: Seq<NameV>, s: Seq<NT>)
    ensures
        map_all(s, name_res(defs, imports)) matches Ok(r) ==> nts_solved(r),
{
    let p = |x: NT| x.1.kind.is_solved();
    assert forall|x: NT| #[trigger] name_res(defs, imports)(x) matches Ok(y) ==> p(y) by {
        lemma_resolve_name_solved(defs, x.0, imports, depth());
    }
    lemma_map_all_keeps(s, name_res(defs, imports), p);
}

/// Resolving a list of types gives resolved types.
proof fn lemma_types_solved(defs: Seq<DefineV>, imports: Seq<NameV>, s: Seq<NT>)
    ensures
        map_all(s, type_res(defs, imports)) matches Ok(r) ==> nts_solved(r),
{
    let p = |x: NT| x.1.kind.is_solved();
    assert forall|x: NT| #[trigger] type_res(defs, imports)(x) matches Ok(y) ==> p(y) by {
        lemma_resolve_type_solved(defs, x.0, x.1, imports, depth());
    }
    lemma_map_all_keeps(s, type_res(defs, imports), p);
}

/// A line of a spawn resolves to one whose types are resolved.
proof fn lemma_detail_solved(defs: Seq<DefineV>, imports: Seq<NameV>, d: DetailV)
    ensures
        resolve_detail(defs, imports, d) matches Ok(r) ==> detail_solved(r),
{
    reveal(resolve_detail);
    match d {
        DetailV::Use(n, _) => lemma_resolve_name_solved(defs, n, imports, depth()),
        DetailV::Return(n, _) => lemma_resolve_name_solved(defs, n, imports, depth()),
        DetailV::LetTo { name, func, args } => {
            lemma_names_solved(defs, imports, args);
            lemma_resolve_type_solved(defs, name, func.1, imports, depth());
        },
    }
}

/// An annotation resolves to one whose types are resolved.
proof fn lemma_annotation_solved(defs: Seq<DefineV>, imports: Seq<NameV>, a: AnnotationV)
    ensures
        resolve_annotation(defs, imports, a) matches Ok(Some(r)) ==> annotation_solved(r),
{
    reveal(resolve_annotation);
    match a {
        AnnotationV::Affect { func, args } => {
            lemma_resolve_type_solved(defs, func.0, func.1, imports, depth());
            lemma_names_solved(defs, imports, args);
        },
        AnnotationV::Modify { target, uses } => {
            lemma_resolve_name_solved(defs, target.0, imports, depth());
            lemma_names_solved(defs, imports, uses);
        },
        AnnotationV::Spawn { result, details } => {
            lemma_resolve_name_solved(defs, result.0, imports, depth());
            let p = |x: DetailV| detail_solved(x);
            assert forall|x: DetailV| #[trigger] detail_res(defs, imports)(x) matches Ok(y) ==> p(
                y,
            ) by {
                lemma_detail_solved(defs, imports, x);
            }
            lemma_map_all_keeps(details, detail_res(defs, imports), p);
        },
        AnnotationV::Return(_) => {},
    }
}

/// The annotations of a function resolve to ones whose types are resolved.
proof fn lemma_annotations_solved(defs: Seq<DefineV>, imports: Seq<NameV>, anns: Seq<AnnotationV>)
    ensures
        resolve_annotations(defs, imports, anns) matches Ok(rs) ==> forall|i: int|
            0 <= i < rs.len() ==> annotation_solved(#[trigger] rs[i]),
    decreases anns.len(),
{
    if anns.len() > 0 {
        lemma_annotations_solved(defs, imports, anns.drop_last());
        lemma_annotation_solved(defs, imports, anns.last());
        if let Ok(rs) = resolve_annotations(defs, imports, anns) {
            let prev = resolve_annotations(defs, imports, anns.drop_last())->Ok_0;
            assert forall|i: int| 0 <= i < rs.len() implies annotation_solved(#[trigger] rs[i]) by {
                if i < prev.len() {
                    assert(rs[i] == prev[i]);
                }
            }
        }
    }
}

/// A function resolves to one whose types are resolved.
proof fn lemma_function_solved(defs: Seq<DefineV>, imports: Seq<NameV>, f: FunctionV)
    ensures
        resolve_function(defs, imports, f) matches Ok(r) ==> function_solved(r),
{
    reveal(resolve_function);
    lemma_resolve_type_solved(defs, f.returns.0, f.returns.1, imports, depth());
    lemma_types_solved(defs, imports, f.args);
    lemma_annotations_solved(defs, imports, f.annotations);
}

/// A unit resolves to one whose types are resolved.
proof fn lemma_unit_solved(defs: Seq<DefineV>, imports: Seq<NameV>, u: UnitV)
    ensures
        resolve_unit(defs, imports, u) matches Ok(r) ==> unit_solved(r),
{
    reveal(resolve_unit);
    let pd = |d: DataV| nts_solved(d.members);
    assert forall|d: DataV| #[trigger] data_res(defs, imports)(d) matches Ok(y) ==> pd(y) by {
        reveal(resolve_data);
        lemma_types_solved(defs, imports, d.members);
    }
    lemma_map_all_keeps(u.data, data_res(defs, imports), pd);
    let pf = |f: FunctionV| function_solved(f);
    let pm = |m: ModuleV| forall|j: int| 0 <= j < m.functions.len() ==> function_solved(
        #[trigger] m.functions[j],
    );
    assert forall|m: ModuleV| #[trigger] module_res(defs, imports)(m) matches Ok(y) ==> pm(y) by {
        reveal(resolve_module);
        assert forall|f: FunctionV| #[trigger] function_res(defs, imports)(f) matches Ok(g) ==> pf(
            g,
        ) by {
            lemma_function_solved(defs, imports, f);
        }
        lemma_map_all_keeps(m.functions, function_res(defs, imports), pf);
    }
    lemma_map_all_keeps(u.modules, module_res(defs, imports), pm);
}

/// Resolving a system leaves no type unresolved: every type of a checked
/// system names a primitive, a data type, or nothing to return.
pub proof fn lemma_resolve_system_solved(defs: Seq<DefineV>, imports: Seq<NameV>, s: SystemV)
    ensures
        resolve_system(defs, imports, s) matches Ok(r) ==> system_solved(r),
{
    let p = |u: UnitV| unit_solved(u);
    assert forall|u: UnitV| #[trigger] unit_res(defs, imports)(u) matches Ok(y) ==> p(y) by {
        lemma_unit_solved(defs, imports, u);
    }
    lemma_map_all_keeps(s.units, unit_res(defs, imports), p);
}

/// Resolves the types and names of a parsed system.
pub struct TypeResolver<'a> {
    def_manager: &'a DefinesManager,
    imports: &'a Vec<Name>,
}

impl<'a> TypeResolver<'a> {
    pub closed spec fn defs(&self) -> Seq<DefineV> {
        self.def_manager@
    }

    pub closed spec fn imps(&self) -> Seq<NameV> {
        views_of(self.imports@)
    }

    /// Resolves every type and name of `system` against the definitions
    /// and the imports.
    pub fn resolve(system: unchecked::SysDCSystem, def_manager: &'a DefinesManager, imports: &'a Vec<Name>) -> (r: PResult<SysDCSystem>)
        ensures
            rv(r) == resolve_system(def_manager@, views_of(imports@), system@),
    {
        let resolver = TypeResolver { def_manager, imports };
        let ghost f = unit_res(def_manager@, views_of(imports@));
        let ghost xs = views_of(system.units@);
        let mut units: Vec<SysDCUnit> = Vec::new();
        proof {
            lemma_map_start(xs, f);
            assert(views_of(units@) =~= Seq::<UnitV>::empty());
        }
        let mut i: usize = 0;
        while i < system.units.len()
            invariant
                i <= xs.len(),
                xs == views_of(system.units@),
                f == unit_res(resolver.defs(), resolver.imps()),
                resolver.defs() == def_manager@,
                resolver.imps() == views_of(imports@),
                map_all(xs.take(i as int), f) == Ok::<Seq<UnitV>, PErrorV>(views_of(units@)),
            decreases system.units.len() - i,
        {
            let r = resolver.resolve_unit(&system.units[i]);
            proof {
                assert(xs[i as int] == system.units@[i as int]@);
                lemma_map_step(xs, f, i as int, views_of(units@));
            }
            match r {
                Err(e) => {
                    return Err(e);
                },
                Ok(u) => {
                    let ghost before = views_of(units@);
                    let ghost uv = u@;
                    units.push(u);
                    assert(views_of(units@) =~= before.push(uv));
                },
            }
            i = i + 1;
        }
        proof {
            lemma_take_all(xs);
        }
        Ok(SysDCSystem { units })
    }

    fn resolve_names(&self, xs: &Vec<(Name, Type)>) -> (r: PResult<Vec<(Name, Type)>>)
        ensures
            rvs(r) == map_all(views_of(xs@), name_res(self.defs(), self.imps())),
    {
        let ghost f = name_res(self.defs(), self.imps());
        let ghost s = views_of(xs@);
        let mut out: Vec<(Name, Type)> = Vec::new();
        proof {
            lemma_map_start(s, f);
            assert(views_of(out@) =~= Seq::<NT>::empty());
        }
        let mut i: usize = 0;
        while i < xs.len()
            invariant
                i <= s.len(),
                s == views_of(xs@),
                f == name_res(self.defs(), self.imps()),
                map_all(s.take(i as int), f) == Ok::<Seq<NT>, PErrorV>(views_of(out@)),
            decreases xs.len() - i,
        {
            let r = self.def_manager.resolve_from_name(xs[i].0.clone(), self.imports);
            proof {
                assert(s[i as int] == xs@[i as int]@);
                lemma_map_step(s, f, i as int, views_of(out@));
            }
            match r {
                Err(e) => {
                    return Err(e);
                },
                Ok(x) => {
                    let ghost before = views_of(out@);
                    let ghost xv = x@;
                    out.push(x);
                    assert(views_of(out@) =~= before.push(xv));
                },
            }
            i = i + 1;
        }
        proof {
            lemma_take_all(s);
        }
        Ok(out)
    }

    fn resolve_types(&self, xs: &Vec<(Name, Type)>) -> (r: PResult<Vec<(Name, Type)>>)
        ensures
            rvs(r) == map_all(views_of(xs@), type_res(self.defs(), self.imps())),
    {
        let ghost f = type_res(self.defs(), self.imps());
        let ghost s = views_of(xs@);
        let mut out: Vec<(Name, Type)> = Vec::new();
        proof {
            lemma_map_start(s, f);
            assert(views_of(out@) =~= Seq::<NT>::empty());
        }
        let mut i: usize = 0;
        while i < xs.len()
            invariant
                i <= s.len(),
                s == views_of(xs@),
                f == type_res(self.defs(), self.imps()),
                map_all(s.take(i as int), f) == Ok::<Seq<NT>, PErrorV>(views_of(out@)),
            decreases xs.len() - i,
        {
            let (name, types) = &xs[i];
            let r = self.def_manager.resolve_type_within(name.clone(), types.clone(), self.imports, RESOLVE_DEPTH);
            proof {
                assert(s[i as int] == xs@[i as int]@);
                lemma_map_step(s, f, i as int, views_of(out@));
            }
            match r {
                Err(e) => {
                    return Err(e);
                },
                Ok(x) => {
                    let ghost before = views_of(out@);
                    let ghost xv = x@;
                    out.push(x);
                    assert(views_of(out@) =~= before.push(xv));
                },
            }
            i = i + 1;
        }
        proof {
            lemma_take_all(s);
        }
        Ok(out)
    }

    fn resolve_unit(&self, unit: &unchecked::SysDCUnit) -> (r: PResult<SysDCUnit>)
        ensures
            rv(r) == resolve_unit(self.defs(), self.imps(), unit@),
    {
        proof {
            reveal(resolve_unit);
        }
        let ghost f = data_res(self.defs(), self.imps());
        let ghost s = views_of(unit.data@);
        let mut data: Vec<SysDCData> = Vec::new();
        proof {
            lemma_map_start(s, f);
            assert(views_of(data@) =~= Seq::<DataV>::empty());
        }
        let mut i: usize = 0;
        while i < unit.data.len()
            invariant
                i <= s.len(),
                s == views_of(unit.data@),
                f == data_res(self.defs(), self.imps()),
                map_all(s.take(i as int), f) == Ok::<Seq<DataV>, PErrorV>(views_of(data@)),
            decreases unit.data.len() - i,
        {
            let r = self.resolve_data(&unit.data[i]);
            proof {
                reveal(resolve_unit);
                assert(s[i as int] == unit.data@[i as int]@);
                lemma_map_step(s, f, i as int, views_of(data@));
            }
            match r {
                Err(e) => {
                    return Err(e);
                },
                Ok(x) => {
                    let ghost before = views_of(data@);
                    let ghost xv = x@;
                    data.push(x);
                    assert(views_of(data@) =~= before.push(xv));
                },
            }
            i = i + 1;
        }
        proof {
            lemma_take_all(s);
        }
        let ghost g = module_res(self.defs(), self.imps());
        let ghost t = views_of(unit.modules@);
        let mut modules: Vec<SysDCModule> = Vec::new();
        proof {
            lemma_map_start(t, g);
            assert(views_of(modules@) =~= Seq::<ModuleV>::empty());
        }
        let mut j: usize = 0;
        while j < unit.modules.len()
            invariant
                j <= t.len(),
                t == views_of(unit.modules@),
                g == module_res(self.defs(), self.imps()),
                map_all(s, f) == Ok::<Seq<DataV>, PErrorV>(views_of(data@)),
                s == views_of(unit.data@),
                f == data_res(self.defs(), self.imps()),
                map_all(t.take(j as int), g) == Ok::<Seq<ModuleV>, PErrorV>(views_of(modules@)),
            decreases unit.modules.len() - j,
        {
            let r = self.resolve_module(&unit.modules[j]);
            proof {
                reveal(resolve_unit);
                assert(t[j as int] == unit.modules@[j as int]@);
                lemma_map_step(t, g, j as int, views_of(modules@));
            }
            match r {
                Err(e) => {
                    return Err(e);
                },
                Ok(x) => {
                    let ghost before = views_of(modules@);
                    let ghost xv = x@;
                    modules.push(x);
                    assert(views_of(modules@) =~= before.push(xv));
                },
            }
            j = j + 1;
        }
        proof {
            lemma_take_all(t);
        }
        Ok(SysDCUnit { name: unit.name.clone(), data, modules })
    }

    fn resolve_data(&self, data: &unchecked::SysDCData) -> (r: PResult<SysDCData>)
        ensures
            rv(r) == resolve_data(self.defs(), self.imps(), data@),
    {
        proof {
            reveal(resolve_data);
        }
        let members = self.resolve_types(&data.members)?;
        Ok(SysDCData { name: data.name.clone(), members })
    }

    fn resolve_module(&self, module: &unchecked::SysDCModule) -> (r: PResult<SysDCModule>)
        ensures
            rv(r) == resolve_module(self.defs(), self.imps(), module@),
    {
        proof {
            reveal(resolve_module);
        }
        let ghost f = function_res(self.defs(), self.imps());
        let ghost s = views_of(module.functions@);
        let mut functions: Vec<SysDCFunction> = Vec::new();
        proof {
            lemma_map_start(s, f);
            assert(views_of(functions@) =~= Seq::<FunctionV>::empty());
        }
        let mut i: usize = 0;
        while i < module.functions.len()
            invariant
                i <= s.len(),
                s == views_of(module.functions@),
                f == function_res(self.defs(), self.imps()),
                map_all(s.take(i as int), f) == Ok::<Seq<FunctionV>, PErrorV>(views_of(functions@)),
            decreases module.functions.len() - i,
        {
            let r = self.resolve_function(&module.functions[i]);
            proof {
                reveal(resolve_module);
                assert(s[i as int] == module.functions@[i as int]@);
                lemma_map_step(s, f, i as int, views_of(functions@));
            }
            match r {
                Err(e) => {
                    return Err(e);
                },
                Ok(x) => {
                    let ghost before = views_of(functions@);
                    let ghost xv = x@;
                    functions.push(x);
                    assert(views_of(functions@) =~= before.push(xv));
                },
            }
            i = i + 1;
        }
        proof {
            lemma_take_all(s);
        }
        Ok(SysDCModule { name: module.name.clone(), functions })
    }

    fn resolve_function(&self, func: &unchecked::SysDCFunction) -> (r: PResult<SysDCFunction>)
        ensures
            rv(r) == resolve_function(self.defs(), self.imps(), func@),
    {
        proof {
            reveal(resolve_function);
        }
        let (rname, rtype) = &func.returns;
        let ret = self.def_manager.resolve_type_within(rname.clone(), rtype.clone(), self.imports, RESOLVE_DEPTH)?;
        let args = self.resolve_types(&func.args)?;
        let annotations = self.resolve_annotations_of(&func.annotations)?;
        Ok(SysDCFunction { name: func.name.clone(), args, returns: ret, annotations })
    }

    fn resolve_annotations_of(&self, anns: &Vec<unchecked::SysDCAnnotation>) -> (r: PResult<Vec<SysDCAnnotation>>)
        ensures
            rvs(r) == resolve_annotations(self.defs(), self.imps(), views_of(anns@)),
    {
        let ghost s = anns@;
        let ghost sv = views_of(s);
        let mut annotations: Vec<SysDCAnnotation> = Vec::new();
        proof {
            assert(sv.take(0) =~= Seq::<AnnotationV>::empty());
            assert(views_of(annotations@) =~= Seq::<AnnotationV>::empty());
        }
        let mut i: usize = 0;
        while i < anns.len()
            invariant
                i <= sv.len(),
                s == anns@,
                sv == views_of(s),
                resolve_annotations(self.defs(), self.imps(), sv.take(i as int)) == Ok::<
                    Seq<AnnotationV>,
                    PErrorV,
                >(views_of(annotations@)),
            decreases anns.len() - i,
        {
            let r = self.resolve_annotation(&anns[i]);
            proof {
                assert(sv[i as int] == anns@[i as int]@);
                lemma_take_next(sv, i as int);
            }
            match r {
                Err(e) => {
                    proof {
                        lemma_annotations_prefix_err(self.defs(), self.imps(), sv, i as int + 1);
                    }
                    return Err(e);
                },
                Ok(None) => {},
                Ok(Some(x)) => {
                    let ghost before = views_of(annotations@);
                    let ghost xv = x@;
                    annotations.push(x);
                    assert(views_of(annotations@) =~= before.push(xv));
                },
            }
            i = i + 1;
        }
        proof {
            lemma_take_all(sv);
        }
        Ok(annotations)
    }

    fn resolve_annotation(&self, annotation: &unchecked::SysDCAnnotation) -> (r: PResult<Option<SysDCAnnotation>>)
        ensures
            (match r {
                Ok(Some(a)) => Ok(Some(a@)),
                Ok(None) => Ok(None),
                Err(e) => Err(e@),
            }) == resolve_annotation(self.defs(), self.imps(), annotation@),
    {
        proof {
            reveal(resolve_annotation);
        }
        match annotation {
            unchecked::SysDCAnnotation::Affect { func: (fname, ftype), args } => {
                let func = self.def_manager.resolve_type_within(fname.clone(), ftype.clone(), self.imports, RESOLVE_DEPTH)?;
                let rargs = self.resolve_names(args)?;
                Ok(Some(SysDCAnnotation::Affect { func, args: rargs }))
            },
            unchecked::SysDCAnnotation::Modify { target: (tname, _), uses } => {
                let target = self.def_manager.resolve_from_name(tname.clone(), self.imports)?;
                let ruses = self.resolve_names(uses)?;
                Ok(Some(SysDCAnnotation::Modify { target, uses: ruses }))
            },
            unchecked::SysDCAnnotation::Spawn { result: (rname, _), details } => {
                let result = self.def_manager.resolve_from_name(rname.clone(), self.imports)?;
                let rdetails = self.resolve_annotation_spawn_details(details)?;
                Ok(Some(SysDCAnnotation::Spawn { result, details: rdetails }))
            },
            unchecked::SysDCAnnotation::Return(_) => Ok(None),
        }
    }

    fn resolve_annotation_spawn_details(&self, details: &Vec<unchecked::SysDCSpawnDetail>) -> (r: PResult<Vec<SysDCSpawnDetail>>)
        ensures
            rvs(r) == map_all(views_of(details@), detail_res(self.defs(), self.imps())),
    {
        let ghost f = detail_res(self.defs(), self.imps());
        let ghost s = views_of(details@);
        let mut out: Vec<SysDCSpawnDetail> = Vec::new();
        proof {
            lemma_map_start(s, f);
            assert(views_of(out@) =~= Seq::<DetailV>::empty());
        }
        let mut i: usize = 0;
        while i < details.len()
            invariant
                i <= s.len(),
                s == views_of(details@),
                f == detail_res(self.defs(), self.imps()),
                map_all(s.take(i as int), f) == Ok::<Seq<DetailV>, PErrorV>(views_of(out@)),
            decreases details.len() - i,
        {
            let r = self.resolve_detail(&details[i]);
            proof {
                assert(s[i as int] == details@[i as int]@);
                lemma_map_step(s, f, i as int, views_of(out@));
            }
            match r {
                Err(e) => {
                    return Err(e);
                },
                Ok(x) => {
                    let ghost before = views_of(out@);
                    let ghost xv = x@;
                    out.push(x);
                    assert(views_of(out@) =~= before.push(xv));
                },
            }
            i = i + 1;
        }
        proof {
            lemma_take_all(s);
        }
        Ok(out)
    }

    fn resolve_detail(&self, detail: &unchecked::SysDCSpawnDetail) -> (r: PResult<SysDCSpawnDetail>)
        ensures
            rv(r) == resolve_detail(self.defs(), self.imps(), detail@),
    {
        proof {
            reveal(resolve_detail);
        }
        match detail {
            unchecked::SysDCSpawnDetail::Use(name, _) => {
                let (n, t) = self.def_manager.resolve_from_name(name.clone(), self.imports)?;
                Ok(SysDCSpawnDetail::Use(n, t))
            },
            unchecked::SysDCSpawnDetail::Return(name, _) => {
                let (n, t) = self.def_manager.resolve_from_name(name.clone(), self.imports)?;
                Ok(SysDCSpawnDetail::Return(n, t))
            },
            unchecked::SysDCSpawnDetail::LetTo { name, func: (_, ftype), args } => {
                if let TypeKind::Unsolved(_) = &ftype.kind {
                    let rargs = self.resolve_names(args)?;
                    let func = self.def_manager.resolve_type_within(name.clone(), ftype.clone(), self.imports, RESOLVE_DEPTH)?;
                    Ok(SysDCSpawnDetail::LetTo { name: name.clone(), func, args: rargs })
                } else {
                    PErrorKind::TypeUnmatch1(ftype.clone()).to_err()
                }
            },
        }
    }
}

} // verus!
