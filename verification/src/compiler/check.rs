//! Checking a parsed system of the compiler: every definition is listed,
//! every type and name is resolved, and the types that meet in returns and
//! calls are compared.
//!
//! A name is looked up from its namespace outwards up to the root; there
//! are no imports, and a spawn sees every variable of its function.
use vstd::prelude::*;
use crate::lang::name::NameV;
use crate::lang::types::{TypeV, KindV};
use crate::lang::structure::{NT, views_of};
use crate::lang::structure::unchecked::{DataV, DetailV};
use crate::lang::check::lists::{
    concat_map, map_all, lemma_map_all_keeps, lemma_take_next, lemma_take_all, lemma_map_step, lemma_map_start,
};
use crate::lang::check::define::{
    DefineV, DefineKindV, find_up, first_func, first_member, head_of, tails_of, split_name,
    lemma_par_shorter, RESOLVE_DEPTH, lemma_tails_shorter, data_defs, arg_defs,
};
use crate::compiler::name::Name;
use crate::compiler::types::{Type, TypeKind};
use crate::compiler::error::{CompileError, CompileErrorKind, CompileErrorKindV, CErrV, CResult};
use crate::compiler::parse::{rv, rvs, fail};
use crate::compiler::structure::{
    SpawnV, FuncV, ModV, UnitV, SystemV, SysDCSystem, SysDCUnit, SysDCData, SysDCModule,
    SysDCFunction, SysDCSpawn, SysDCSpawnChild,
};
use crate::compiler::structure::unchecked;
use crate::lang::check::resolve::{nts_solved, detail_solved};

verus! {

/// How deep every resolution goes.
pub open spec fn depth() -> nat {
    RESOLVE_DEPTH as nat
}

/// The definition of `name` seen from the namespace of `at` or an
/// enclosing one.
pub open spec fn find(defs: Seq<DefineV>, at: NameV, name: Seq<char>) -> Result<DefineV, CErrV> {
    match find_up(defs, at, name, false) {
        Some(d) => Ok(d),
        None => Err(fail(CompileErrorKindV::NotFound(name))),
    }
}

/// The type `t`, named where `at` stands, resolved: a data type to the
/// data it names, a function to the type the function returns.
pub open spec fn resolve_type(defs: Seq<DefineV>, at: NameV, t: TypeV, fuel: nat) -> Result<NT, CErrV>
    decreases fuel,
{
    match t.kind {
        KindV::Int32 | KindV::Data => Ok((at, t)),
        KindV::Unsolved(hint) => if fuel == 0 {
            Err(fail(CompileErrorKindV::ResolutionTooDeep))
        } else {
            match find(defs, at, head_of(hint)) {
                Err(e) => Err(e),
                Ok(found) => match found.kind {
                    DefineKindV::Data => match tails_of(hint) {
                        Some(_) => Err(fail(CompileErrorKindV::IllegalAccess)),
                        None => Ok((at, TypeV { kind: KindV::Data, refs: Some(found.refs) })),
                    },
                    DefineKindV::Module => match tails_of(hint) {
                        Some(tl) => func_in_module(defs, found.refs, tl, (fuel - 1) as nat),
                        None => Err(fail(CompileErrorKindV::MissingFunctionName)),
                    },
                    DefineKindV::Function(_) => func_in_module(
                        defs,
                        at.par(true).par(true),
                        hint,
                        (fuel - 1) as nat,
                    ),
                    _ => Err(fail(CompileErrorKindV::TypeUnmatch1(t))),
                },
            }
        },
        _ => Err(fail(CompileErrorKindV::TypeUnmatch1(t))),
    }
}

/// The function `func` of `module` and the type it returns.
pub open spec fn func_in_module(defs: Seq<DefineV>, module: NameV, func: Seq<char>, fuel: nat) -> Result<NT, CErrV>
    decreases fuel,
{
    match first_func(defs, 0, module, func) {
        None => Err(fail(CompileErrorKindV::FuncNotDefinedInModule(func, module.name))),
        Some((refs, ft)) => if fuel == 0 {
            Err(fail(CompileErrorKindV::ResolutionTooDeep))
        } else {
            match resolve_type(defs, refs, ft, (fuel - 1) as nat) {
                Err(e) => Err(e),
                Ok((_, ty)) => Ok((refs, ty)),
            }
        },
    }
}

/// The member at the dotted path `member` inside the data `data`.
pub open spec fn member_in_data(defs: Seq<DefineV>, data: NameV, member: Seq<char>, fuel: nat) -> Result<NT, CErrV>
    decreases member.len(),
{
    match first_member(defs, 0, data.full(), head_of(member)) {
        None => Err(fail(CompileErrorKindV::MemberNotDefinedInData(member, data.name))),
        Some((refs, mt)) => match resolve_type(defs, refs, mt, fuel) {
            Err(e) => Err(e),
            Ok((_, ty)) => match ty.kind {
                KindV::Int32 => match tails_of(member) {
                    Some(_) => Err(fail(CompileErrorKindV::IllegalAccess)),
                    None => Ok((refs, ty)),
                },
                KindV::Data => match ty.refs {
                    None => Err(fail(CompileErrorKindV::TypeUnmatch1(ty))),
                    Some(dr) => match tails_of(member) {
                        Some(tl) => {
                            proof {
                                lemma_tails_shorter(member);
                            }
                            member_in_data(defs, dr, tl, fuel)
                        },
                        None => Ok((dr, ty)),
                    },
                },
                _ => Err(fail(CompileErrorKindV::TypeUnmatch1(ty))),
            },
        },
    }
}

/// The variable that `name` denotes where it stands, with its resolved
/// type; a path into a data variable gives the member.
pub open spec fn resolve_name(defs: Seq<DefineV>, name: NameV, fuel: nat) -> Result<NT, CErrV>
    decreases fuel,
{
    if fuel == 0 {
        Err(fail(CompileErrorKindV::ResolutionTooDeep))
    } else {
        match find(defs, name, head_of(name.name)) {
            Err(e) => Err(e),
            Ok(found) => match found.kind {
                DefineKindV::Variable(t) => match resolve_type(defs, name, t, (fuel - 1) as nat) {
                    Err(e) => Err(e),
                    Ok((_, ty)) => if ty.kind is Data {
                        match tails_of(name.name) {
                            Some(tl) => match ty.refs {
                                None => Err(fail(CompileErrorKindV::TypeUnmatch1(ty))),
                                Some(dr) => member_in_data(defs, dr, tl, (fuel - 1) as nat),
                            },
                            None => Ok((found.refs, ty)),
                        }
                    } else {
                        Ok((name, ty))
                    },
                },
                _ => Err(fail(CompileErrorKindV::NotDefined(name.name))),
            },
        }
    }
}

/// The resolved types of the arguments of the function whose full name is
/// `func`, from definition `i` on.
pub open spec fn args_from(defs: Seq<DefineV>, i: int, func: Seq<char>, fuel: nat) -> Result<Seq<TypeV>, CErrV>
    decreases defs.len() - i,
{
    if i < 0 || i >= defs.len() {
        Ok(Seq::empty())
    } else {
        match defs[i].kind {
            DefineKindV::Argument(t) => if defs[i].refs.namespace == func {
                match resolve_type(defs, defs[i].refs, t, fuel) {
                    Err(e) => Err(e),
                    Ok((_, ty)) => match args_from(defs, i + 1, func, fuel) {
                        Err(e) => Err(e),
                        Ok(rest) => Ok(seq![ty] + rest),
                    },
                }
            } else {
                args_from(defs, i + 1, func, fuel)
            },
            _ => args_from(defs, i + 1, func, fuel),
        }
    }
}

/* ----- what a system defines ----- */

pub open spec fn detail_defs() -> spec_fn(DetailV) -> Seq<DefineV> {
    |d: DetailV| match d {
        DetailV::LetTo { name, func, .. } => seq![DefineV { kind: DefineKindV::Variable(func.1), refs: name }],
        _ => Seq::empty(),
    }
}

pub open spec fn spawn_defs() -> spec_fn(SpawnV) -> Seq<DefineV> {
    |s: SpawnV| seq![DefineV { kind: DefineKindV::Variable(s.result.1), refs: s.result.0 }] + concat_map(
        s.details,
        detail_defs(),
    )
}

/// The type a function is listed with.
pub open spec fn returned_type(f: FuncV) -> TypeV {
    match f.returns {
        Some(r) => r.1,
        None => TypeV::nohint(),
    }
}

pub open spec fn function_defs() -> spec_fn(FuncV) -> Seq<DefineV> {
    |f: FuncV| seq![DefineV { kind: DefineKindV::Function(returned_type(f)), refs: f.name }]
        + concat_map(f.args, arg_defs()) + concat_map(f.spawns, spawn_defs())
}

pub open spec fn module_defs() -> spec_fn(ModV) -> Seq<DefineV> {
    |m: ModV| seq![DefineV { kind: DefineKindV::Module, refs: m.name }] + concat_map(m.functions, function_defs())
}

pub open spec fn unit_defs() -> spec_fn(UnitV) -> Seq<DefineV> {
    |u: UnitV| concat_map(u.data, data_defs()) + concat_map(u.modules, module_defs())
}

/// Everything a system defines, in order.
pub open spec fn system_defines(s: SystemV) -> Seq<DefineV> {
    concat_map(s.units, unit_defs())
}

/* ----- checking ----- */

/// The first pair, from index `i` on, of an argument and the type asked for
/// it that differ.
pub open spec fn first_mismatch(req: Seq<TypeV>, act: Seq<NT>, i: int) -> Result<(), CErrV>
    decreases act.len() - i,
{
    if i < 0 || i >= act.len() || i >= req.len() {
        Ok(())
    } else if act[i].1 != req[i] {
        Err(fail(CompileErrorKindV::TypeUnmatch2(req[i], act[i].1)))
    } else {
        first_mismatch(req, act, i + 1)
    }
}

/// The first `return` line, from index `i` on, whose type is not `req`.
pub open spec fn first_bad_return(req: TypeV, ds: Seq<DetailV>, i: int) -> Result<(), CErrV>
    decreases ds.len() - i,
{
    if i < 0 || i >= ds.len() {
        Ok(())
    } else {
        match ds[i] {
            DetailV::Return(_, t) => if t != req {
                Err(fail(CompileErrorKindV::TypeUnmatch2(req, t)))
            } else {
                first_bad_return(req, ds, i + 1)
            },
            _ => first_bad_return(req, ds, i + 1),
        }
    }
}

pub open spec fn name_res(defs: Seq<DefineV>) -> spec_fn(NT) -> Result<NT, CErrV> {
    |x: NT| resolve_name(defs, x.0, depth())
}

pub open spec fn type_res(defs: Seq<DefineV>) -> spec_fn(NT) -> Result<NT, CErrV> {
    |x: NT| resolve_type(defs, x.0, x.1, depth())
}

pub open spec fn member_res(defs: Seq<DefineV>) -> spec_fn(NT) -> Result<NT, CErrV> {
    |x: NT| if x.1.kind is Int32 {
        Ok(x)
    } else {
        resolve_type(defs, x.0, x.1, depth())
    }
}

/// A line of a spawn resolved; a `let` has its arguments compared with
/// the function's parameters, pair by pair.
#[verifier::opaque]
pub open spec fn check_child(defs: Seq<DefineV>, d: DetailV) -> Result<DetailV, CErrV> {
    match d {
        DetailV::Use(n, _) => match resolve_name(defs, n, depth()) {
            Err(e) => Err(e),
            Ok((n2, t2)) => Ok(DetailV::Use(n2, t2)),
        },
        DetailV::Return(n, _) => match resolve_name(defs, n, depth()) {
            Err(e) => Err(e),
            Ok((n2, t2)) => Ok(DetailV::Return(n2, t2)),
        },
        DetailV::LetTo { name, func, args } => if func.1.kind is Unsolved {
            match map_all(args, name_res(defs)) {
                Err(e) => Err(e),
                Ok(args2) => match resolve_type(defs, name, func.1, depth()) {
                    Err(e) => Err(e),
                    Ok(f2) => match args_from(defs, 0, f2.0.full(), depth()) {
                        Err(e) => Err(e),
                        Ok(req) => match first_mismatch(req, args2, 0) {
                            Err(e) => Err(e),
                            Ok(()) => Ok(DetailV::LetTo { name, func: f2, args: args2 }),
                        },
                    },
                },
            }
        } else {
            Err(fail(CompileErrorKindV::TypeUnmatch1(func.1)))
        },
    }
}

pub open spec fn child_chk(defs: Seq<DefineV>) -> spec_fn(DetailV) -> Result<DetailV, CErrV> {
    |d: DetailV| check_child(defs, d)
}

/// A spawn: its result resolved as a type and as a name, its lines, and
/// every `return` line against the result's type.
#[verifier::opaque]
pub open spec fn check_spawn(defs: Seq<DefineV>, s: SpawnV) -> Result<SpawnV, CErrV> {
    match resolve_type(defs, s.result.0, s.result.1, depth()) {
        Err(e) => Err(e),
        Ok((_, req)) => match resolve_name(defs, s.result.0, depth()) {
            Err(e) => Err(e),
            Ok(r2) => match map_all(s.details, child_chk(defs)) {
                Err(e) => Err(e),
                Ok(ds) => match first_bad_return(req, ds, 0) {
                    Err(e) => Err(e),
                    Ok(()) => Ok(SpawnV { result: r2, details: ds }),
                },
            },
        },
    }
}

pub open spec fn spawn_chk(defs: Seq<DefineV>) -> spec_fn(SpawnV) -> Result<SpawnV, CErrV> {
    |s: SpawnV| check_spawn(defs, s)
}

/// A function: the type it declares, the variable it returns, its
/// arguments, its spawns, and then the two types compared.
#[verifier::opaque]
pub open spec fn check_function(defs: Seq<DefineV>, f: FuncV) -> Result<FuncV, CErrV> {
    match f.returns {
        None => Err(fail(CompileErrorKindV::ReturnNotExists)),
        Some(ret) => match resolve_type(defs, ret.0, ret.1, depth()) {
            Err(e) => Err(e),
            Ok((_, req)) => match resolve_name(defs, ret.0, depth()) {
                Err(e) => Err(e),
                Ok(r2) => match map_all(f.args, type_res(defs)) {
                    Err(e) => Err(e),
                    Ok(args) => match map_all(f.spawns, spawn_chk(defs)) {
                        Err(e) => Err(e),
                        Ok(sps) => if req != r2.1 {
                            Err(fail(CompileErrorKindV::TypeUnmatch2(req, r2.1)))
                        } else {
                            Ok(FuncV { name: f.name, args, returns: Some(r2), spawns: sps })
                        },
                    },
                },
            },
        },
    }
}

pub open spec fn function_chk(defs: Seq<DefineV>) -> spec_fn(FuncV) -> Result<FuncV, CErrV> {
    |f: FuncV| check_function(defs, f)
}

pub open spec fn module_chk(defs: Seq<DefineV>) -> spec_fn(ModV) -> Result<ModV, CErrV> {
    |m: ModV| match map_all(m.functions, function_chk(defs)) {
        Err(e) => Err(e),
        Ok(fs) => Ok(ModV { name: m.name, functions: fs }),
    }
}

pub open spec fn data_chk(defs: Seq<DefineV>) -> spec_fn(DataV) -> Result<DataV, CErrV> {
    |d: DataV| match map_all(d.members, member_res(defs)) {
        Err(e) => Err(e),
        Ok(ms) => Ok(DataV { name: d.name, members: ms }),
    }
}

#[verifier::opaque]
pub open spec fn check_unit(defs: Seq<DefineV>, u: UnitV) -> Result<UnitV, CErrV> {
    match map_all(u.data, data_chk(defs)) {
        Err(e) => Err(e),
        Ok(ds) => match map_all(u.modules, module_chk(defs)) {
            Err(e) => Err(e),
            Ok(ms) => Ok(UnitV { name: u.name, data: ds, modules: ms }),
        },
    }
}

pub open spec fn unit_chk(defs: Seq<DefineV>) -> spec_fn(UnitV) -> Result<UnitV, CErrV> {
    |u: UnitV| check_unit(defs, u)
}

/// What checking a parsed system gives: the system with every type
/// resolved, or the first failure.
pub open spec fn checked(s: SystemV) -> Result<SystemV, CErrV> {
    match map_all(s.units, unit_chk(system_defines(s))) {
        Err(e) => Err(e),
        Ok(us) => Ok(SystemV { units: us }),
    }
}

/// Every type in a function of the compiler is resolved.
pub open spec fn func_solved(f: FuncV) -> bool {
    &&& f.returns matches Some(r) ==> r.1.kind.is_solved()
    &&& nts_solved(f.args)
    &&& forall|i: int| 0 <= i < f.spawns.len() ==> {
        &&& (#[trigger] f.spawns[i]).result.1.kind.is_solved()
        &&& forall|j: int| 0 <= j < f.spawns[i].details.len() ==> detail_solved(
            #[trigger] f.spawns[i].details[j],
        )
    }
}

/// Every type in a unit of the compiler is resolved.
pub open spec fn unit_solved(u: UnitV) -> bool {
    &&& forall|i: int| 0 <= i < u.data.len() ==> nts_solved(#[trigger] u.data[i].members)
    &&& forall|i: int, j: int|
        0 <= i < u.modules.len() && 0 <= j < u.modules[i].functions.len() ==> func_solved(
            #[trigger] u.modules[i].functions[j],
        )
}

/// Every type in a system of the compiler is resolved.
pub open spec fn system_solved(s: SystemV) -> bool {
    forall|i: int| 0 <= i < s.units.len() ==> unit_solved(#[trigger] s.units[i])
}

/// A type that resolves without error is resolved.
proof fn lemma_type_solved(defs: Seq<DefineV>, at: NameV, t: TypeV, fuel: nat)
    ensures
        resolve_type(defs, at, t, fuel) matches Ok((_, r)) ==> r.kind.is_solved(),
    decreases fuel,
{
    if fuel > 0 {
        if let KindV::Unsolved(hint) = t.kind {
            if let Ok(found) = find(defs, at, head_of(hint)) {
                match found.kind {
                    DefineKindV::Module => if let Some(tl) = tails_of(hint) {
                        lemma_func_type_solved(defs, found.refs, tl, (fuel - 1) as nat);
                    },
                    DefineKindV::Function(_) => {
                        lemma_func_type_solved(defs, at.par(true).par(true), hint, (fuel - 1) as nat);
                    },
                    _ => {},
                }
            }
        }
    }
}

/// A function found in a module returns a resolved type.
proof fn lemma_func_type_solved(defs: Seq<DefineV>, module: NameV, func: Seq<char>, fuel: nat)
    ensures
        func_in_module(defs, module, func, fuel) matches Ok((_, r)) ==> r.kind.is_solved(),
    decreases fuel,
{
    if let Some((refs, ft)) = first_func(defs, 0, module, func) {
        if fuel > 0 {
            lemma_type_solved(defs, refs, ft, (fuel - 1) as nat);
        }
    }
}

/// A member found inside data has a resolved type.
proof fn lemma_member_solved(defs: Seq<DefineV>, data: NameV, member: Seq<char>, fuel: nat)
    ensures
        member_in_data(defs, data, member, fuel) matches Ok((_, r)) ==> r.kind.is_solved(),
    decreases member.len(),
{
    if let Some((refs, mt)) = first_member(defs, 0, data.full(), head_of(member)) {
        lemma_type_solved(defs, refs, mt, fuel);
        if let Ok((_, ty)) = resolve_type(defs, refs, mt, fuel) {
            if let Some(dr) = ty.refs {
                if let Some(tl) = tails_of(member) {
                    lemma_tails_shorter(member);
                    lemma_member_solved(defs, dr, tl, fuel);
                }
            }
        }
    }
}

/// A name that resolves without error has a resolved type.
proof fn lemma_name_solved(defs: Seq<DefineV>, name: NameV, fuel: nat)
    ensures
        resolve_name(defs, name, fuel) matches Ok((_, r)) ==> r.kind.is_solved(),
{
    if fuel > 0 {
        if let Ok(found) = find(defs, name, head_of(name.name)) {
            if let DefineKindV::Variable(t) = found.kind {
                lemma_type_solved(defs, name, t, (fuel - 1) as nat);
                if let Ok((_, ty)) = resolve_type(defs, name, t, (fuel - 1) as nat) {
                    if let (Some(tl), Some(dr)) = (tails_of(name.name), ty.refs) {
                        lemma_member_solved(defs, dr, tl, (fuel - 1) as nat);
                    }
                }
            }
        }
    }
}

/// Resolving a list of names gives resolved types.
proof fn lemma_names_solved(defs: Seq<DefineV>, s: Seq<NT>)
    ensures
        map_all(s, name_res(defs)) matches Ok(r) ==> nts_solved(r),
{
    let p = |x: NT| x.1.kind.is_solved();
    assert forall|x: NT| #[trigger] name_res(defs)(x) matches Ok(y) ==> p(y) by {
        lemma_name_solved(defs, x.0, depth());
    }
    lemma_map_all_keeps(s, name_res(defs), p);
}

/// A spawn is checked into one whose types are resolved.
proof fn lemma_spawn_solved(defs: Seq<DefineV>, sp: SpawnV)
    ensures
        check_spawn(defs, sp) matches Ok(r) ==> {
            &&& r.result.1.kind.is_solved()
            &&& forall|j: int| 0 <= j < r.details.len() ==> detail_solved(#[trigger] r.details[j])
        },
{
    reveal(check_spawn);
    lemma_name_solved(defs, sp.result.0, depth());
    let p = |d: DetailV| detail_solved(d);
    assert forall|d: DetailV| #[trigger] child_chk(defs)(d) matches Ok(y) ==> p(y) by {
        reveal(check_child);
        match d {
            DetailV::Use(n, _) => lemma_name_solved(defs, n, depth()),
            DetailV::Return(n, _) => lemma_name_solved(defs, n, depth()),
            DetailV::LetTo { name, func, args } => {
                lemma_names_solved(defs, args);
                lemma_type_solved(defs, name, func.1, depth());
            },
        }
    }
    lemma_map_all_keeps(sp.details, child_chk(defs), p);
}

/// A function is checked into one whose types are resolved.
proof fn lemma_function_solved(defs: Seq<DefineV>, f: FuncV)
    ensures
        check_function(defs, f) matches Ok(r) ==> func_solved(r),
{
    reveal(check_function);
    if let Some(ret) = f.returns {
        lemma_name_solved(defs, ret.0, depth());
    }
    let pt = |x: NT| x.1.kind.is_solved();
    assert forall|x: NT| #[trigger] type_res(defs)(x) matches Ok(y) ==> pt(y) by {
        lemma_type_solved(defs, x.0, x.1, depth());
    }
    lemma_map_all_keeps(f.args, type_res(defs), pt);
    let ps = |r: SpawnV| {
        &&& r.result.1.kind.is_solved()
        &&& forall|j: int| 0 <= j < r.details.len() ==> detail_solved(#[trigger] r.details[j])
    };
    assert forall|x: SpawnV| #[trigger] spawn_chk(defs)(x) matches Ok(y) ==> ps(y) by {
        lemma_spawn_solved(defs, x);
    }
    lemma_map_all_keeps(f.spawns, spawn_chk(defs), ps);
}

/// Checking leaves no type unresolved: every type in a system that the
/// compiler checked is `i32` or a data type.
pub proof fn lemma_checked_solved(s: SystemV)
    ensures
        checked(s) matches Ok(r) ==> system_solved(r),
{
    let defs = system_defines(s);
    let pu = |u: UnitV| unit_solved(u);
    assert forall|u: UnitV| #[trigger] unit_chk(defs)(u) matches Ok(y) ==> pu(y) by {
        reveal(check_unit);
        let pd = |d: DataV| nts_solved(d.members);
        assert forall|d: DataV| #[trigger] data_chk(defs)(d) matches Ok(y) ==> pd(y) by {
            let pm = |x: NT| x.1.kind.is_solved();
            assert forall|x: NT| #[trigger] member_res(defs)(x) matches Ok(y) ==> pm(y) by {
                lemma_type_solved(defs, x.0, x.1, depth());
            }
            lemma_map_all_keeps(d.members, member_res(defs), pm);
        }
        lemma_map_all_keeps(u.data, data_chk(defs), pd);
        let pf = |f: FuncV| func_solved(f);
        let pmod = |m: ModV| forall|j: int| 0 <= j < m.functions.len() ==> func_solved(
            #[trigger] m.functions[j],
        );
        assert forall|m: ModV| #[trigger] module_chk(defs)(m) matches Ok(y) ==> pmod(y) by {
            assert forall|f: FuncV| #[trigger] function_chk(defs)(f) matches Ok(g) ==> pf(g) by {
                lemma_function_solved(defs, f);
            }
            lemma_map_all_keeps(m.functions, function_chk(defs), pf);
        }
        lemma_map_all_keeps(u.modules, module_chk(defs), pmod);
    }
    lemma_map_all_keeps(s.units, unit_chk(defs), pu);
}

/* ----- definitions ----- */

/// What a definition defines.
enum DefineKind {
    Data,
    DataMember(Type),
    Module,
    Function(Type),
    Argument(Type),
    Variable(Type),
}

impl View for DefineKind {
    type V = DefineKindV;

    closed spec fn view(&self) -> DefineKindV {
        match self {
            DefineKind::Data => DefineKindV::Data,
            DefineKind::DataMember(t) => DefineKindV::DataMember(t@),
            DefineKind::Module => DefineKindV::Module,
            DefineKind::Function(t) => DefineKindV::Function(t@),
            DefineKind::Argument(t) => DefineKindV::Argument(t@),
            DefineKind::Variable(t) => DefineKindV::Variable(t@),
        }
    }
}

impl DefineKind {
    fn copy(&self) -> (r: DefineKind)
        ensures
            r@ == self@,
    {
        match self {
            DefineKind::Data => DefineKind::Data,
            DefineKind::DataMember(t) => DefineKind::DataMember(t.clone()),
            DefineKind::Module => DefineKind::Module,
            DefineKind::Function(t) => DefineKind::Function(t.clone()),
            DefineKind::Argument(t) => DefineKind::Argument(t.clone()),
            DefineKind::Variable(t) => DefineKind::Variable(t.clone()),
        }
    }
}

/// A definition: what it defines and its name.
struct Define {
    kind: DefineKind,
    refs: Name,
}

impl View for Define {
    type V = DefineV;

    closed spec fn view(&self) -> DefineV {
        DefineV { kind: self.kind@, refs: self.refs@ }
    }
}

impl Define {
    fn new(kind: DefineKind, refs: Name) -> (r: Define)
        ensures
            r@ == (DefineV { kind: kind@, refs: refs@ }),
    {
        Define { kind, refs }
    }
}

/// The definitions of a system, in the order they are listed.
struct DefinesManager {
    defines: Vec<Define>,
}

impl View for DefinesManager {
    type V = Seq<DefineV>;

    closed spec fn view(&self) -> Seq<DefineV> {
        views_of(self.defines@)
    }
}

/// Adds the definitions of `x` to `out`, given those of each item of `xs`.
proof fn lemma_list_step<A>(xs: Seq<A>, f: spec_fn(A) -> Seq<DefineV>, i: int, base: Seq<DefineV>, before: Seq<DefineV>, after: Seq<DefineV>)
    requires
        0 <= i < xs.len(),
        before == base + concat_map(xs.take(i), f),
        after == before + f(xs[i]),
    ensures
        after == base + concat_map(xs.take(i + 1), f),
{
    lemma_take_next(xs, i);
    assert(after =~= base + concat_map(xs.take(i + 1), f));
}

proof fn lemma_list_start<A>(xs: Seq<A>, f: spec_fn(A) -> Seq<DefineV>, base: Seq<DefineV>)
    ensures
        base == base + concat_map(xs.take(0), f),
{
    assert(xs.take(0) =~= Seq::<A>::empty());
    assert(base + concat_map(xs.take(0), f) =~= base);
}

fn push_define(out: &mut Vec<Define>, d: Define)
    ensures
        views_of(final(out)@) == views_of(old(out)@).push(d@),
{
    let ghost dv = d@;
    out.push(d);
    assert(views_of(out@) =~= views_of(old(out)@).push(dv));
}

impl DefinesManager {
    fn new(system: &unchecked::SysDCSystem) -> (r: DefinesManager)
        ensures
            r@ == system_defines(system@),
    {
        let mut defines: Vec<Define> = Vec::new();
        let ghost xs = views_of(system.units@);
        proof {
            assert(views_of(defines@) =~= Seq::<DefineV>::empty());
            lemma_list_start(xs, unit_defs(), Seq::empty());
        }
        let mut i: usize = 0;
        while i < system.units.len()
            invariant
                i <= xs.len(),
                xs == views_of(system.units@),
                views_of(defines@) == Seq::<DefineV>::empty() + concat_map(xs.take(i as int), unit_defs()),
            decreases system.units.len() - i,
        {
            let ghost before = views_of(defines@);
            listup_defines_unit(&mut defines, &system.units[i]);
            proof {
                assert(xs[i as int] == system.units@[i as int]@);
                lemma_list_step(xs, unit_defs(), i as int, Seq::empty(), before, views_of(defines@));
            }
            i = i + 1;
        }
        proof {
            lemma_take_all(xs);
            assert(Seq::<DefineV>::empty() + system_defines(system@) =~= system_defines(system@));
        }
        DefinesManager { defines }
    }
}

fn listup_defines_unit(out: &mut Vec<Define>, unit: &unchecked::SysDCUnit)
    ensures
        views_of(final(out)@) == views_of(old(out)@) + unit_defs()(unit@),
{
    let ghost base = views_of(out@);
    let ghost ds = views_of(unit.data@);
    proof {
        lemma_list_start(ds, data_defs(), base);
    }
    let mut i: usize = 0;
    while i < unit.data.len()
        invariant
            i <= ds.len(),
            ds == views_of(unit.data@),
            views_of(out@) == base + concat_map(ds.take(i as int), data_defs()),
        decreases unit.data.len() - i,
    {
        let ghost before = views_of(out@);
        let data = &unit.data[i];
        push_define(out, Define::new(DefineKind::Data, data.name.clone()));
        let ghost mid = views_of(out@);
        let ghost ms = views_of(data.members@);
        proof {
            lemma_list_start(ms, crate::lang::check::define::member_defs(), mid);
        }
        let mut j: usize = 0;
        while j < data.members.len()
            invariant
                j <= ms.len(),
                ms == views_of(data.members@),
                views_of(out@) == mid + concat_map(ms.take(j as int), crate::lang::check::define::member_defs()),
            decreases data.members.len() - j,
        {
            let ghost b2 = views_of(out@);
            let (name, types) = &data.members[j];
            push_define(out, Define::new(DefineKind::DataMember(types.clone()), name.clone()));
            proof {
                assert(ms[j as int] == data.members@[j as int]@);
                assert(views_of(out@) =~= b2 + crate::lang::check::define::member_defs()(ms[j as int]));
                lemma_list_step(ms, crate::lang::check::define::member_defs(), j as int, mid, b2, views_of(out@));
            }
            j = j + 1;
        }
        proof {
            lemma_take_all(ms);
            assert(ds[i as int] == data@);
            assert(views_of(out@) =~= before + data_defs()(ds[i as int]));
            lemma_list_step(ds, data_defs(), i as int, base, before, views_of(out@));
        }
        i = i + 1;
    }
    proof {
        lemma_take_all(ds);
    }
    let ghost b1 = views_of(out@);
    let ghost ms = views_of(unit.modules@);
    proof {
        lemma_list_start(ms, module_defs(), b1);
    }
    let mut k: usize = 0;
    while k < unit.modules.len()
        invariant
            k <= ms.len(),
            ms == views_of(unit.modules@),
            views_of(out@) == b1 + concat_map(ms.take(k as int), module_defs()),
        decreases unit.modules.len() - k,
    {
        let ghost before = views_of(out@);
        listup_defines_module(out, &unit.modules[k]);
        proof {
            assert(ms[k as int] == unit.modules@[k as int]@);
            lemma_list_step(ms, module_defs(), k as int, b1, before, views_of(out@));
        }
        k = k + 1;
    }
    proof {
        lemma_take_all(ms);
        assert(views_of(out@) =~= base + unit_defs()(unit@));
    }
}

fn listup_defines_module(out: &mut Vec<Define>, module: &unchecked::SysDCModule)
    ensures
        views_of(final(out)@) == views_of(old(out)@) + module_defs()(module@),
{
    let ghost base = views_of(out@);
    push_define(out, Define::new(DefineKind::Module, module.name.clone()));
    let ghost b1 = views_of(out@);
    let ghost xs = views_of(module.functions@);
    proof {
        lemma_list_start(xs, function_defs(), b1);
    }
    let mut i: usize = 0;
    while i < module.functions.len()
        invariant
            i <= xs.len(),
            xs == views_of(module.functions@),
            views_of(out@) == b1 + concat_map(xs.take(i as int), function_defs()),
        decreases module.functions.len() - i,
    {
        let ghost before = views_of(out@);
        listup_defines_function(out, &module.functions[i]);
        proof {
            assert(xs[i as int] == module.functions@[i as int]@);
            lemma_list_step(xs, function_defs(), i as int, b1, before, views_of(out@));
        }
        i = i + 1;
    }
    proof {
        lemma_take_all(xs);
        assert(views_of(out@) =~= base + module_defs()(module@));
    }
}

fn listup_defines_function(out: &mut Vec<Define>, func: &unchecked::SysDCFunction)
    ensures
        views_of(final(out)@) == views_of(old(out)@) + function_defs()(func@),
{
    let ghost base = views_of(out@);
    let ret_type = match &func.returns {
        Some((_, t)) => t.clone(),
        None => Type::new_unsovled_nohint(),
    };
    push_define(out, Define::new(DefineKind::Function(ret_type), func.name.clone()));
    let ghost b1 = views_of(out@);
    let ghost xs = views_of(func.args@);
    proof {
        lemma_list_start(xs, arg_defs(), b1);
    }
    let mut i: usize = 0;
    while i < func.args.len()
        invariant
            i <= xs.len(),
            xs == views_of(func.args@),
            views_of(out@) == b1 + concat_map(xs.take(i as int), arg_defs()),
        decreases func.args.len() - i,
    {
        let ghost before = views_of(out@);
        let (name, types) = &func.args[i];
        push_define(out, Define::new(DefineKind::Variable(types.clone()), name.clone()));
        push_define(out, Define::new(DefineKind::Argument(types.clone()), name.clone()));
        proof {
            assert(xs[i as int] == func.args@[i as int]@);
            assert(views_of(out@) =~= before + arg_defs()(xs[i as int]));
            lemma_list_step(xs, arg_defs(), i as int, b1, before, views_of(out@));
        }
        i = i + 1;
    }
    proof {
        lemma_take_all(xs);
    }
    let ghost b2 = views_of(out@);
    let ghost ys = views_of(func.spawns@);
    proof {
        lemma_list_start(ys, spawn_defs(), b2);
    }
    let mut j: usize = 0;
    while j < func.spawns.len()
        invariant
            j <= ys.len(),
            ys == views_of(func.spawns@),
            views_of(out@) == b2 + concat_map(ys.take(j as int), spawn_defs()),
        decreases func.spawns.len() - j,
    {
        let ghost before = views_of(out@);
        let spawn = &func.spawns[j];
        push_define(out, Define::new(DefineKind::Variable(spawn.result.1.clone()), spawn.result.0.clone()));
        let ghost mid = views_of(out@);
        let ghost zs = views_of(spawn.details@);
        proof {
            lemma_list_start(zs, detail_defs(), mid);
        }
        let mut k: usize = 0;
        while k < spawn.details.len()
            invariant
                k <= zs.len(),
                zs == views_of(spawn.details@),
                views_of(out@) == mid + concat_map(zs.take(k as int), detail_defs()),
            decreases spawn.details.len() - k,
        {
            let ghost b3 = views_of(out@);
            match &spawn.details[k] {
                unchecked::SysDCSpawnChild::LetTo { name, func: (_, ftype), .. } => {
                    push_define(out, Define::new(DefineKind::Variable(ftype.clone()), name.clone()));
                },
                _ => {},
            }
            proof {
                assert(zs[k as int] == spawn.details@[k as int]@);
                assert(views_of(out@) =~= b3 + detail_defs()(zs[k as int]));
                lemma_list_step(zs, detail_defs(), k as int, mid, b3, views_of(out@));
            }
            k = k + 1;
        }
        proof {
            lemma_take_all(zs);
            assert(ys[j as int] == spawn@);
            assert(views_of(out@) =~= before + spawn_defs()(ys[j as int]));
            lemma_list_step(ys, spawn_defs(), j as int, b2, before, views_of(out@));
        }
        j = j + 1;
    }
    proof {
        lemma_take_all(ys);
        assert(views_of(out@) =~= base + function_defs()(func@));
    }
}

/// The model of a resolution's outcome.
pub open spec fn rnt(r: CResult<(Name, Type)>) -> Result<NT, CErrV> {
    match r {
        Ok(x) => Ok(x@),
        Err(e) => Err(e@),
    }
}

impl DefinesManager {
    fn find(&self, at: &Name, name: &String) -> (r: CResult<Define>)
        ensures
            (match r {
                Ok(d) => Ok(d@),
                Err(e) => Err(e@),
            }) == find(self@, at@, name@),
    {
        let mut ns = at.clone();
        loop
            invariant
                find_up(self@, ns@, name@, false) == find_up(self@, at@, name@, false),
            decreases ns@.full().len(),
        {
            if ns.name.as_str().is_empty() {
                return CompileError::new(CompileErrorKind::NotFound(name.clone()));
            }
            let mut i: usize = 0;
            while i < self.defines.len()
                invariant
                    i <= self@.len(),
                    self@.len() == self.defines@.len(),
                    ns@.name.len() > 0,
                    find_up(self@, ns@, name@, false) == find_up(self@, at@, name@, false),
                    crate::lang::check::define::first_in(self@, 0, ns@.namespace, name@, false)
                        == crate::lang::check::define::first_in(self@, i as int, ns@.namespace, name@, false),
                decreases self.defines.len() - i,
            {
                let d = &self.defines[i];
                assert(self@[i as int] == d@);
                if d.refs.namespace == ns.namespace && d.refs.name == *name {
                    return Ok(Define::new(d.kind.copy(), d.refs.clone()));
                }
                i = i + 1;
            }
            proof {
                lemma_par_shorter(ns@);
            }
            ns = ns.parent(false);
        }
    }

    /// The resolved types of the arguments of the function `func_name`.
    fn get_args_type(&self, func_name: &Name) -> (r: CResult<Vec<Type>>)
        ensures
            (match r {
                Ok(v) => Ok(views_of(v@)),
                Err(e) => Err(e@),
            }) == args_from(self@, 0, func_name@.full(), depth()),
    {
        let full = func_name.get_global_name();
        let mut args: Vec<Type> = Vec::new();
        let mut i: usize = 0;
        assert(views_of(args@) =~= Seq::<TypeV>::empty());
        while i < self.defines.len()
            invariant
                i <= self@.len(),
                self@.len() == self.defines@.len(),
                full@ == func_name@.full(),
                args_from(self@, 0, full@, depth()) == (match args_from(self@, i as int, full@, depth()) {
                    Err(e) => Err(e),
                    Ok(rest) => Ok(views_of(args@) + rest),
                }),
            decreases self.defines.len() - i,
        {
            let d = &self.defines[i];
            assert(self@[i as int] == d@);
            if let DefineKind::Argument(types) = &d.kind {
                if d.refs.namespace == full {
                    let (_, ty) = self.resolve_type_within(d.refs.clone(), types.clone(), RESOLVE_DEPTH)?;
                    let ghost before = views_of(args@);
                    let ghost tv = ty@;
                    args.push(ty);
                    assert(views_of(args@) =~= before.push(tv));
                    assert(forall|rest: Seq<TypeV>| #[trigger] (before + (seq![tv] + rest)) =~= views_of(args@) + rest);
                }
            }
            i = i + 1;
        }
        assert(views_of(args@) + Seq::<TypeV>::empty() =~= views_of(args@));
        Ok(args)
    }

    fn first_func(&self, module: &Name, func: &String) -> (r: Option<(Name, Type)>)
        ensures
            (match r {
                Some(x) => Some(x@),
                None => None,
            }) == first_func(self@, 0, module@, func@),
    {
        let mut i: usize = 0;
        while i < self.defines.len()
            invariant
                i <= self@.len(),
                self@.len() == self.defines@.len(),
                first_func(self@, 0, module@, func@) == first_func(self@, i as int, module@, func@),
            decreases self.defines.len() - i,
        {
            let d = &self.defines[i];
            assert(self@[i as int] == d@);
            if let DefineKind::Function(types) = &d.kind {
                if module.same(&d.refs.parent(true)) && *func == d.refs.name {
                    return Some((d.refs.clone(), types.clone()));
                }
            }
            i = i + 1;
        }
        None
    }

    fn first_member(&self, data: &String, member: &String) -> (r: Option<(Name, Type)>)
        ensures
            (match r {
                Some(x) => Some(x@),
                None => None,
            }) == first_member(self@, 0, data@, member@),
    {
        let mut i: usize = 0;
        while i < self.defines.len()
            invariant
                i <= self@.len(),
                self@.len() == self.defines@.len(),
                first_member(self@, 0, data@, member@) == first_member(self@, i as int, data@, member@),
            decreases self.defines.len() - i,
        {
            let d = &self.defines[i];
            assert(self@[i as int] == d@);
            if let DefineKind::DataMember(types) = &d.kind {
                if d.refs.namespace == *data && d.refs.name == *member {
                    return Some((d.refs.clone(), types.clone()));
                }
            }
            i = i + 1;
        }
        None
    }

    /// The type `types`, named where `name` stands, resolved.
    fn resolve_from_type(&self, named: (Name, Type)) -> (r: CResult<(Name, Type)>)
        ensures
            rnt(r) == resolve_type(self@, named.0@, named.1@, depth()),
    {
        let (name, types) = named;
        self.resolve_type_within(name, types, RESOLVE_DEPTH)
    }

    /// The variable that `name` denotes where it stands, with its type.
    fn resolve_from_name(&self, name: Name) -> (r: CResult<(Name, Type)>)
        ensures
            rnt(r) == resolve_name(self@, name@, depth()),
    {
        self.resolve_name_within(name, RESOLVE_DEPTH)
    }

    fn resolve_type_within(&self, name: Name, types: Type, fuel: u64) -> (r: CResult<(Name, Type)>)
        ensures
            rnt(r) == resolve_type(self@, name@, types@, fuel as nat),
        decreases fuel, 1nat,
    {
        match &types.kind {
            TypeKind::Int32 | TypeKind::Data => Ok((name, types)),
            TypeKind::Unsolved(hint) => {
                if fuel == 0 {
                    return CompileError::new(CompileErrorKind::ResolutionTooDeep);
                }
                let (head, tails) = split_name(hint);
                let found = self.find(&name, &head)?;
                match found.kind {
                    DefineKind::Data => match tails {
                        Some(_) => CompileError::new(CompileErrorKind::IllegalAccess),
                        None => Ok((name, Type::new(TypeKind::Data, Some(found.refs)))),
                    },
                    DefineKind::Module => match tails {
                        Some(tl) => self.get_func_in_module(&found.refs, &tl, fuel - 1),
                        None => CompileError::new(CompileErrorKind::MissingFunctionName),
                    },
                    DefineKind::Function(_) => {
                        let module = name.parent(true).parent(true);
                        self.get_func_in_module(&module, hint, fuel - 1)
                    },
                    _ => CompileError::new(CompileErrorKind::TypeUnmatch1(types.clone())),
                }
            },
            TypeKind::UnsolvedNoHint => CompileError::new(CompileErrorKind::TypeUnmatch1(types.clone())),
        }
    }

    fn get_func_in_module(&self, module: &Name, func: &String, fuel: u64) -> (r: CResult<(Name, Type)>)
        ensures
            rnt(r) == func_in_module(self@, module@, func@, fuel as nat),
        decreases fuel, 0nat,
    {
        match self.first_func(module, func) {
            None => CompileError::new(CompileErrorKind::FuncNotDefinedInModule(func.clone(), module.name.clone())),
            Some((refs, types)) => {
                if fuel == 0 {
                    return CompileError::new(CompileErrorKind::ResolutionTooDeep);
                }
                let (_, ty) = self.resolve_type_within(refs.clone(), types, fuel - 1)?;
                Ok((refs, ty))
            },
        }
    }

    fn get_member_in_data(&self, data: &Name, member: &String, fuel: u64) -> (r: CResult<(Name, Type)>)
        ensures
            rnt(r) == member_in_data(self@, data@, member@, fuel as nat),
        decreases member@.len(),
    {
        let (head, tails) = split_name(member);
        match self.first_member(&data.get_global_name(), &head) {
            None => CompileError::new(CompileErrorKind::MemberNotDefinedInData(member.clone(), data.name.clone())),
            Some((refs, types)) => {
                let (_, ty) = self.resolve_type_within(refs.clone(), types, fuel)?;
                match &ty.kind {
                    TypeKind::Int32 => match tails {
                        Some(_) => CompileError::new(CompileErrorKind::IllegalAccess),
                        None => Ok((refs, ty)),
                    },
                    TypeKind::Data => match &ty.refs {
                        None => CompileError::new(CompileErrorKind::TypeUnmatch1(ty.clone())),
                        Some(dr) => match tails {
                            Some(tl) => {
                                proof {
                                    lemma_tails_shorter(member@);
                                }
                                self.get_member_in_data(dr, &tl, fuel)
                            },
                            None => Ok((dr.clone(), ty.clone())),
                        },
                    },
                    _ => CompileError::new(CompileErrorKind::TypeUnmatch1(ty.clone())),
                }
            },
        }
    }

    fn resolve_name_within(&self, name: Name, fuel: u64) -> (r: CResult<(Name, Type)>)
        ensures
            rnt(r) == resolve_name(self@, name@, fuel as nat),
        decreases fuel, 2nat,
    {
        if fuel == 0 {
            return CompileError::new(CompileErrorKind::ResolutionTooDeep);
        }
        let (head, tails) = split_name(&name.name);
        let found = self.find(&name, &head)?;
        match found.kind {
            DefineKind::Variable(types) => {
                let (_, ty) = self.resolve_type_within(name.clone(), types, fuel - 1)?;
                if let TypeKind::Data = ty.kind {
                    match tails {
                        Some(tl) => match &ty.refs {
                            None => CompileError::new(CompileErrorKind::TypeUnmatch1(ty.clone())),
                            Some(dr) => self.get_member_in_data(dr, &tl, fuel - 1),
                        },
                        None => Ok((found.refs, ty)),
                    }
                } else {
                    Ok((name, ty))
                }
            },
            _ => CompileError::new(CompileErrorKind::NotDefined(name.name)),
        }
    }
}

/// The model of a check's outcome.
pub open spec fn rchk(r: CResult<()>) -> Result<(), CErrV> {
    match r {
        Ok(()) => Ok(()),
        Err(e) => Err(e@),
    }
}

/// Compares the arguments with the types asked for them, pair by pair.
fn check_pairs(req: &Vec<Type>, args: &Vec<(Name, Type)>) -> (r: CResult<()>)
    ensures
        rchk(r) == first_mismatch(views_of(req@), views_of(args@), 0),
{
    let ghost reqv = views_of(req@);
    let ghost actv = views_of(args@);
    let mut i: usize = 0;
    while i < args.len() && i < req.len()
        invariant
            i <= args@.len(),
            reqv == views_of(req@),
            actv == views_of(args@),
            first_mismatch(reqv, actv, 0) == first_mismatch(reqv, actv, i as int),
        decreases args.len() - i,
    {
        assert(actv[i as int] == args@[i as int]@);
        assert(reqv[i as int] == req@[i as int]@);
        if !args[i].1.same(&req[i]) {
            return CompileError::new(CompileErrorKind::TypeUnmatch2(req[i].clone(), args[i].1.clone()));
        }
        i = i + 1;
    }
    Ok(())
}

/// Compares the type of every `return` line with `req`.
fn check_returns(req: &Type, details: &Vec<SysDCSpawnChild>) -> (r: CResult<()>)
    ensures
        rchk(r) == first_bad_return(req@, views_of(details@), 0),
{
    let ghost dv = views_of(details@);
    let mut i: usize = 0;
    while i < details.len()
        invariant
            i <= details@.len(),
            dv == views_of(details@),
            first_bad_return(req@, dv, 0) == first_bad_return(req@, dv, i as int),
        decreases details.len() - i,
    {
        assert(dv[i as int] == details@[i as int]@);
        if let SysDCSpawnChild::Return(_, act_ret_type) = &details[i] {
            if !req.same(act_ret_type) {
                return CompileError::new(CompileErrorKind::TypeUnmatch2(req.clone(), act_ret_type.clone()));
            }
        }
        i = i + 1;
    }
    Ok(())
}

/// Checks a parsed system.
pub struct Checker {
    def_manager: DefinesManager,
}

impl Checker {
    pub closed spec fn defs(&self) -> Seq<DefineV> {
        self.def_manager@
    }

    /// Checks a parsed system and gives it with every type resolved.
    pub fn check(system: unchecked::SysDCSystem) -> (r: CResult<SysDCSystem>)
        ensures
            rv(r) == checked(system@),
    {
        let checker = Checker { def_manager: DefinesManager::new(&system) };
        let ghost f = unit_chk(checker.defs());
        let ghost xs = views_of(system.units@);
        let mut units: Vec<SysDCUnit> = Vec::new();
        proof {
            lemma_map_start(xs, f);
            assert(views_of(units@) =~= Seq::<UnitV>::empty());
        }
        let mut i: usize = 0;
        while i < system.units.len()
            invariant
                i <= xs.len(),
                xs == views_of(system.units@),
                f == unit_chk(checker.defs()),
                checker.defs() == system_defines(system@),
                map_all(xs.take(i as int), f) == Ok::<Seq<UnitV>, CErrV>(views_of(units@)),
            decreases system.units.len() - i,
        {
            let r = checker.check_unit(&system.units[i]);
            proof {
                assert(xs[i as int] == system.units@[i as int]@);
                lemma_map_step(xs, f, i as int, views_of(units@));
            }
            match r {
                Err(e) => {
                    return Err(e);
                },
                Ok(u) => {
                    let ghost before = views_of(units@);
                    let ghost uv = u@;
                    units.push(u);
                    assert(views_of(units@) =~= before.push(uv));
                },
            }
            i = i + 1;
        }
        proof {
            lemma_take_all(xs);
        }
        Ok(SysDCSystem { units })
    }

    fn check_unit(&self, unit: &unchecked::SysDCUnit) -> (r: CResult<SysDCUnit>)
        ensures
            rv(r) == check_unit(self.defs(), unit@),
    {
        proof {
            reveal(check_unit);
        }
        let ghost f = data_chk(self.defs());
        let ghost s = views_of(unit.data@);
        let mut data: Vec<SysDCData> = Vec::new();
        proof {
            lemma_map_start(s, f);
            assert(views_of(data@) =~= Seq::<DataV>::empty());
        }
        let mut i: usize = 0;
        while i < unit.data.len()
            invariant
                i <= s.len(),
                s == views_of(unit.data@),
                f == data_chk(self.defs()),
                map_all(s.take(i as int), f) == Ok::<Seq<DataV>, CErrV>(views_of(data@)),
            decreases unit.data.len() - i,
        {
            let r = self.check_data(&unit.data[i]);
            proof {
                reveal(check_unit);
                assert(s[i as int] == unit.data@[i as int]@);
                lemma_map_step(s, f, i as int, views_of(data@));
            }
            match r {
                Err(e) => {
                    return Err(e);
                },
                Ok(x) => {
                    let ghost before = views_of(data@);
                    let ghost xv = x@;
                    data.push(x);
                    assert(views_of(data@) =~= before.push(xv));
                },
            }
            i = i + 1;
        }
        proof {
            lemma_take_all(s);
        }
        let ghost g = module_chk(self.defs());
        let ghost t = views_of(unit.modules@);
        let mut modules: Vec<SysDCModule> = Vec::new();
        proof {
            lemma_map_start(t, g);
            assert(views_of(modules@) =~= Seq::<ModV>::empty());
        }
        let mut j: usize = 0;
        while j < unit.modules.len()
            invariant
                j <= t.len(),
                t == views_of(unit.modules@),
                g == module_chk(self.defs()),
                map_all(s, f) == Ok::<Seq<DataV>, CErrV>(views_of(data@)),
                s == views_of(unit.data@),
                f == data_chk(self.defs()),
                map_all(t.take(j as int), g) == Ok::<Seq<ModV>, CErrV>(views_of(modules@)),
            decreases unit.modules.len() - j,
        {
            let r = self.check_module(&unit.modules[j]);
            proof {
                reveal(check_unit);
                assert(t[j as int] == unit.modules@[j as int]@);
                lemma_map_step(t, g, j as int, views_of(modules@));
            }
            match r {
                Err(e) => {
                    return Err(e);
                },
                Ok(x) => {
                    let ghost before = views_of(modules@);
                    let ghost xv = x@;
                    modules.push(x);
                    assert(views_of(modules@) =~= before.push(xv));
                },
            }
            j = j + 1;
        }
        proof {
            lemma_take_all(t);
        }
        Ok(SysDCUnit { name: unit.name.clone(), data, modules })
    }

    fn check_data(&self, data: &unchecked::SysDCData) -> (r: CResult<SysDCData>)
        ensures
            rv(r) == data_chk(self.defs())(data@),
    {
        let ghost f = member_res(self.defs());
        let ghost s = views_of(data.members@);
        let mut out: Vec<(Name, Type)> = Vec::new();
        proof {
            lemma_map_start(s, f);
            assert(views_of(out@) =~= Seq::<NT>::empty());
        }
        let mut i: usize = 0;
        while i < data.members.len()
            invariant
                i <= s.len(),
                s == views_of(data.members@),
                f == member_res(self.defs()),
                map_all(s.take(i as int), f) == Ok::<Seq<NT>, CErrV>(views_of(out@)),
            decreases data.members.len() - i,
        {
            let (name, types) = &data.members[i];
            let r = match types.kind {
                TypeKind::Int32 => Ok((name.clone(), types.clone())),
                _ => self.def_manager.resolve_from_type((name.clone(), types.clone())),
            };
            proof {
                assert(s[i as int] == data.members@[i as int]@);
                lemma_map_step(s, f, i as int, views_of(out@));
            }
            match r {
                Err(e) => {
                    return Err(e);
                },
                Ok(x) => {
                    let ghost before = views_of(out@);
                    let ghost xv = x@;
                    out.push(x);
                    assert(views_of(out@) =~= before.push(xv));
                },
            }
            i = i + 1;
        }
        proof {
            lemma_take_all(s);
        }
        Ok(SysDCData { name: data.name.clone(), members: out })
    }

    fn check_module(&self, module: &unchecked::SysDCModule) -> (r: CResult<SysDCModule>)
        ensures
            rv(r) == module_chk(self.defs())(module@),
    {
        let ghost f = function_chk(self.defs());
        let ghost s = views_of(module.functions@);
        let mut functions: Vec<SysDCFunction> = Vec::new();
        proof {
            lemma_map_start(s, f);
            assert(views_of(functions@) =~= Seq::<FuncV>::empty());
        }
        let mut i: usize = 0;
        while i < module.functions.len()
            invariant
                i <= s.len(),
                s == views_of(module.functions@),
                f == function_chk(self.defs()),
                map_all(s.take(i as int), f) == Ok::<Seq<FuncV>, CErrV>(views_of(functions@)),
            decreases module.functions.len() - i,
        {
            let r = self.check_function(&module.functions[i]);
            proof {
                assert(s[i as int] == module.functions@[i as int]@);
                lemma_map_step(s, f, i as int, views_of(functions@));
            }
            match r {
                Err(e) => {
                    return Err(e);
                },
                Ok(x) => {
                    let ghost before = views_of(functions@);
                    let ghost xv = x@;
                    functions.push(x);
                    assert(views_of(functions@) =~= before.push(xv));
                },
            }
            i = i + 1;
        }
        proof {
            lemma_take_all(s);
        }
        Ok(SysDCModule { name: module.name.clone(), functions })
    }

    fn resolve_types(&self, xs: &Vec<(Name, Type)>) -> (r: CResult<Vec<(Name, Type)>>)
        ensures
            rvs(r) == map_all(views_of(xs@), type_res(self.defs())),
    {
        let ghost f = type_res(self.defs());
        let ghost s = views_of(xs@);
        let mut out: Vec<(Name, Type)> = Vec::new();
        proof {
            lemma_map_start(s, f);
            assert(views_of(out@) =~= Seq::<NT>::empty());
        }
        let mut i: usize = 0;
        while i < xs.len()
            invariant
                i <= s.len(),
                s == views_of(xs@),
                f == type_res(self.defs()),
                map_all(s.take(i as int), f) == Ok::<Seq<NT>, CErrV>(views_of(out@)),
            decreases xs.len() - i,
        {
            let (name, types) = &xs[i];
            let r = self.def_manager.resolve_from_type((name.clone(), types.clone()));
            proof {
                assert(s[i as int] == xs@[i as int]@);
                lemma_map_step(s, f, i as int, views_of(out@));
            }
            match r {
                Err(e) => {
                    return Err(e);
                },
                Ok(x) => {
                    let ghost before = views_of(out@);
                    let ghost xv = x@;
                    out.push(x);
                    assert(views_of(out@) =~= before.push(xv));
                },
            }
            i = i + 1;
        }
        proof {
            lemma_take_all(s);
        }
        Ok(out)
    }

    fn resolve_names(&self, xs: &Vec<(Name, Type)>) -> (r: CResult<Vec<(Name, Type)>>)
        ensures
            rvs(r) == map_all(views_of(xs@), name_res(self.defs())),
    {
        let ghost f = name_res(self.defs());
        let ghost s = views_of(xs@);
        let mut out: Vec<(Name, Type)> = Vec::new();
        proof {
            lemma_map_start(s, f);
            assert(views_of(out@) =~= Seq::<NT>::empty());
        }
        let mut i: usize = 0;
        while i < xs.len()
            invariant
                i <= s.len(),
                s == views_of(xs@),
                f == name_res(self.defs()),
                map_all(s.take(i as int), f) == Ok::<Seq<NT>, CErrV>(views_of(out@)),
            decreases xs.len() - i,
        {
            let r = self.def_manager.resolve_from_name(xs[i].0.clone());
            proof {
                assert(s[i as int] == xs@[i as int]@);
                lemma_map_step(s, f, i as int, views_of(out@));
            }
            match r {
                Err(e) => {
                    return Err(e);
                },
                Ok(x) => {
                    let ghost before = views_of(out@);
                    let ghost xv = x@;
                    out.push(x);
                    assert(views_of(out@) =~= before.push(xv));
                },
            }
            i = i + 1;
        }
        proof {
            lemma_take_all(s);
        }
        Ok(out)
    }

    fn check_function(&self, func: &unchecked::SysDCFunction) -> (r: CResult<SysDCFunction>)
        ensures
            rv(r) == check_function(self.defs(), func@),
    {
        proof {
            reveal(check_function);
        }
        let (ret_name, ret_type) = match &func.returns {
            Some(ret) => ret,
            None => {
                return CompileError::new(CompileErrorKind::ReturnNotExists);
            },
        };
        let (_, req_ret_type) = self.def_manager.resolve_from_type((ret_name.clone(), ret_type.clone()))?;
        let ret = self.def_manager.resolve_from_name(ret_name.clone())?;
        let args = self.resolve_types(&func.args)?;
        let spawns = self.check_spawns(&func.spawns)?;
        if !req_ret_type.same(&ret.1) {
            return CompileError::new(CompileErrorKind::TypeUnmatch2(req_ret_type, ret.1));
        }
        Ok(SysDCFunction { name: func.name.clone(), args, returns: Some(ret), spawns })
    }

    #[verifier::spinoff_prover]
    fn check_spawns(&self, spawns: &Vec<unchecked::SysDCSpawn>) -> (r: CResult<Vec<SysDCSpawn>>)
        ensures
            rvs(r) == map_all(views_of(spawns@), spawn_chk(self.defs())),
    {
        let ghost f = spawn_chk(self.defs());
        let ghost s = views_of(spawns@);
        let mut out: Vec<SysDCSpawn> = Vec::new();
        proof {
            lemma_map_start(s, f);
            assert(views_of(out@) =~= Seq::<SpawnV>::empty());
        }
        let mut i: usize = 0;
        while i < spawns.len()
            invariant
                i <= s.len(),
                s == views_of(spawns@),
                f == spawn_chk(self.defs()),
                map_all(s.take(i as int), f) == Ok::<Seq<SpawnV>, CErrV>(views_of(out@)),
            decreases spawns.len() - i,
        {
            let r = self.check_spawn(&spawns[i]);
            proof {
                assert(s[i as int] == spawns@[i as int]@);
                lemma_map_step(s, f, i as int, views_of(out@));
            }
            match r {
                Err(e) => {
                    return Err(e);
                },
                Ok(x) => {
                    let ghost before = views_of(out@);
                    let ghost xv = x@;
                    out.push(x);
                    assert(views_of(out@) =~= before.push(xv));
                },
            }
            i = i + 1;
        }
        proof {
            lemma_take_all(s);
        }
        Ok(out)
    }

    fn check_spawn(&self, spawn: &unchecked::SysDCSpawn) -> (r: CResult<SysDCSpawn>)
        ensures
            rv(r) == check_spawn(self.defs(), spawn@),
    {
        proof {
            reveal(check_spawn);
        }
        let (rname, rtype) = &spawn.result;
        let (_, req_ret_type) = self.def_manager.resolve_from_type((rname.clone(), rtype.clone()))?;
        let result = self.def_manager.resolve_from_name(rname.clone())?;
        let details = self.check_children(&spawn.details)?;
        check_returns(&req_ret_type, &details)?;
        Ok(SysDCSpawn { result, details })
    }

    fn check_children(&self, details: &Vec<unchecked::SysDCSpawnChild>) -> (r: CResult<Vec<SysDCSpawnChild>>)
        ensures
            rvs(r) == map_all(views_of(details@), child_chk(self.defs())),
    {
        let ghost f = child_chk(self.defs());
        let ghost s = views_of(details@);
        let mut out: Vec<SysDCSpawnChild> = Vec::new();
        proof {
            lemma_map_start(s, f);
            assert(views_of(out@) =~= Seq::<DetailV>::empty());
        }
        let mut i: usize = 0;
        while i < details.len()
            invariant
                i <= s.len(),
                s == views_of(details@),
                f == child_chk(self.defs()),
                map_all(s.take(i as int), f) == Ok::<Seq<DetailV>, CErrV>(views_of(out@)),
            decreases details.len() - i,
        {
            let r = self.check_spawn_child(&details[i]);
            proof {
                assert(s[i as int] == details@[i as int]@);
                lemma_map_step(s, f, i as int, views_of(out@));
            }
            match r {
                Err(e) => {
                    return Err(e);
                },
                Ok(x) => {
                    let ghost before = views_of(out@);
                    let ghost xv = x@;
                    out.push(x);
                    assert(views_of(out@) =~= before.push(xv));
                },
            }
            i = i + 1;
        }
        proof {
            lemma_take_all(s);
        }
        Ok(out)
    }

    fn check_spawn_child(&self, child: &unchecked::SysDCSpawnChild) -> (r: CResult<SysDCSpawnChild>)
        ensures
            rv(r) == check_child(self.defs(), child@),
    {
        proof {
            reveal(check_child);
        }
        match child {
            unchecked::SysDCSpawnChild::Use(name, _) => {
                let (n, t) = self.def_manager.resolve_from_name(name.clone())?;
                Ok(SysDCSpawnChild::Use(n, t))
            },
            unchecked::SysDCSpawnChild::Return(name, _) => {
                let (n, t) = self.def_manager.resolve_from_name(name.clone())?;
                Ok(SysDCSpawnChild::Return(n, t))
            },
            unchecked::SysDCSpawnChild::LetTo { name, func: (_, ftype), args } => {
                if let TypeKind::Unsolved(_) = &ftype.kind {
                    let rargs = self.resolve_names(args)?;
                    let func = self.def_manager.resolve_from_type((name.clone(), ftype.clone()))?;
                    let req = self.def_manager.get_args_type(&func.0)?;
                    check_pairs(&req, &rargs)?;
                    Ok(SysDCSpawnChild::LetTo { name: name.clone(), func, args: rargs })
                } else {
                    CompileError::new(CompileErrorKind::TypeUnmatch1(ftype.clone()))
                }
            },
        }
    }
}

} // verus!
