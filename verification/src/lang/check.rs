//! Checking a parsed system: every definition is listed, every type and
//! every name is resolved to its definition, and the types that meet in
//! returns, spawns and calls are compared.
pub mod lists;
pub mod define;
pub mod resolve;
pub mod matches;

use vstd::prelude::*;
use crate::lang::name::{Name, NameV};
use crate::lang::error::{PErrorV, PResult};
use crate::lang::structure::{views_of, SysDCSystem};
use crate::lang::structure::unchecked;
use crate::lang::structure::unchecked::{SystemV, UnitV};
use crate::lang::check::lists::{
    concat_map, all_ok, lemma_take_all, lemma_take_next, lemma_all_ok_start, lemma_all_ok_step,
};
use crate::lang::check::define::{DefinesManager, DefineV, defines_of, can_import};
use crate::lang::check::resolve::{
    TypeResolver, resolve_system, system_solved, lemma_resolve_system_solved, rv, resolve_unit,
    system_names_variables, lemma_resolved_spawns_name_variables,
    resolve_module, resolve_data, resolve_function, unit_res, module_res, data_res, function_res,
};
use crate::lang::check::lists::lemma_map_all_ok;
use crate::lang::structure::unchecked::{ModuleV, DataV, FunctionV};
use crate::lang::check::matches::{TypeMatchChecker, check_system};

verus! {

pub open spec fn unit_imports() -> spec_fn(UnitV) -> Seq<NameV> {
    |u: UnitV| u.imports
}

/// The names every unit imports, unit after unit.
pub open spec fn imports_of(s: SystemV) -> Seq<NameV> {
    concat_map(s.units, unit_imports())
}

pub open spec fn import_chk(defs: Seq<DefineV>) -> spec_fn(NameV) -> Result<(), PErrorV> {
    |n: NameV| can_import(defs, n, Seq::empty())
}

/// What checking a parsed system gives: its definitions are listed, every
/// import must name data or a module, every type and name is resolved, and
/// the types that meet are compared; the resolved system, or the first
/// failure.
pub open spec fn checked(s: SystemV) -> Result<SystemV, PErrorV> {
    match defines_of(s) {
        Err(e) => Err(e),
        Ok(defs) => match all_ok(imports_of(s), import_chk(defs)) {
            Err(e) => Err(e),
            Ok(()) => match resolve_system(defs, imports_of(s), s) {
                Err(e) => Err(e),
                Ok(rs) => match check_system(defs, imports_of(s), rs) {
                    Err(e) => Err(e),
                    Ok(()) => Ok(rs),
                },
            },
        },
    }
}

/// Checks a parsed system.
pub struct Checker {
    def_manager: DefinesManager,
    imports: Vec<Name>,
}

impl Checker {
    /// Checks a parsed system and gives it with every type resolved.
    pub fn check(system: unchecked::SysDCSystem) -> (r: PResult<SysDCSystem>)
        ensures
            rv(r) == checked(system@),
    {
        let def_manager = DefinesManager::new(&system)?;
        let ghost defs = def_manager@;
        let imports = collect_imports(&system);
        let ghost f = import_chk(defs);
        let ghost s = views_of(imports@);
        let empty: Vec<Name> = Vec::new();
        proof {
            assert(views_of(empty@) =~= Seq::<NameV>::empty());
            lemma_all_ok_start(s, f);
        }
        let mut i: usize = 0;
        while i < imports.len()
            invariant
                i <= s.len(),
                s == views_of(imports@),
                f == import_chk(def_manager@),
                defines_of(system@) == Ok::<Seq<DefineV>, PErrorV>(def_manager@),
                imports_of(system@) == s,
                views_of(empty@) == Seq::<NameV>::empty(),
                all_ok(s.take(i as int), f) == Ok::<(), PErrorV>(()),
            decreases imports.len() - i,
        {
            let r = def_manager.check_can_import(&imports[i], &empty);
            proof {
                assert(s[i as int] == imports@[i as int]@);
                lemma_all_ok_step(s, f, i as int);
            }
            if let Err(e) = r {
                return Err(e);
            }
            i = i + 1;
        }
        proof {
            lemma_take_all(s);
        }
        let checker = Checker { def_manager, imports };
        let resolved = TypeResolver::resolve(system, &checker.def_manager, &checker.imports)?;
        TypeMatchChecker::check(&resolved, &checker.def_manager, &checker.imports)?;
        Ok(resolved)
    }
}

/// The names every unit of `system` imports, unit after unit.
fn collect_imports(system: &unchecked::SysDCSystem) -> (r: Vec<Name>)
    ensures
        views_of(r@) == imports_of(system@),
{
    let ghost us = views_of(system.units@);
    let mut out: Vec<Name> = Vec::new();
    proof {
        assert(us.take(0) =~= Seq::<UnitV>::empty());
        assert(views_of(out@) =~= Seq::<NameV>::empty());
    }
    let mut i: usize = 0;
    while i < system.units.len()
        invariant
            i <= us.len(),
            us == views_of(system.units@),
            views_of(out@) == concat_map(us.take(i as int), unit_imports()),
        decreases system.units.len() - i,
    {
        let unit = &system.units[i];
        let ghost before = views_of(out@);
        let mut j: usize = 0;
        while j < unit.imports.len()
            invariant
                j <= unit.imports@.len(),
                views_of(out@) == before + views_of(unit.imports@).take(j as int),
            decreases unit.imports.len() - j,
        {
            let ghost mid = views_of(out@);
            let ghost nv = unit.imports@[j as int]@;
            let n = unit.imports[j].clone();
            out.push(n);
            assert(views_of(out@) =~= mid.push(nv));
            assert(views_of(unit.imports@).take(j as int + 1) =~= views_of(unit.imports@).take(j as int).push(nv));
            assert(views_of(out@) =~= before + views_of(unit.imports@).take(j as int + 1));
            j = j + 1;
        }
        proof {
            assert(us[i as int] == unit@);
            lemma_take_next(us, i as int);
            assert(views_of(unit.imports@).take(unit.imports@.len() as int) =~= views_of(unit.imports@));
        }
        i = i + 1;
    }
    proof {
        lemma_take_all(us);
    }
    out
}

/// Checks a parsed system and gives it with every type resolved.
pub fn check(system: unchecked::SysDCSystem) -> (r: PResult<SysDCSystem>)
    ensures
        rv(r) == checked(system@),
{
    Checker::check(system)
}

/// A module and what it became keep their name and their functions, by
/// name and number of arguments, in order.
pub open spec fn module_kept(m: ModuleV, r: ModuleV) -> bool {
    &&& r.name == m.name
    &&& r.functions.len() == m.functions.len()
    &&& forall|k: int| 0 <= k < m.functions.len() ==> {
        &&& (#[trigger] r.functions[k]).name == m.functions[k].name
        &&& r.functions[k].args.len() == m.functions[k].args.len()
    }
}

/// A unit and what it became keep their name, their data (by name and
/// number of members) and their modules, in order.
pub open spec fn unit_kept(u: UnitV, r: UnitV) -> bool {
    &&& r.name == u.name
    &&& r.data.len() == u.data.len()
    &&& forall|j: int| 0 <= j < u.data.len() ==> {
        &&& (#[trigger] r.data[j]).name == u.data[j].name
        &&& r.data[j].members.len() == u.data[j].members.len()
    }
    &&& r.modules.len() == u.modules.len()
    &&& forall|j: int| 0 <= j < u.modules.len() ==> module_kept(u.modules[j], #[trigger] r.modules[j])
}

/// A system and its checked form have the same units, in order, each kept.
pub open spec fn system_kept(s: SystemV, r: SystemV) -> bool {
    &&& r.units.len() == s.units.len()
    &&& forall|i: int| 0 <= i < s.units.len() ==> unit_kept(s.units[i], #[trigger] r.units[i])
}

proof fn lemma_module_kept(defs: Seq<DefineV>, imports: Seq<NameV>, m: ModuleV)
    ensures
        resolve_module(defs, imports, m) matches Ok(r) ==> module_kept(m, r),
{
    reveal(resolve_module);
    lemma_map_all_ok(m.functions, function_res(defs, imports));
    if let Ok(r) = resolve_module(defs, imports, m) {
        assert forall|k: int| 0 <= k < m.functions.len() implies {
            &&& (#[trigger] r.functions[k]).name == m.functions[k].name
            &&& r.functions[k].args.len() == m.functions[k].args.len()
        } by {
            let f = m.functions[k];
            assert(function_res(defs, imports)(f) == Ok::<FunctionV, PErrorV>(r.functions[k]));
            assert(resolve_function(defs, imports, f) == Ok::<FunctionV, PErrorV>(r.functions[k]));
            reveal(resolve_function);
            lemma_map_all_ok(f.args, crate::lang::check::resolve::type_res(defs, imports));
        }
    }
}

proof fn lemma_unit_kept(defs: Seq<DefineV>, imports: Seq<NameV>, u: UnitV)
    ensures
        resolve_unit(defs, imports, u) matches Ok(r) ==> unit_kept(u, r),
{
    reveal(resolve_unit);
    lemma_map_all_ok(u.data, data_res(defs, imports));
    lemma_map_all_ok(u.modules, module_res(defs, imports));
    if let Ok(r) = resolve_unit(defs, imports, u) {
        assert forall|j: int| 0 <= j < u.data.len() implies {
            &&& (#[trigger] r.data[j]).name == u.data[j].name
            &&& r.data[j].members.len() == u.data[j].members.len()
        } by {
            reveal(resolve_data);
            assert(data_res(defs, imports)(u.data[j]) == Ok::<DataV, PErrorV>(r.data[j]));
            lemma_map_all_ok(u.data[j].members, crate::lang::check::resolve::type_res(defs, imports));
        }
        assert forall|j: int| 0 <= j < u.modules.len() implies module_kept(u.modules[j], #[trigger] r.modules[j]) by {
            assert(module_res(defs, imports)(u.modules[j]) == Ok::<ModuleV, PErrorV>(r.modules[j]));
            lemma_module_kept(defs, imports, u.modules[j]);
        }
    }
}

/// Checking keeps the shape of a system: the same units in order, each with
/// its name, its data and its modules in order, each module with its
/// functions in order, each function with its name and number of
/// arguments.
pub proof fn lemma_checked_keeps_shape(s: SystemV)
    ensures
        checked(s) matches Ok(r) ==> system_kept(s, r),
{
    if let Ok(defs) = defines_of(s) {
        let imports = imports_of(s);
        lemma_map_all_ok(s.units, unit_res(defs, imports));
        if let Ok(r) = checked(s) {
            assert(resolve_system(defs, imports, s) == Ok::<SystemV, PErrorV>(r));
            assert forall|i: int| 0 <= i < s.units.len() implies unit_kept(s.units[i], #[trigger] r.units[i]) by {
                assert(unit_res(defs, imports)(s.units[i]) == Ok::<UnitV, PErrorV>(r.units[i]));
                lemma_unit_kept(defs, imports, s.units[i]);
            }
        }
    }
}

/// Checking leaves no type unresolved: every type in a checked system is a
/// primitive, a data type, or the nothing a procedure returns.
pub proof fn lemma_checked_solved(s: SystemV)
    ensures
        checked(s) matches Ok(r) ==> system_solved(r),
{
    if let Ok(defs) = defines_of(s) {
        lemma_resolve_system_solved(defs, imports_of(s), s);
    }
}

/// In a checked system, every `use` and `return` line of a spawn names the
/// variable it refers to among the system's definitions (a name brought in
/// by `use` is followed to it), or a dotted path into data.
pub proof fn lemma_checked_spawns_name_variables(s: SystemV)
    ensures
        checked(s) matches Ok(r) ==> defines_of(s) matches Ok(defs) && system_names_variables(defs, r),
{
    if let Ok(defs) = defines_of(s) {
        lemma_resolved_spawns_name_variables(defs, imports_of(s), s);
    }
}

} // verus!
