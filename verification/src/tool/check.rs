//! Listing the functions of a system, and finding one by its full name.
use vstd::prelude::*;
use crate::lang::structure::{SysDCSystem, SysDCUnit, SysDCModule, SysDCFunction};
use crate::lang::structure::unchecked::{UnitV, ModuleV, FunctionV, SystemV};
use crate::lang::types::{TypeKind, KindV};
use crate::text::{chars_of, pair_views};

verus! {

/// How a function is listed: `Proc` when it returns nothing, `Func`
/// otherwise, with its full name.
pub open spec fn fn_entry(f: FunctionV) -> (Seq<char>, Seq<char>) {
    (if f.returns.1.kind == KindV::Void { "Proc"@ } else { "Func"@ }, f.name.full())
}

/// The entries of the functions of a module, in order.
pub open spec fn module_entries(m: ModuleV) -> Seq<(Seq<char>, Seq<char>)> {
    m.functions.map_values(|f: FunctionV| fn_entry(f))
}

/// The entries of the functions of the modules, in order.
pub open spec fn modules_entries(ms: Seq<ModuleV>) -> Seq<(Seq<char>, Seq<char>)>
    decreases ms.len(),
{
    if ms.len() == 0 {
        Seq::empty()
    } else {
        modules_entries(ms.drop_last()) + module_entries(ms.last())
    }
}

/// The entries of the functions of the units, in order.
pub open spec fn units_entries(us: Seq<UnitV>) -> Seq<(Seq<char>, Seq<char>)>
    decreases us.len(),
{
    if us.len() == 0 {
        Seq::empty()
    } else {
        units_entries(us.drop_last()) + modules_entries(us.last().modules)
    }
}

/// The functions of a module, each as `Proc` or `Func` with its full name.
pub fn get_functions(module: &SysDCModule) -> (r: Vec<(String, String)>)
    ensures
        pair_views(r@) == module_entries(module@),
{
    let mut found: Vec<(String, String)> = Vec::new();
    let mut i: usize = 0;
    while i < module.functions.len()
        invariant
            i <= module.functions@.len(),
            pair_views(found@) == module_entries(module@).take(i as int),
        decreases module.functions.len() - i,
    {
        let func = &module.functions[i];
        let kind = match func.returns.1.kind {
            TypeKind::Void => String::from_str("Proc"),
            _ => String::from_str("Func"),
        };
        let ghost before = found@;
        found.push((kind, func.name.get_full_name()));
        assert(pair_views(found@) =~= pair_views(before).push(fn_entry(module@.functions[i as int])));
        i = i + 1;
        assert(pair_views(found@) =~= module_entries(module@).take(i as int));
    }
    assert(module_entries(module@).take(i as int) =~= module_entries(module@));
    found
}

/// Every function of the system, unit by unit and module by module, each as
/// `Proc` or `Func` with its full name.
pub fn flistup(system: &SysDCSystem) -> (r: Vec<(String, String)>)
    ensures
        pair_views(r@) == units_entries(system@.units),
{
    let mut found: Vec<(String, String)> = Vec::new();
    let mut i: usize = 0;
    while i < system.units.len()
        invariant
            i <= system.units@.len(),
            pair_views(found@) == units_entries(system@.units.take(i as int)),
        decreases system.units.len() - i,
    {
        let unit = &system.units[i];
        let mut j: usize = 0;
        let ghost before = found@;
        while j < unit.modules.len()
            invariant
                j <= unit.modules@.len(),
                pair_views(found@) == pair_views(before) + modules_entries(unit@.modules.take(j as int)),
            decreases unit.modules.len() - j,
        {
            let mut fs = get_functions(&unit.modules[j]);
            let ghost mid = found@;
            found.append(&mut fs);
            assert(unit@.modules.take(j + 1).drop_last() =~= unit@.modules.take(j as int));
            assert(pair_views(found@) =~= pair_views(mid) + module_entries(unit@.modules[j as int]));
            j = j + 1;
        }
        assert(unit@.modules.take(j as int) =~= unit@.modules);
        assert(system@.units.take(i + 1).drop_last() =~= system@.units.take(i as int));
        i = i + 1;
    }
    assert(system@.units.take(i as int) =~= system@.units);
    found
}

/// Whether `s` starts with `p`.
pub fn starts_with(s: &str, p: &str) -> (r: bool)
    ensures
        r == p@.is_prefix_of(s@),
{
    let sv = chars_of(s);
    let pv = chars_of(p);
    if pv.len() > sv.len() {
        return false;
    }
    let mut i: usize = 0;
    while i < pv.len()
        invariant
            sv@ == s@,
            pv@ == p@,
            pv@.len() <= sv@.len(),
            i <= pv@.len(),
            forall|k: int| 0 <= k < i ==> sv@[k] == pv@[k],
        decreases pv.len() - i,
    {
        if sv[i] != pv[i] {
            assert(sv@.subrange(0, pv@.len() as int)[i as int] != pv@[i as int]);
            return false;
        }
        i = i + 1;
    }
    assert(pv@ =~= sv@.subrange(0, pv@.len() as int));
    true
}

/// The first unit from index `i` on whose full name starts `fname`.
pub open spec fn unit_for(us: Seq<UnitV>, fname: Seq<char>, i: int) -> Option<UnitV>
    decreases us.len() - i,
{
    if i < 0 || i >= us.len() {
        None
    } else if us[i].name.full().is_prefix_of(fname) {
        Some(us[i])
    } else {
        unit_for(us, fname, i + 1)
    }
}

/// The first module from index `i` on whose full name starts `fname`.
pub open spec fn module_for(ms: Seq<ModuleV>, fname: Seq<char>, i: int) -> Option<ModuleV>
    decreases ms.len() - i,
{
    if i < 0 || i >= ms.len() {
        None
    } else if ms[i].name.full().is_prefix_of(fname) {
        Some(ms[i])
    } else {
        module_for(ms, fname, i + 1)
    }
}

/// The first function from index `i` on whose full name is `fname`.
pub open spec fn function_named(fs: Seq<FunctionV>, fname: Seq<char>, i: int) -> Option<FunctionV>
    decreases fs.len() - i,
{
    if i < 0 || i >= fs.len() {
        None
    } else if fs[i].name.full() == fname {
        Some(fs[i])
    } else {
        function_named(fs, fname, i + 1)
    }
}

/// The function that `fname` names: looked for in the first unit whose full
/// name starts `fname`, in the first of its modules whose full name starts
/// `fname`.
pub open spec fn traced(s: SystemV, fname: Seq<char>) -> Option<FunctionV> {
    match unit_for(s.units, fname, 0) {
        None => None,
        Some(u) => match module_for(u.modules, fname, 0) {
            None => None,
            Some(m) => function_named(m.functions, fname, 0),
        },
    }
}

fn find_unit<'a>(system: &'a SysDCSystem, fname: &str) -> (r: Option<&'a SysDCUnit>)
    ensures
        match unit_for(system@.units, fname@, 0) {
            None => r is None,
            Some(u) => r matches Some(ru) && ru@ == u,
        },
{
    let mut i: usize = 0;
    while i < system.units.len()
        invariant
            i <= system.units@.len(),
            unit_for(system@.units, fname@, 0) == unit_for(system@.units, fname@, i as int),
        decreases system.units.len() - i,
    {
        let unit = &system.units[i];
        if starts_with(fname, unit.name.get_full_name().as_str()) {
            return Some(unit);
        }
        i = i + 1;
    }
    None
}

fn find_module<'a>(unit: &'a SysDCUnit, fname: &str) -> (r: Option<&'a SysDCModule>)
    ensures
        match module_for(unit@.modules, fname@, 0) {
            None => r is None,
            Some(m) => r matches Some(rm) && rm@ == m,
        },
{
    let mut i: usize = 0;
    while i < unit.modules.len()
        invariant
            i <= unit.modules@.len(),
            module_for(unit@.modules, fname@, 0) == module_for(unit@.modules, fname@, i as int),
        decreases unit.modules.len() - i,
    {
        let module = &unit.modules[i];
        if starts_with(fname, module.name.get_full_name().as_str()) {
            return Some(module);
        }
        i = i + 1;
    }
    None
}

fn find_function<'a>(module: &'a SysDCModule, fname: &str) -> (r: Option<&'a SysDCFunction>)
    ensures
        match function_named(module@.functions, fname@, 0) {
            None => r is None,
            Some(f) => r matches Some(rf) && rf@ == f,
        },
{
    let mut i: usize = 0;
    while i < module.functions.len()
        invariant
            i <= module.functions@.len(),
            function_named(module@.functions, fname@, 0) == function_named(module@.functions, fname@, i as int),
        decreases module.functions.len() - i,
    {
        let func = &module.functions[i];
        let full = func.name.get_full_name();
        if starts_with(fname, full.as_str()) && full.unicode_len() == fname.unicode_len() {
            assert(full@ =~= fname@);
            return Some(func);
        }
        i = i + 1;
    }
    None
}

/// The function of the system whose full name is `fname`.
pub fn trace<'a>(system: &'a SysDCSystem, fname: String) -> (r: Option<&'a SysDCFunction>)
    ensures
        match traced(system@, fname@) {
            None => r is None,
            Some(f) => r matches Some(rf) && rf@ == f,
        },
{
    let unit = match find_unit(system, fname.as_str()) {
        Some(u) => u,
        None => return None,
    };
    let module = match find_module(unit, fname.as_str()) {
        Some(m) => m,
        None => return None,
    };
    find_function(module, fname.as_str())
}

/// What `trace` finds for a name is a function of that full name, in a
/// module and a unit whose full names start it.
pub proof fn lemma_traced_named(s: SystemV, fname: Seq<char>)
    ensures
        traced(s, fname) matches Some(f) ==> f.name.full() == fname,
{
    if let Some(u) = unit_for(s.units, fname, 0) {
        if let Some(m) = module_for(u.modules, fname, 0) {
            lemma_function_named(m.functions, fname, 0);
        }
    }
}

proof fn lemma_function_named(fs: Seq<FunctionV>, fname: Seq<char>, i: int)
    ensures
        function_named(fs, fname, i) matches Some(f) ==> f.name.full() == fname && fs.contains(f),
    decreases fs.len() - i,
{
    if 0 <= i < fs.len() {
        lemma_function_named(fs, fname, i + 1);
    }
}

/// Every function of the system is listed once, in order, under its full
/// name.
pub proof fn lemma_listed_functions(us: Seq<UnitV>)
    ensures
        units_entries(us).len() == crate::tool::eval::duplication::units_functions(us).len(),
        forall|k: int| 0 <= k < units_entries(us).len() ==> #[trigger] units_entries(us)[k] == fn_entry(
            crate::tool::eval::duplication::units_functions(us)[k],
        ),
    decreases us.len(),
{
    if us.len() > 0 {
        lemma_listed_functions(us.drop_last());
        lemma_listed_modules(us.last().modules);
        let a = units_entries(us.drop_last());
        let b = modules_entries(us.last().modules);
        let fa = crate::tool::eval::duplication::units_functions(us.drop_last());
        let fb = crate::tool::eval::duplication::modules_functions(us.last().modules);
        assert forall|k: int| 0 <= k < units_entries(us).len() implies #[trigger] units_entries(us)[k] == fn_entry(
            crate::tool::eval::duplication::units_functions(us)[k],
        ) by {
            if k < a.len() {
                assert(units_entries(us)[k] == a[k]);
                assert(crate::tool::eval::duplication::units_functions(us)[k] == fa[k]);
            } else {
                assert(units_entries(us)[k] == b[k - a.len()]);
                assert(crate::tool::eval::duplication::units_functions(us)[k] == fb[k - fa.len()]);
            }
        }
    }
}

/// Every function is listed as `Proc` exactly when it returns nothing
/// (its return kind is `Void`), and as `Func` exactly when it returns
/// something, under its full name.
pub proof fn lemma_listed_kinds(us: Seq<UnitV>)
    ensures
        forall|k: int| 0 <= k < units_entries(us).len() ==> {
            let f = #[trigger] crate::tool::eval::duplication::units_functions(us)[k];
            &&& (units_entries(us)[k].0 == "Proc"@ <==> f.returns.1.kind == KindV::Void)
            &&& (units_entries(us)[k].0 == "Func"@ <==> f.returns.1.kind != KindV::Void)
            &&& units_entries(us)[k].1 == f.name.full()
        },
{
    lemma_listed_functions(us);
    reveal_strlit("Proc");
    reveal_strlit("Func");
    assert("Proc"@[0] != "Func"@[0]);
}

proof fn lemma_listed_modules(ms: Seq<ModuleV>)
    ensures
        modules_entries(ms).len() == crate::tool::eval::duplication::modules_functions(ms).len(),
        forall|k: int| 0 <= k < modules_entries(ms).len() ==> #[trigger] modules_entries(ms)[k] == fn_entry(
            crate::tool::eval::duplication::modules_functions(ms)[k],
        ),
    decreases ms.len(),
{
    if ms.len() > 0 {
        lemma_listed_modules(ms.drop_last());
        let a = modules_entries(ms.drop_last());
        let b = module_entries(ms.last());
        let fa = crate::tool::eval::duplication::modules_functions(ms.drop_last());
        let fb = ms.last().functions;
        assert forall|k: int| 0 <= k < modules_entries(ms).len() implies #[trigger] modules_entries(ms)[k] == fn_entry(
            crate::tool::eval::duplication::modules_functions(ms)[k],
        ) by {
            if k < a.len() {
                assert(modules_entries(ms)[k] == a[k]);
                assert(crate::tool::eval::duplication::modules_functions(ms)[k] == fa[k]);
            } else {
                assert(modules_entries(ms)[k] == b[k - a.len()]);
                assert(crate::tool::eval::duplication::modules_functions(ms)[k] == fb[k - fa.len()]);
            }
        }
    }
}

} // verus!
